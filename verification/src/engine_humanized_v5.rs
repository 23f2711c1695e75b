//! Configuration of the humanized engine: a version-16 engine whose search
//! depth follows a difficulty level.

use vstd::prelude::*;
use rand::Rng;
use crate::engine_iterative_v16::{IterativeEngine, option_applied};
use crate::game_state::{GameState, GameStateView};
use crate::info_line_scan::{chars_of, find_from, find_phrase, first_word_after, i32_text, parse_i32_chars, word_after, lemma_find_from_occurs};
use crate::legal_move_generator::{generation_ok, legal_move};
use crate::long_algebraic::{la_parts, long_algebraic_to_move_description, move_matches};

verus! {

/// The search depth of a difficulty level: 2 for levels 3-5, 3 for 6-8,
/// 4 for 9-11, 5 for 12-14, 6 for 15-17, and 4 otherwise.
pub open spec fn depth_for_level(level: u8) -> u8 {
    if 3 <= level <= 5 {
        2
    } else if 6 <= level <= 8 {
        3
    } else if 9 <= level <= 11 {
        4
    } else if 12 <= level <= 14 {
        5
    } else if 15 <= level <= 17 {
        6
    } else {
        4
    }
}

/// The search depth of a difficulty level.
pub fn default_depth_for_level(level: u8) -> (r: u8)
    ensures
        r == depth_for_level(level),
{
    if 3 <= level && level <= 5 {
        2
    } else if 6 <= level && level <= 8 {
        3
    } else if 9 <= level && level <= 11 {
        4
    } else if 12 <= level && level <= 14 {
        5
    } else if 15 <= level && level <= 17 {
        6
    } else {
        4
    }
}

/// The humanized engine at a difficulty level.
pub struct HumanizedEngineV5 {
    level: u8,
    inner: IterativeEngine,
}

impl HumanizedEngineV5 {
    /// The difficulty level.
    pub closed spec fn level_of(self) -> u8 {
        self.level
    }

    /// The wrapped version-16 engine.
    pub closed spec fn inner_of(self) -> IterativeEngine {
        self.inner
    }

    /// An engine at `level`, searching to that level's depth with the
    /// standard material table.
    pub fn new(level: u8) -> (r: Self)
        ensures
            r.level_of() == level,
            r.inner_of().default_depth_of() == depth_for_level(level),
            r.inner_of().scorer_kind_of() == crate::engine_iterative_v16::IterativeScorerKind::Standard,
            r.inner_of().settings_of() == IterativeEngine::initial_settings(),
    {
        let default_depth = default_depth_for_level(level);
        HumanizedEngineV5 { level, inner: IterativeEngine::new_standard(default_depth) }
    }

    /// Apply a UCI option to the wrapped engine.
    pub fn set_option(&mut self, name: &str, value: &str) -> (r: Result<(), String>)
        ensures
            final(self).level_of() == old(self).level_of(),
            final(self).inner_of().default_depth_of() == old(self).inner_of().default_depth_of(),
            final(self).inner_of().scorer_kind_of() == old(self).inner_of().scorer_kind_of(),
            match option_applied(old(self).inner_of().settings_of(), name, value) {
                Ok(s2) => r is Ok && final(self).inner_of().settings_of() == s2,
                Err(msg) => (r matches Err(e) && e@ == msg) && final(self).inner_of().settings_of()
                    == old(self).inner_of().settings_of(),
            },
    {
        self.inner.set_option(name, value)
    }
}


/// A candidate move with its centipawn score.
#[derive(Debug, Clone, Copy, PartialEq, Eq, Structural)]
pub struct ScoredMove {
    pub mv: u64,
    pub cp: i32,
}

/// The score and principal-variation head of a multi-PV info line: the
/// line names ` multipv `, ` score cp ` and ` pv `; the word after the
/// first ` score cp ` is an `i32`; a word follows the first ` pv `.
pub open spec fn candidate_fields(line: Seq<char>) -> Option<(i32, Seq<char>)> {
    let sc = find_from(line, " score cp "@, 0);
    let pv = find_from(line, " pv "@, 0);
    if find_from(line, " multipv "@, 0) is Some && sc is Some && pv is Some {
        match first_word_after(line, sc.unwrap() + " score cp "@.len()) {
            Some(cp_word) => match i32_text(cp_word) {
                Some(cp) => match first_word_after(line, pv.unwrap() + " pv "@.len()) {
                    Some(lan) => Some((cp, lan)),
                    None => None,
                },
                None => None,
            },
            None => None,
        }
    } else {
        None
    }
}

/// The texts of a list of lines.
pub open spec fn line_texts(lines: Seq<String>) -> Seq<Seq<char>> {
    lines.map_values(|l: String| l@)
}

/// Some entry of `s` has move `mv`.
pub open spec fn has_move(s: Seq<ScoredMove>, mv: u64) -> bool {
    exists|i: int| 0 <= i < s.len() && (#[trigger] s[i]).mv == mv
}

/// The candidates of the first `n` lines, in line order, keeping the
/// first line for each move; line `i`'s move is `resolved[i]`.
pub open spec fn collected(lines: Seq<Seq<char>>, resolved: Seq<Option<u64>>, n: int) -> Seq<ScoredMove>
    decreases n,
{
    if n <= 0 {
        Seq::empty()
    } else {
        let prev = collected(lines, resolved, n - 1);
        match candidate_fields(lines[n - 1]) {
            Some((cp, _)) => match resolved[n - 1] {
                Some(mv) => if has_move(prev, mv) {
                    prev
                } else {
                    prev.push(ScoredMove { mv, cp })
                },
                None => prev,
            },
            None => prev,
        }
    }
}

/// The first index at or after `i` whose score is below `x`'s.
pub open spec fn insert_pos(s: Seq<ScoredMove>, x: ScoredMove, i: int) -> int
    decreases s.len() - i,
{
    if i < 0 || i >= s.len() {
        s.len() as int
    } else if s[i].cp < x.cp {
        i
    } else {
        insert_pos(s, x, i + 1)
    }
}

/// `s` sorted by score, highest first, keeping the order of equal scores
/// (a stable sort).
pub open spec fn sorted_desc(s: Seq<ScoredMove>) -> Seq<ScoredMove>
    decreases s.len(),
{
    if s.len() == 0 {
        s
    } else {
        let t = sorted_desc(s.drop_last());
        t.insert(insert_pos(t, s.last(), 0), s.last())
    }
}

/// The text names a legal move of the position.
pub open spec fn names_legal_move(g: GameStateView, lan: Seq<char>) -> bool {
    la_parts(vstd::utf8::encode_utf8(lan)) is Some && generation_ok(g) && exists|m: u64|
        legal_move(g, m) && #[trigger] move_matches(m, la_parts(vstd::utf8::encode_utf8(lan)).unwrap())
}

/// A line's resolution: for a line with candidate fields, a legal move its
/// principal-variation head names, present whenever one exists; nothing
/// otherwise.
pub open spec fn resolution_ok(g: GameStateView, fields: Option<(i32, Seq<char>)>, res: Option<u64>) -> bool {
    match fields {
        Some((_, lan)) => {
            &&& res matches Some(m) ==> legal_move(g, m) && la_parts(vstd::utf8::encode_utf8(lan)) is Some
                && move_matches(m, la_parts(vstd::utf8::encode_utf8(lan)).unwrap())
            &&& (res is Some <==> names_legal_move(g, lan))
        },
        None => res is None,
    }
}

/// `resolved` resolves every line.
pub open spec fn resolves(g: GameStateView, lines: Seq<Seq<char>>, resolved: Seq<Option<u64>>) -> bool {
    &&& resolved.len() == lines.len()
    &&& forall|i: int| #![trigger resolved[i]] 0 <= i < lines.len() ==> resolution_ok(g, candidate_fields(lines[i]), resolved[i])
}

/// The candidate fields of one info line.
pub fn multipv_line_fields(line: &String) -> (r: Option<(i32, String)>)
    ensures
        r is None <==> candidate_fields(line@) is None,
        r matches Some((cp, lan)) ==> candidate_fields(line@) == Some((cp, lan@)),
{
    let chars = chars_of(line.as_str());
    let multipv = chars_of(" multipv ");
    let score_cp = chars_of(" score cp ");
    let pv = chars_of(" pv ");
    let found_multipv = find_phrase(&chars, &multipv, 0);
    let found_score = find_phrase(&chars, &score_cp, 0);
    let found_pv = find_phrase(&chars, &pv, 0);
    if found_multipv.is_none() || found_score.is_none() || found_pv.is_none() {
        return None;
    }
    let sc = found_score.unwrap();
    let pvi = found_pv.unwrap();
    proof {
        lemma_find_from_occurs(chars@, score_cp@, 0);
        lemma_find_from_occurs(chars@, pv@, 0);
    }
    let _line_len = chars.len();
    assert(sc + score_cp@.len() <= chars@.len());
    assert(pvi + pv@.len() <= chars@.len());
    let (j, e) = match word_after(&chars, sc + score_cp.len()) {
        Some(b) => b,
        None => {
            return None;
        },
    };
    let cp = match parse_i32_chars(&chars, j, e) {
        Some(v) => v,
        None => {
            return None;
        },
    };
    let (j2, e2) = match word_after(&chars, pvi + pv.len()) {
        Some(b) => b,
        None => {
            return None;
        },
    };
    let lan = line.as_str().substring_char(j2, e2);
    Some((cp, lan.to_owned()))
}

/// Whether some entry has move `mv`.
fn contains_move(s: &Vec<ScoredMove>, mv: u64) -> (r: bool)
    ensures
        r == has_move(s@, mv),
{
    let mut i: usize = 0;
    while i < s.len()
        invariant
            i <= s.len(),
            forall|j: int| 0 <= j < i ==> (#[trigger] s@[j]).mv != mv,
        decreases s.len() - i,
    {
        if s[i].mv == mv {
            return true;
        }
        i = i + 1;
    }
    false
}

/// Sort by score, highest first, keeping the order of equal scores.
fn sort_by_score(s: &Vec<ScoredMove>) -> (r: Vec<ScoredMove>)
    ensures
        r@ == sorted_desc(s@),
{
    let mut out: Vec<ScoredMove> = Vec::new();
    let mut i: usize = 0;
    assert(s@.take(0) =~= Seq::<ScoredMove>::empty());
    while i < s.len()
        invariant
            i <= s.len(),
            out@ == sorted_desc(s@.take(i as int)),
        decreases s.len() - i,
    {
        let x = s[i];
        let mut k: usize = 0;
        while k < out.len() && !(out[k].cp < x.cp)
            invariant
                k <= out.len(),
                insert_pos(out@, x, 0) == insert_pos(out@, x, k as int),
            decreases out.len() - k,
        {
            k = k + 1;
        }
        assert(s@.take(i + 1).drop_last() =~= s@.take(i as int));
        assert(s@.take(i + 1).last() == x);
        out.insert(k, x);
        i = i + 1;
    }
    assert(s@.take(s.len() as int) =~= s@);
    out
}

/// The scored candidates of info lines, given the move each line's
/// principal-variation head resolves to: first line per move, sorted by
/// score, highest first (equal scores in line order).
pub fn scored_candidates(info_lines: &[String], resolved: &[Option<u64>]) -> (r: Vec<ScoredMove>)
    requires
        resolved@.len() == info_lines@.len(),
    ensures
        r@ == sorted_desc(collected(line_texts(info_lines@), resolved@, info_lines@.len() as int)),
{
    let ghost lines = line_texts(info_lines@);
    let mut out: Vec<ScoredMove> = Vec::new();
    let mut i: usize = 0;
    while i < info_lines.len()
        invariant
            i <= info_lines.len(),
            resolved@.len() == info_lines@.len(),
            lines == line_texts(info_lines@),
            out@ == collected(lines, resolved@, i as int),
        decreases info_lines.len() - i,
    {
        assert(lines[i as int] == info_lines@[i as int]@);
        if let Some((cp, _)) = multipv_line_fields(&info_lines[i]) {
            if let Some(mv) = resolved[i] {
                if !contains_move(&out, mv) {
                    out.push(ScoredMove { mv, cp });
                }
            }
        }
        i = i + 1;
    }
    sort_by_score(&out)
}

/// The scored candidates of multi-PV info lines: each line's
/// principal-variation head is read as a legal move of the position;
/// see `scored_candidates`.
pub fn parse_multipv_candidates(info_lines: &[String], game_state: &GameState) -> (r: Vec<ScoredMove>)
    ensures
        exists|resolved: Seq<Option<u64>>|
            #[trigger] resolves(game_state@, line_texts(info_lines@), resolved) && r@ == sorted_desc(
                collected(line_texts(info_lines@), resolved, info_lines@.len() as int),
            ),
{
    let ghost lines = line_texts(info_lines@);
    let mut resolved: Vec<Option<u64>> = Vec::new();
    let mut i: usize = 0;
    while i < info_lines.len()
        invariant
            i <= info_lines.len(),
            resolved@.len() == i,
            lines == line_texts(info_lines@),
            forall|k: int| #![trigger resolved@[k]] 0 <= k < i ==> resolution_ok(game_state@, candidate_fields(lines[k]), resolved@[k]),
        decreases info_lines.len() - i,
    {
        assert(lines[i as int] == info_lines@[i as int]@);
        let entry = match multipv_line_fields(&info_lines[i]) {
            Some((_, lan)) => match long_algebraic_to_move_description(lan.as_str(), game_state) {
                Ok(mv) => Some(mv),
                Err(_) => None,
            },
            None => None,
        };
        resolved.push(entry);
        i = i + 1;
    }
    let r = scored_candidates(info_lines, resolved.as_slice());
    assert(resolves(game_state@, lines, resolved@));
    r
}

/// How far a candidate's score falls below the best's (never negative).
pub open spec fn loss_of(best: ScoredMove, c: ScoredMove) -> int {
    if best.cp - c.cp > 0 {
        best.cp - c.cp
    } else {
        0
    }
}

/// The candidates within `allowed` of the best, in order, with their
/// losses.
pub open spec fn within_loss(cands: Seq<ScoredMove>, best: ScoredMove, allowed: i32) -> Seq<(ScoredMove, i32)>
    decreases cands.len(),
{
    if cands.len() == 0 {
        Seq::empty()
    } else {
        let rest = within_loss(cands.drop_last(), best, allowed);
        let c = cands.last();
        if loss_of(best, c) <= allowed {
            rest.push((c, loss_of(best, c) as i32))
        } else {
            rest
        }
    }
}

/// The weight of a candidate: one more than the loss it leaves unused.
pub open spec fn weight_of(allowed: i32, loss: i32) -> nat {
    if allowed - loss + 1 >= 1 {
        (allowed - loss + 1) as nat
    } else {
        1
    }
}

/// The sum of the weights.
pub open spec fn total_weight(list: Seq<(ScoredMove, i32)>, allowed: i32) -> nat
    decreases list.len(),
{
    if list.len() == 0 {
        0
    } else {
        total_weight(list.drop_last(), allowed) + weight_of(allowed, list.last().1)
    }
}

/// The entry a pick falls on when the weights are laid end to end.
pub open spec fn weighted_pick(list: Seq<(ScoredMove, i32)>, allowed: i32, pick: int) -> Option<(ScoredMove, i32)>
    decreases list.len(),
{
    if list.len() == 0 {
        None
    } else if pick < weight_of(allowed, list[0].1) {
        Some(list[0])
    } else {
        weighted_pick(list.drop_first(), allowed, pick - weight_of(allowed, list[0].1))
    }
}

/// The humanized choice for a pick: none with fewer than three
/// candidates; else the candidate within `allowed` of the best that the
/// pick falls on, with its loss and `allowed` (the best, with loss 0, when
/// none is within or the pick falls past them all).
pub open spec fn humanized_choice(cands: Seq<ScoredMove>, allowed: i32, pick: int) -> Option<(u64, i32, i32)> {
    if cands.len() < 3 {
        None
    } else {
        let list = within_loss(cands, cands[0], allowed);
        match weighted_pick(list, allowed, pick) {
            Some((c, loss)) => Some((c.mv, loss, allowed)),
            None => Some((cands[0].mv, 0, allowed)),
        }
    }
}

/// The scores differ by amounts an `i32` holds and `allowed` leaves room
/// for the weights.
pub open spec fn choice_fits(cands: Seq<ScoredMove>, allowed: i32) -> bool {
    &&& cands.len() < 0x1_0000_0000
    &&& allowed < i32::MAX
    &&& cands.len() > 0 ==> forall|i: int| 0 <= i < cands.len() ==> i32::MIN <= cands[0].cp - (#[trigger] cands[i]).cp <= i32::MAX
}

/// The candidates within `allowed` of the best and their total weight.
fn allowed_candidates(cands: &[ScoredMove], allowed: i32) -> (r: (Vec<(ScoredMove, i32)>, u64))
    requires
        cands@.len() >= 1,
        choice_fits(cands@, allowed),
    ensures
        r.0@ == within_loss(cands@, cands@[0], allowed),
        r.1 == total_weight(r.0@, allowed),
{
    let best = cands[0];
    let mut list: Vec<(ScoredMove, i32)> = Vec::new();
    let mut total: u64 = 0;
    let mut i: usize = 0;
    assert(cands@.take(0) =~= Seq::<ScoredMove>::empty());
    while i < cands.len()
        invariant
            i <= cands@.len(),
            cands@.len() >= 1,
            best == cands@[0],
            choice_fits(cands@, allowed),
            list@ == within_loss(cands@.take(i as int), best, allowed),
            total == total_weight(list@, allowed),
            list@.len() <= i,
            total <= i * 0x8000_0000,
        decreases cands@.len() - i,
    {
        let c = cands[i];
        assert(i32::MIN <= cands@[0].cp - cands@[i as int].cp <= i32::MAX);
        let diff: i32 = best.cp - c.cp;
        let loss: i32 = if diff > 0 { diff } else { 0 };
        assert(cands@.take(i + 1).drop_last() =~= cands@.take(i as int));
        assert(cands@.take(i + 1).last() == c);
        if loss <= allowed {
            let w: i64 = allowed as i64 - loss as i64 + 1;
            let w64: u64 = if w >= 1 { w as u64 } else { 1 };
            assert(total + w64 <= (i + 1) * 0x8000_0000) by (nonlinear_arith)
                requires
                    total <= i * 0x8000_0000,
                    w64 <= 0x8000_0000,
            ;
            let ghost before = list@;
            total = total + w64;
            list.push((c, loss));
            assert(list@.drop_last() =~= before);
        } else {
            assert((i + 1) * 0x8000_0000 >= i * 0x8000_0000) by (nonlinear_arith);
        }
        i = i + 1;
    }
    assert(cands@.take(cands@.len() as int) =~= cands@);
    (list, total)
}

/// The humanized choice for a given pick.
pub fn select_with_pick(cands: &[ScoredMove], allowed: i32, pick: u64) -> (r: Option<(u64, i32, i32)>)
    requires
        choice_fits(cands@, allowed),
    ensures
        r == humanized_choice(cands@, allowed, pick as int),
{
    if cands.len() < 3 {
        return None;
    }
    let best = cands[0];
    let (list, _) = allowed_candidates(cands, allowed);
    let mut remaining: u64 = pick;
    let mut i: usize = 0;
    assert(list@.skip(0) =~= list@);
    while i < list.len()
        invariant
            i <= list@.len(),
            cands@.len() >= 3,
            list@ == within_loss(cands@, cands@[0], allowed),
            weighted_pick(list@, allowed, pick as int) == weighted_pick(list@.skip(i as int), allowed, remaining as int),
        decreases list@.len() - i,
    {
        let (c, loss) = list[i];
        let wi: i64 = allowed as i64 - loss as i64 + 1;
        let w: u64 = if wi >= 1 { wi as u64 } else { 1 };
        assert(list@.skip(i as int)[0] == list@[i as int]);
        assert(list@.skip(i as int).drop_first() =~= list@.skip(i + 1));
        if remaining < w {
            return Some((c.mv, loss, allowed));
        }
        remaining = remaining - w;
        i = i + 1;
    }
    Some((best.mv, 0, allowed))
}

/// `Rng::random_range` of the `rand` crate over `0..bound`, with the
/// thread-local generator `rand::rng()`: a number below `bound`, picked at
/// random.
#[verifier::external_body]
fn random_below(bound: u64) -> (r: u64)
    requires
        bound > 0,
    ensures
        r < bound,
{
    rand::rng().random_range(0..bound)
}

/// A humanized choice among scored candidates (best first): a random pick
/// weighted toward small losses among those within `allowed` centipawns of
/// the best.
pub fn choose_humanized_move(candidates: &[ScoredMove], allowed: i32) -> (r: Option<(u64, i32, i32)>)
    requires
        choice_fits(candidates@, allowed),
    ensures
        candidates@.len() < 3 ==> r is None,
        candidates@.len() >= 3 ==> exists|pick: int| 0 <= pick && r == humanized_choice(candidates@, allowed, pick)
            && pick < total_weight(within_loss(candidates@, candidates@[0], allowed), allowed) + 1,
{
    if candidates.len() < 3 {
        return None;
    }
    let (_, total) = allowed_candidates(candidates, allowed);
    let pick: u64 = if total == 0 { 0 } else { random_below(total) };
    let r = select_with_pick(candidates, allowed, pick);
    assert(r == humanized_choice(candidates@, allowed, pick as int));
    r
}

} // verus!
