//! Check inspection on the square-vector layer: finding the pieces that
//! check the side to move and, given the piece that moved last,
//! classifying the check as single, discovered, double or mate.

use vstd::prelude::*;
use crate::board_location::BoardLocation;
use crate::chess_errors::ChessErrors;
use crate::chess_types::{Color, PieceKind};
use crate::collision_masks::{CollisionMasks, masks_of};
use crate::apply_move_to_game::{
    apply_move_to_game_filtering_no_friendly_check, filtered_applied, lemma_single_at,
};
use crate::game_state::{GameState, GameStateView};
use crate::generate_movements::{
    knight_delta, king_delta, bishop_delta, rook_delta, generate_king_movement,
    generate_knight_movement, generate_bishop_movement, generate_rook_movement,
};
use crate::generate_moves_level_1::{bucket, lemma_slide_defined};
use crate::generate_moves_level_2::opponent;
use crate::generate_moves_level_3::{GenerateLevel3Result, piece_targets};
use crate::generate_moves_level_4::{generate_moves_level_4, level4_moves, lemma_level4_located, all_moves_located};
use crate::apply_move_to_game::move_locations_ok;
use crate::move_description::MoveDescription;
use crate::piece_record::{PieceRecord, record_at, single_square, team_of, view_piece_at_location};
use crate::piece_team::PieceTeam;
use crate::special_move_flags::{SpecialMoveFlags, flags_of};
use crate::types_of_check::TypesOfCheck;

verus! {

broadcast use vstd::std_specs::bits::axiom_u64_leading_zeros;

/// The location of file-major square `t`.
pub open spec fn location_of(t: int) -> BoardLocation {
    BoardLocation { binary_location: 1u64 << (t as u64) }
}

/// The pieces of `team` on the file-major squares below `n`, in square
/// order.
pub open spec fn team_pieces(g: GameStateView, team: PieceTeam, n: int) -> Seq<PieceRecord>
    decreases n,
{
    if n <= 0 {
        Seq::empty()
    } else {
        let rest = team_pieces(g, team, n - 1);
        match record_at(g, location_of(n - 1)) {
            Some(p) => if p.team == team {
                rest.push(p)
            } else {
                rest
            },
            None => rest,
        }
    }
}

/// The first king among `pieces`.
pub open spec fn first_king(pieces: Seq<PieceRecord>) -> Option<PieceRecord>
    decreases pieces.len(),
{
    if pieces.len() == 0 {
        None
    } else if pieces[0].class == PieceKind::King {
        Some(pieces[0])
    } else {
        first_king(pieces.drop_first())
    }
}

/// The squares of a successful step, as a mask.
pub open spec fn bits_of(r: Result<BoardLocation, ChessErrors>) -> u64 {
    match r {
        Ok(p) => p.binary_location,
        Err(_) => 0,
    }
}

/// The king's square with its king steps and knight jumps in directions
/// below `n`.
pub open spec fn leaper_threats(loc: BoardLocation, n: int) -> u64
    decreases n,
{
    if n <= 0 {
        loc.binary_location
    } else {
        let d = (n - 1) as u8;
        leaper_threats(loc, n - 1) | bits_of(loc.checked_move(king_delta(d).0 as i8, king_delta(d).1 as i8))
            | bits_of(loc.checked_move(knight_delta(d).0 as i8, knight_delta(d).1 as i8))
    }
}

/// `base` with the bishop and rook steps of the first `n` (direction,
/// distance) pairs, distance 0..8 within each direction.
pub open spec fn slider_threats(loc: BoardLocation, base: u64, n: int) -> u64
    decreases n,
{
    if n <= 0 {
        base
    } else {
        let j = ((n - 1) / 8) as u8;
        let i = ((n - 1) % 8) as u8;
        slider_threats(loc, base, n - 1) | bits_of(loc.checked_move(
            (bishop_delta(j).0 * (i as i8)) as i8,
            (bishop_delta(j).1 * (i as i8)) as i8,
        )) | bits_of(loc.checked_move((rook_delta(j).0 * (i as i8)) as i8, (rook_delta(j).1 * (i as i8)) as i8))
    }
}

/// The squares from which a piece could attack a king on `loc`.
pub open spec fn threat_mask(loc: BoardLocation) -> u64 {
    slider_threats(loc, leaper_threats(loc, 8), 32)
}

/// The pieces standing on the mask, in order.
pub open spec fn on_mask(pieces: Seq<PieceRecord>, mask: u64) -> Seq<PieceRecord>
    decreases pieces.len(),
{
    if pieces.len() == 0 {
        Seq::empty()
    } else {
        let rest = on_mask(pieces.drop_last(), mask);
        if pieces.last().location.binary_location & mask > 0 {
            rest.push(pieces.last())
        } else {
            rest
        }
    }
}

/// The number of targets hitting the mask.
pub open spec fn hit_count(caps: Seq<BoardLocation>, mask: u64) -> nat
    decreases caps.len(),
{
    if caps.len() == 0 {
        0
    } else {
        hit_count(caps.drop_last(), mask) + if caps.last().binary_location & mask > 0 { 1nat } else { 0nat }
    }
}

/// `p`, `n` times.
pub open spec fn repeated(p: PieceRecord, n: nat) -> Seq<PieceRecord> {
    Seq::new(n, |i: int| p)
}

/// The squares a piece captures onto.
pub open spec fn captures_of(p: PieceRecord, masks: CollisionMasks) -> Seq<BoardLocation> {
    bucket(piece_targets(p, masks), masks, Some(opponent(p.team)))
}

/// The checking pieces: each piece once per capture target on the king's
/// square, in order.
pub open spec fn checkers(pieces: Seq<PieceRecord>, masks: CollisionMasks, king_mask: u64) -> Seq<PieceRecord>
    decreases pieces.len(),
{
    if pieces.len() == 0 {
        Seq::empty()
    } else {
        checkers(pieces.drop_last(), masks, king_mask) + repeated(
            pieces.last(),
            hit_count(captures_of(pieces.last(), masks), king_mask),
        )
    }
}

/// Whether move `m` is allowed (its application does not leave the mover
/// in check), or the error met applying it.
#[verifier::opaque]
pub open spec fn move_escapes(g: GameStateView, m: MoveDescription) -> Result<bool, ChessErrors> {
    match filtered_applied(g, m) {
        Err(e) => Err(e),
        Ok(Some(_)) => Ok(true),
        Ok(None) => Ok(false),
    }
}

/// Whether piece `p` has an allowed move, or the first error met.
#[verifier::opaque]
pub open spec fn piece_reply(g: GameStateView, masks: CollisionMasks, flags: SpecialMoveFlags, p: PieceRecord) -> Result<bool, ChessErrors> {
    match level4_moves(p, masks, flags, g) {
        Err(e) => Err(e),
        Ok(ms) => reply_among(g, ms),
    }
}

/// Whether some move of `ms`, tried in order, is allowed (first error
/// wins).
pub open spec fn reply_among(g: GameStateView, ms: Seq<MoveDescription>) -> Result<bool, ChessErrors>
    decreases ms.len(),
{
    if ms.len() == 0 {
        Ok(false)
    } else {
        match reply_among(g, ms.drop_last()) {
            Err(e) => Err(e),
            Ok(true) => Ok(true),
            Ok(false) => move_escapes(g, ms.last()),
        }
    }
}

/// Whether some piece of `pieces`, tried in order, has an allowed move
/// (first error wins).
pub open spec fn reply_found(g: GameStateView, masks: CollisionMasks, flags: SpecialMoveFlags, pieces: Seq<PieceRecord>) -> Result<bool, ChessErrors>
    decreases pieces.len(),
{
    if pieces.len() == 0 {
        Ok(false)
    } else {
        match reply_found(g, masks, flags, pieces.drop_last()) {
            Err(e) => Err(e),
            Ok(true) => Ok(true),
            Ok(false) => piece_reply(g, masks, flags, pieces.last()),
        }
    }
}

/// The error reported when more than two pieces give check.
pub open spec fn too_many_checkers(e: ChessErrors) -> bool {
    e matches ChessErrors::ErrorDuringCheckInspection(s)
        && s@ == "More than two checking pieces found when classifying check type"@
}

/// The outcome of inspecting a position.
pub enum Inspection {
    /// The result.
    Done(Result<Option<TypesOfCheck>, ChessErrors>),
    /// More than two checking pieces while classifying.
    TooManyCheckers,
}

/// Check inspection of a position for its side to move: an error without
/// a king; no check without checking pieces; otherwise, without the last
/// moved piece, an unclassified check; with it, mate when no piece of the
/// side to move has an allowed move, else a single check (the checker is
/// the piece that moved), a discovered check (another checker) or a
/// double check.
pub open spec fn inspection(g: GameStateView, last: Option<PieceRecord>) -> Inspection {
    let team = team_of(g.side_to_move);
    match first_king(team_pieces(g, team, 64)) {
        None => Inspection::Done(Err(ChessErrors::PieceRegisterDoesNotContainAKing)),
        Some(king) => {
            let masks = masks_of(g);
            let threats = on_mask(team_pieces(g, opponent(team), 64), threat_mask(king.location));
            let checking = checkers(threats, masks, king.location.binary_location);
            if checking.len() == 0 {
                Inspection::Done(Ok(None))
            } else {
                match last {
                    None => Inspection::Done(Ok(Some(TypesOfCheck::UnclassifiedCheck(checking[0], king)))),
                    Some(lm) => match reply_found(g, masks, flags_of(g), team_pieces(g, team, 64)) {
                        Err(e) => Inspection::Done(Err(e)),
                        Ok(false) => Inspection::Done(Ok(Some(TypesOfCheck::Checkmate(king, checking[0])))),
                        Ok(true) => if checking.len() == 1 {
                            if checking[0].location.binary_location == lm.location.binary_location {
                                Inspection::Done(Ok(Some(TypesOfCheck::SingleCheck(king, checking[0]))))
                            } else {
                                Inspection::Done(Ok(Some(TypesOfCheck::DiscoveryCheck(king, checking[0]))))
                            }
                        } else if checking.len() == 2 {
                            Inspection::Done(Ok(Some(TypesOfCheck::DoubleCheck(king, checking[0], checking[1]))))
                        } else {
                            Inspection::TooManyCheckers
                        },
                    },
                }
            }
        },
    }
}

/// The pieces of `team`, in square order.
pub fn pieces_of_team(game: &GameState, team: PieceTeam) -> (r: Vec<PieceRecord>)
    ensures
        r@ == team_pieces(game@, team, 64),
        forall|i: int| 0 <= i < r@.len() ==> single_square(#[trigger] r@[i].location),
{
    let mut out: Vec<PieceRecord> = Vec::new();
    let mut t: u64 = 0;
    while t < 64
        invariant
            t <= 64,
            out@ == team_pieces(game@, team, t as int),
            forall|i: int| 0 <= i < out@.len() ==> single_square(#[trigger] out@[i].location),
        decreases 64 - t,
    {
        let loc = BoardLocation { binary_location: 1u64 << t };
        assert(loc == location_of(t as int));
        if let Ok(p) = view_piece_at_location(game, loc) {
            if p.team == team {
                out.push(p);
            }
        }
        t = t + 1;
    }
    out
}

/// The first king of `team`.
pub(crate) fn view_king(game: &GameState, team: PieceTeam) -> (r: Result<PieceRecord, ChessErrors>)
    ensures
        match first_king(team_pieces(game@, team, 64)) {
            Some(k) => r == Ok::<PieceRecord, ChessErrors>(k),
            None => r == Err::<PieceRecord, ChessErrors>(ChessErrors::PieceRegisterDoesNotContainAKing),
        },
        r matches Ok(k) ==> single_square(k.location) && k.team == team,
{
    let pieces = pieces_of_team(game, team);
    let mut i: usize = 0;
    assert(pieces@.skip(0) =~= pieces@);
    while i < pieces.len()
        invariant
            i <= pieces@.len(),
            pieces@ == team_pieces(game@, team, 64),
            forall|j: int| 0 <= j < pieces@.len() ==> single_square(#[trigger] pieces@[j].location),
            first_king(pieces@) == first_king(pieces@.skip(i as int)),
        decreases pieces@.len() - i,
    {
        assert(pieces@.skip(i as int)[0] == pieces@[i as int]);
        if matches!(pieces[i].class, PieceKind::King) {
            proof {
                lemma_team_pieces_team(game@, team, 64, i as int);
            }
            return Ok(pieces[i]);
        }
        assert(pieces@.skip(i as int).drop_first() =~= pieces@.skip(i + 1));
        i = i + 1;
    }
    Err(ChessErrors::PieceRegisterDoesNotContainAKing)
}

/// Every listed piece is of the listed team.
proof fn lemma_team_pieces_team(g: GameStateView, team: PieceTeam, n: int, i: int)
    requires
        0 <= i < team_pieces(g, team, n).len(),
    ensures
        team_pieces(g, team, n)[i].team == team,
    decreases n,
{
    if n > 0 {
        let rest = team_pieces(g, team, n - 1);
        if i < rest.len() {
            lemma_team_pieces_team(g, team, n - 1, i);
        }
    }
}

/// The enemy pieces on the squares from which the king could be
/// attacked.
fn find_threatening_pieces(game: &GameState, king: &PieceRecord) -> (r: Result<Vec<PieceRecord>, ChessErrors>)
    requires
        single_square(king.location),
    ensures
        r is Ok,
        r.unwrap()@ == on_mask(team_pieces(game@, opponent(king.team), 64), threat_mask(king.location)),
        forall|i: int| 0 <= i < r.unwrap()@.len() ==> single_square(#[trigger] r.unwrap()@[i].location),
{
    let loc = king.location;
    let mut threat_mask_bits: u64 = loc.binary_location;
    let mut i: u8 = 0;
    while i < 8
        invariant
            i <= 8,
            single_square(loc),
            threat_mask_bits == leaper_threats(loc, i as int),
        decreases 8 - i,
    {
        let king_step = generate_king_movement(loc, i);
        let knight_jump = generate_knight_movement(loc, i);
        let king_bits: u64 = match king_step {
            Ok(position) => position.binary_location,
            Err(_) => 0,
        };
        let knight_bits: u64 = match knight_jump {
            Ok(position) => position.binary_location,
            Err(_) => 0,
        };
        assert(king_bits == bits_of(king_step) && knight_bits == bits_of(knight_jump));
        threat_mask_bits = threat_mask_bits | king_bits | knight_bits;
        i = i + 1;
        assert(((i as int) - 1) as u8 == (i - 1) as u8);
    }
    let mut j: u8 = 0;
    let ghost base = leaper_threats(loc, 8);
    while j < 4
        invariant
            j <= 4,
            single_square(loc),
            threat_mask_bits == slider_threats(loc, base, 8 * j as int),
        decreases 4 - j,
    {
        let mut k: u8 = 0;
        while k < 8
            invariant
                j < 4,
                k <= 8,
                single_square(loc),
                threat_mask_bits == slider_threats(loc, base, 8 * j + k as int),
            decreases 8 - k,
        {
            proof {
                lemma_slide_defined(loc, false, j, k);
                lemma_slide_defined(loc, true, j, k);
                assert((8 * j + k) / 8 == j as int);
                assert((8 * j + k) % 8 == k as int);
            }
            let diagonal = generate_bishop_movement(loc, j, k);
            let straight = generate_rook_movement(loc, j, k);
            let diagonal_bits: u64 = match diagonal {
                Ok(position) => position.binary_location,
                Err(_) => 0,
            };
            let straight_bits: u64 = match straight {
                Ok(position) => position.binary_location,
                Err(_) => 0,
            };
            assert(diagonal_bits == bits_of(diagonal) && straight_bits == bits_of(straight));
            threat_mask_bits = threat_mask_bits | diagonal_bits | straight_bits;
            k = k + 1;
        }
        j = j + 1;
    }
    let enemy_team = match king.team {
        PieceTeam::Light => PieceTeam::Dark,
        PieceTeam::Dark => PieceTeam::Light,
    };
    let enemy_pieces = pieces_of_team(game, enemy_team);
    let mut threatening_pieces: Vec<PieceRecord> = Vec::new();
    let mut n: usize = 0;
    assert(enemy_pieces@.take(0) =~= Seq::<PieceRecord>::empty());
    while n < enemy_pieces.len()
        invariant
            n <= enemy_pieces@.len(),
            forall|q: int| 0 <= q < enemy_pieces@.len() ==> single_square(#[trigger] enemy_pieces@[q].location),
            threatening_pieces@ == on_mask(enemy_pieces@.take(n as int), threat_mask_bits),
            forall|q: int| 0 <= q < threatening_pieces@.len() ==> single_square(#[trigger] threatening_pieces@[q].location),
        decreases enemy_pieces@.len() - n,
    {
        let p = enemy_pieces[n];
        assert(enemy_pieces@.take(n + 1).drop_last() =~= enemy_pieces@.take(n as int));
        assert(enemy_pieces@.take(n + 1).last() == p);
        if p.location.binary_location & threat_mask_bits > 0 {
            threatening_pieces.push(p);
        }
        n = n + 1;
    }
    assert(enemy_pieces@.take(enemy_pieces@.len() as int) =~= enemy_pieces@);
    Ok(threatening_pieces)
}

/// Split the threatening pieces into checking and pinning pieces: a piece
/// is listed as checking once per capture target on the king's square,
/// and as pinning once per other capture target.
fn sort_threats_to_pins_or_checks(collision_masks: &CollisionMasks, king: &PieceRecord, threatening_pieces: &Vec<PieceRecord>) -> (r: Result<(Vec<PieceRecord>, Vec<PieceRecord>), ChessErrors>)
    requires
        forall|i: int| 0 <= i < threatening_pieces@.len() ==> single_square(#[trigger] threatening_pieces@[i].location),
    ensures
        r is Ok,
        r.unwrap().0@ == checkers(threatening_pieces@, *collision_masks, king.location.binary_location),
{
    let mut checking_pieces: Vec<PieceRecord> = Vec::new();
    let mut pinning_pieces: Vec<PieceRecord> = Vec::new();
    let friendly_king_mask = king.location.binary_location;
    let mut n: usize = 0;
    assert(threatening_pieces@.take(0) =~= Seq::<PieceRecord>::empty());
    while n < threatening_pieces.len()
        invariant
            n <= threatening_pieces@.len(),
            friendly_king_mask == king.location.binary_location,
            forall|i: int| 0 <= i < threatening_pieces@.len() ==> single_square(#[trigger] threatening_pieces@[i].location),
            checking_pieces@ == checkers(threatening_pieces@.take(n as int), *collision_masks, friendly_king_mask),
        decreases threatening_pieces@.len() - n,
    {
        let p = threatening_pieces[n];
        assert(single_square(threatening_pieces@[n as int].location));
        let generated_moves_level_3 = GenerateLevel3Result::from(&p, collision_masks)?;
        let captures = generated_moves_level_3.captures;
        let ghost before = checking_pieces@;
        let mut k: usize = 0;
        assert(captures@.take(0) =~= Seq::<BoardLocation>::empty());
        assert(before + repeated(p, 0) =~= before);
        while k < captures.len()
            invariant
                k <= captures@.len(),
                checking_pieces@ == before + repeated(p, hit_count(captures@.take(k as int), friendly_king_mask)),
            decreases captures@.len() - k,
        {
            let c = captures[k];
            assert(captures@.take(k + 1).drop_last() =~= captures@.take(k as int));
            assert(captures@.take(k + 1).last() == c);
            let ghost count = hit_count(captures@.take(k as int), friendly_king_mask);
            if c.binary_location & friendly_king_mask > 0 {
                checking_pieces.push(p);
                assert(repeated(p, count).push(p) =~= repeated(p, count + 1));
                assert((before + repeated(p, count)).push(p) =~= before + repeated(p, count + 1));
            } else {
                pinning_pieces.push(p);
            }
            k = k + 1;
        }
        assert(captures@.take(captures@.len() as int) =~= captures@);
        assert(threatening_pieces@.take(n + 1).drop_last() =~= threatening_pieces@.take(n as int));
        assert(threatening_pieces@.take(n + 1).last() == p);
        n = n + 1;
    }
    assert(threatening_pieces@.take(threatening_pieces@.len() as int) =~= threatening_pieces@);
    Ok((checking_pieces, pinning_pieces))
}

/// Once a prefix of the moves decides (an allowed move, or an error), the
/// whole list decides the same way.
proof fn lemma_reply_among_sticks(g: GameStateView, ms: Seq<MoveDescription>, j: int)
    requires
        0 <= j <= ms.len(),
        reply_among(g, ms.take(j)) != Ok::<bool, ChessErrors>(false),
    ensures
        reply_among(g, ms) == reply_among(g, ms.take(j)),
    decreases ms.len() - j,
{
    if j < ms.len() {
        assert(ms.take(j + 1).drop_last() =~= ms.take(j));
        lemma_reply_among_sticks(g, ms, j + 1);
    } else {
        assert(ms.take(j) =~= ms);
    }
}

/// Once a prefix of the pieces decides, the whole list decides the same
/// way.
proof fn lemma_reply_found_sticks(
    g: GameStateView,
    masks: CollisionMasks,
    flags: SpecialMoveFlags,
    pieces: Seq<PieceRecord>,
    j: int,
)
    requires
        0 <= j <= pieces.len(),
        reply_found(g, masks, flags, pieces.take(j)) != Ok::<bool, ChessErrors>(false),
    ensures
        reply_found(g, masks, flags, pieces) == reply_found(g, masks, flags, pieces.take(j)),
    decreases pieces.len() - j,
{
    if j < pieces.len() {
        assert(pieces.take(j + 1).drop_last() =~= pieces.take(j));
        lemma_reply_found_sticks(g, masks, flags, pieces, j + 1);
    } else {
        assert(pieces.take(j) =~= pieces);
    }
}

/// The side to move as a team.
pub(crate) fn team_to_move(game: &GameState) -> (r: PieceTeam)
    ensures
        r == team_of(game.side_to_move),
{
    match game.side_to_move {
        Color::Light => PieceTeam::Light,
        Color::Dark => PieceTeam::Dark,
    }
}

/// Whether `chess_move` can be played without leaving the mover in check.
fn move_allowed(game: &GameState, chess_move: &MoveDescription) -> (r: Result<bool, ChessErrors>)
    requires
        move_locations_ok(*chess_move),
        game.halfmove_clock < u16::MAX,
        game.fullmove_number < u16::MAX,
    ensures
        r == move_escapes(game@, *chess_move),
{
    proof {
        reveal(move_escapes);
    }
    match apply_move_to_game_filtering_no_friendly_check(chess_move, game) {
        Err(e) => Err(e),
        Ok(Some(_)) => Ok(true),
        Ok(None) => Ok(false),
    }
}

/// Whether `piece` has a move that does not leave its king in check; the
/// first error met is returned.
fn piece_has_reply(game: &GameState, masks: &CollisionMasks, special_flags: &SpecialMoveFlags, piece: &PieceRecord) -> (r: Result<bool, ChessErrors>)
    requires
        single_square(piece.location),
        special_flags.en_passant_location matches Some(e) ==> single_square(e),
        game.halfmove_clock < u16::MAX,
        game.fullmove_number < u16::MAX,
    ensures
        r == piece_reply(game@, *masks, *special_flags, *piece),
{
    proof {
        reveal(piece_reply);
        lemma_level4_located(*piece, *masks, *special_flags, game@);
    }
    let moves = generate_moves_level_4(piece, masks, special_flags, game)?;
    some_move_allowed(game, &moves)
}

/// Whether some move of `moves`, tried in order, does not leave the
/// mover's king in check; the first error met is returned.
fn some_move_allowed(game: &GameState, moves: &Vec<MoveDescription>) -> (r: Result<bool, ChessErrors>)
    requires
        all_moves_located(moves@),
        game.halfmove_clock < u16::MAX,
        game.fullmove_number < u16::MAX,
    ensures
        r == reply_among(game@, moves@),
{
    let ghost g = game@;
    let ghost ms = moves@;
    let mut k: usize = 0;
    assert(ms.take(0) =~= Seq::<MoveDescription>::empty());
    while k < moves.len()
        invariant
            k <= ms.len(),
            ms == moves@,
            all_moves_located(ms),
            g == game@,
            game.halfmove_clock < u16::MAX,
            game.fullmove_number < u16::MAX,
            reply_among(g, ms.take(k as int)) == Ok::<bool, ChessErrors>(false),
        decreases ms.len() - k,
    {
        let move_to_try = &moves[k];
        assert(move_locations_ok(ms[k as int]));
        proof {
            lemma_reply_among_step(g, ms, k as int);
        }
        let outcome = move_allowed(game, move_to_try);
        match outcome {
            Err(e) => {
                proof {
                    lemma_reply_among_sticks(g, ms, k + 1);
                }
                return Err(e);
            },
            Ok(true) => {
                proof {
                    lemma_reply_among_sticks(g, ms, k + 1);
                }
                return Ok(true);
            },
            Ok(false) => {},
        }
        k = k + 1;
    }
    assert(ms.take(ms.len() as int) =~= ms);
    Ok(false)
}

/// One more move after an undecided prefix.
proof fn lemma_reply_among_step(g: GameStateView, ms: Seq<MoveDescription>, k: int)
    requires
        0 <= k < ms.len(),
        reply_among(g, ms.take(k)) == Ok::<bool, ChessErrors>(false),
    ensures
        reply_among(g, ms.take(k + 1)) == move_escapes(g, ms[k]),
{
    assert(ms.take(k + 1).drop_last() =~= ms.take(k));
    assert(ms.take(k + 1).last() == ms[k]);
}

/// One more piece after an undecided prefix.
proof fn lemma_reply_found_step(
    g: GameStateView,
    masks: CollisionMasks,
    flags: SpecialMoveFlags,
    pieces: Seq<PieceRecord>,
    n: int,
)
    requires
        0 <= n < pieces.len(),
        reply_found(g, masks, flags, pieces.take(n)) == Ok::<bool, ChessErrors>(false),
    ensures
        reply_found(g, masks, flags, pieces.take(n + 1)) == piece_reply(g, masks, flags, pieces[n]),
{
    assert(pieces.take(n + 1).drop_last() =~= pieces.take(n));
    assert(pieces.take(n + 1).last() == pieces[n]);
}

/// Whether some piece of the side to move has a move that does not leave
/// its king in check; the first error met is returned.
fn any_reply(game: &GameState, masks: &CollisionMasks, team: PieceTeam) -> (r: Result<bool, ChessErrors>)
    requires
        game.en_passant_square matches Some(e) ==> e < 64,
        game.halfmove_clock < u16::MAX,
        game.fullmove_number < u16::MAX,
    ensures
        r == reply_found(game@, *masks, flags_of(game@), team_pieces(game@, team, 64)),
{
    let ghost g = game@;
    let special_flags = SpecialMoveFlags::from(game);
    assert(special_flags == flags_of(g));
    proof {
        if let Some(e) = g.en_passant_square {
            lemma_single_at((e % 8) as int, (e / 8) as int);
        }
    }
    let friendly_pieces = pieces_of_team(game, team);
    let ghost pieces = friendly_pieces@;
    let mut n: usize = 0;
    assert(pieces.take(0) =~= Seq::<PieceRecord>::empty());
    while n < friendly_pieces.len()
        invariant
            n <= pieces.len(),
            pieces == friendly_pieces@,
            pieces == team_pieces(g, team, 64),
            g == game@,
            game.halfmove_clock < u16::MAX,
            game.fullmove_number < u16::MAX,
            special_flags == flags_of(g),
            special_flags.en_passant_location matches Some(e) ==> single_square(e),
            forall|i: int| 0 <= i < pieces.len() ==> single_square(#[trigger] pieces[i].location),
            reply_found(g, *masks, special_flags, pieces.take(n as int)) == Ok::<bool, ChessErrors>(false),
        decreases pieces.len() - n,
    {
        let p = friendly_pieces[n];
        assert(single_square(pieces[n as int].location));
        proof {
            lemma_reply_found_step(g, *masks, special_flags, pieces, n as int);
        }
        let found = piece_has_reply(game, masks, &special_flags, &p);
        match found {
            Err(e) => {
                proof {
                    lemma_reply_found_sticks(g, *masks, special_flags, pieces, n + 1);
                }
                return Err(e);
            },
            Ok(true) => {
                proof {
                    lemma_reply_found_sticks(g, *masks, special_flags, pieces, n + 1);
                }
                return Ok(true);
            },
            Ok(false) => {},
        }
        n = n + 1;
    }
    assert(pieces.take(pieces.len() as int) =~= pieces);
    Ok(false)
}

/// Inspect the position for a check on the side to move. Without the last
/// moved piece, a check is reported unclassified (checker, king); with it,
/// the check is classified as single, discovered, double or mate.
pub fn inspect_check(game: &GameState, last_piece_moved_option: Option<PieceRecord>) -> (r: Result<
    Option<TypesOfCheck>,
    ChessErrors,
>)
    requires
        game.en_passant_square matches Some(e) ==> e < 64,
        game.halfmove_clock < u16::MAX,
        game.fullmove_number < u16::MAX,
    ensures
        match inspection(game@, last_piece_moved_option) {
            Inspection::Done(x) => r == x,
            Inspection::TooManyCheckers => r matches Err(e) && too_many_checkers(e),
        },
{
    let turn = team_to_move(game);
    let king = view_king(game, turn)?;
    let threatening_pieces = find_threatening_pieces(game, &king)?;
    let collision_masks = CollisionMasks::from(game);
    let (checking_pieces, _pinning_pieces) = sort_threats_to_pins_or_checks(
        &collision_masks,
        &king,
        &threatening_pieces,
    )?;
    if checking_pieces.len() == 0 {
        return Ok(None);
    }
    match last_piece_moved_option {
        Some(last_moved) => {
            if any_reply(game, &collision_masks, turn)? {
                if checking_pieces.len() == 1 {
                    if checking_pieces[0].location.binary_location == last_moved.location.binary_location {
                        Ok(Some(TypesOfCheck::SingleCheck(king, checking_pieces[0])))
                    } else {
                        Ok(Some(TypesOfCheck::DiscoveryCheck(king, checking_pieces[0])))
                    }
                } else if checking_pieces.len() == 2 {
                    Ok(Some(TypesOfCheck::DoubleCheck(king, checking_pieces[0], checking_pieces[1])))
                } else {
                    Err(
                        ChessErrors::ErrorDuringCheckInspection(
                            String::from_str("More than two checking pieces found when classifying check type"),
                        ),
                    )
                }
            } else {
                Ok(Some(TypesOfCheck::Checkmate(king, checking_pieces[0])))
            }
        },
        None => Ok(Some(TypesOfCheck::UnclassifiedCheck(checking_pieces[0], king))),
    }
}

} // verus!
