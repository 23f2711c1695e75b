//! Laws relating the two check detectors: the classifying inspection finds
//! a check on exactly the positions where an enemy piece captures onto the
//! king of the side to move.

use vstd::prelude::*;
use crate::bits::{bit, lemma_bit_ops, lemma_square_mask, lemma_zero_iff_empty};
use crate::board_location::{BoardLocation, top_bit, lemma_location_name_roundtrip, lemma_top_bit_single};
use crate::chess_errors::ChessErrors;
use crate::generate_movements::{bishop_delta, forward, king_delta, knight_delta, rook_delta};
use crate::generate_moves_level_1::{
    bishop_targets, bucket, king_targets, knight_targets, leap, pawn_capture, pawn_pushes,
    pawn_targets, queen_targets, ray_from, rook_targets,
};
use crate::inspect_check::{
    bits_of, captures_of, checkers, first_king, hit_count, inspection, leaper_threats, on_mask, slider_threats,
    team_pieces, threat_mask, Inspection,
};
use crate::collision_masks::masks_of;
use crate::game_state::GameStateView;
use crate::generate_moves_level_2::opponent;
use crate::inspect_if_king_is_under_check::king_attacked;
use crate::piece_record::{PieceRecord, team_of};
use crate::piece_team::PieceTeam;
use crate::types_of_check::TypesOfCheck;
use crate::piece_record::single_square;

verus! {

broadcast use vstd::std_specs::bits::axiom_u64_leading_zeros;

/// A single-square location is the location at its file and rank.
proof fn lemma_single_is_at(loc: BoardLocation)
    requires
        single_square(loc),
    ensures
        0 <= loc.file_of() < 8,
        0 <= loc.rank_of() < 8,
        loc == BoardLocation::at(loc.file_of(), loc.rank_of()),
        bit(loc.binary_location, top_bit(loc.binary_location) as u64),
        top_bit(loc.binary_location) < 64,
{
    let t = top_bit(loc.binary_location);
    assert(0 <= t < 64);
    assert(8 * (t / 8) + t % 8 == t);
    lemma_square_mask(t as u64, t as u64);
}

/// A successful step can be undone by the opposite step.
proof fn lemma_step_back(p: BoardLocation, a: int, b: int, k: BoardLocation)
    requires
        single_square(p),
        -8 <= a <= 8,
        -8 <= b <= 8,
        p.checked_move(a as i8, b as i8) == Ok::<BoardLocation, ChessErrors>(k),
    ensures
        single_square(k),
        k.checked_move((-a) as i8, (-b) as i8) == Ok::<BoardLocation, ChessErrors>(p),
{
    lemma_single_is_at(p);
    let f = p.file_of() + a;
    let r = p.rank_of() + b;
    lemma_location_name_roundtrip(f, r);
    lemma_top_bit_single((8 * f + r) as u64);
}

/// Two single squares that share a bit are the same square.
proof fn lemma_shared_square(x: BoardLocation, y: BoardLocation)
    requires
        single_square(x),
        single_square(y),
        x.binary_location & y.binary_location != 0,
    ensures
        x == y,
{
    lemma_single_is_at(x);
    lemma_single_is_at(y);
    let s = top_bit(x.binary_location) as u64;
    let t = top_bit(y.binary_location) as u64;
    lemma_zero_iff_empty(x.binary_location & y.binary_location);
    let u = choose|u: u64| u < 64 && bit(x.binary_location & y.binary_location, u);
    lemma_bit_ops(x.binary_location, y.binary_location, u);
    lemma_square_mask(s, u);
    lemma_square_mask(t, u);
}

/// A single square whose bit is in a mask meets the mask.
proof fn lemma_meets(q: BoardLocation, m: u64)
    requires
        single_square(q),
        bit(m, top_bit(q.binary_location) as u64),
    ensures
        q.binary_location & m != 0,
{
    lemma_single_is_at(q);
    let t = top_bit(q.binary_location) as u64;
    lemma_bit_ops(q.binary_location, m, t);
    lemma_zero_iff_empty(q.binary_location & m);
}

/// A leaper term of direction `d` is in the leaper threats of every count
/// above `d`.
proof fn lemma_leaper_has(k: BoardLocation, n: int, d: int, t: u64)
    requires
        0 <= d < n,
        t < 64,
        bit(bits_of(k.checked_move(king_delta(d as u8).0 as i8, king_delta(d as u8).1 as i8)), t) || bit(
            bits_of(k.checked_move(knight_delta(d as u8).0 as i8, knight_delta(d as u8).1 as i8)),
            t,
        ),
    ensures
        bit(leaper_threats(k, n), t),
    decreases n,
{
    let dd = (n - 1) as u8;
    let a = leaper_threats(k, n - 1);
    let b = bits_of(k.checked_move(king_delta(dd).0 as i8, king_delta(dd).1 as i8));
    let c = bits_of(k.checked_move(knight_delta(dd).0 as i8, knight_delta(dd).1 as i8));
    lemma_bit_ops(a, b, t);
    lemma_bit_ops(a | b, c, t);
    if n - 1 > d {
        lemma_leaper_has(k, n - 1, d, t);
    }
}

/// The base and the slider term of (direction `j`, distance `i`) are in
/// the slider threats of every count above `8j + i`.
proof fn lemma_slider_has(k: BoardLocation, base: u64, n: int, j: int, i: int, t: u64)
    requires
        0 <= j < 4,
        0 <= i < 8,
        8 * j + i < n,
        t < 64,
        bit(bits_of(k.checked_move((bishop_delta(j as u8).0 * (i as i8)) as i8, (bishop_delta(j as u8).1 * (i as i8)) as i8)), t)
            || bit(bits_of(k.checked_move((rook_delta(j as u8).0 * (i as i8)) as i8, (rook_delta(j as u8).1 * (i as i8)) as i8)), t),
    ensures
        bit(slider_threats(k, base, n), t),
    decreases n,
{
    let jj = ((n - 1) / 8) as u8;
    let ii = ((n - 1) % 8) as u8;
    let a = slider_threats(k, base, n - 1);
    let b = bits_of(k.checked_move((bishop_delta(jj).0 * (ii as i8)) as i8, (bishop_delta(jj).1 * (ii as i8)) as i8));
    let c = bits_of(k.checked_move((rook_delta(jj).0 * (ii as i8)) as i8, (rook_delta(jj).1 * (ii as i8)) as i8));
    lemma_bit_ops(a, b, t);
    lemma_bit_ops(a | b, c, t);
    if n - 1 > 8 * j + i {
        lemma_slider_has(k, base, n - 1, j, i, t);
    } else {
        assert(jj == j && ii == i);
    }
}

/// The base is in the slider threats of every count.
proof fn lemma_slider_keeps_base(k: BoardLocation, base: u64, n: int, t: u64)
    requires
        t < 64,
        bit(base, t),
    ensures
        bit(slider_threats(k, base, n), t),
    decreases n,
{
    if n > 0 {
        let jj = ((n - 1) / 8) as u8;
        let ii = ((n - 1) % 8) as u8;
        let a = slider_threats(k, base, n - 1);
        let b = bits_of(k.checked_move((bishop_delta(jj).0 * (ii as i8)) as i8, (bishop_delta(jj).1 * (ii as i8)) as i8));
        let c = bits_of(k.checked_move((rook_delta(jj).0 * (ii as i8)) as i8, (rook_delta(jj).1 * (ii as i8)) as i8));
        lemma_bit_ops(a, b, t);
        lemma_bit_ops(a | b, c, t);
        lemma_slider_keeps_base(k, base, n - 1, t);
    }
}

/// A square one king step or one knight jump from the king is on its
/// threat mask.
proof fn lemma_leaper_threat(k: BoardLocation, d: int, p: BoardLocation, knight: bool)
    requires
        0 <= d < 8,
        single_square(p),
        knight ==> k.checked_move(knight_delta(d as u8).0 as i8, knight_delta(d as u8).1 as i8) == Ok::<BoardLocation, ChessErrors>(p),
        !knight ==> k.checked_move(king_delta(d as u8).0 as i8, king_delta(d as u8).1 as i8) == Ok::<BoardLocation, ChessErrors>(p),
    ensures
        p.binary_location & threat_mask(k) != 0,
{
    lemma_single_is_at(p);
    let t = top_bit(p.binary_location) as u64;
    lemma_leaper_has(k, 8, d, t);
    lemma_slider_keeps_base(k, leaper_threats(k, 8), 32, t);
    lemma_meets(p, threat_mask(k));
}

/// A square along a slider direction from the king (distance below 8) is
/// on its threat mask.
proof fn lemma_slider_threat(k: BoardLocation, j: int, i: int, p: BoardLocation, rook: bool)
    requires
        0 <= j < 4,
        0 <= i < 8,
        single_square(p),
        rook ==> k.checked_move((rook_delta(j as u8).0 * (i as i8)) as i8, (rook_delta(j as u8).1 * (i as i8)) as i8) == Ok::<BoardLocation, ChessErrors>(p),
        !rook ==> k.checked_move((bishop_delta(j as u8).0 * (i as i8)) as i8, (bishop_delta(j as u8).1 * (i as i8)) as i8) == Ok::<BoardLocation, ChessErrors>(p),
    ensures
        p.binary_location & threat_mask(k) != 0,
{
    lemma_single_is_at(p);
    let t = top_bit(p.binary_location) as u64;
    lemma_slider_has(k, leaper_threats(k, 8), 32, j, i, t);
    lemma_meets(p, threat_mask(k));
}

/// An element of a concatenation is in one of its parts.
proof fn lemma_concat_contains<T>(a: Seq<T>, b: Seq<T>, x: T)
    requires
        (a + b).contains(x),
    ensures
        a.contains(x) || b.contains(x),
{
    let i = choose|i: int| 0 <= i < (a + b).len() && (a + b)[i] == x;
    if i < a.len() {
        assert(a[i] == x);
    } else {
        assert(b[i - a.len()] == x);
    }
}

/// A knight that jumps onto the king stands on its threat mask.
proof fn lemma_knight_threat(s: BoardLocation, n: int, k: BoardLocation)
    requires
        single_square(s),
        0 <= n <= 8,
        knight_targets(s, n).contains(k),
    ensures
        s.binary_location & threat_mask(k) != 0,
    decreases n,
{
    let d = (n - 1) as u8;
    lemma_concat_contains(knight_targets(s, n - 1), leap(s, knight_delta(d)), k);
    if knight_targets(s, n - 1).contains(k) {
        lemma_knight_threat(s, n - 1, k);
    } else {
        let kd = knight_delta(d);
        assert(s.checked_move(kd.0 as i8, kd.1 as i8) == Ok::<BoardLocation, ChessErrors>(k));
        lemma_step_back(s, kd.0, kd.1, k);
        let back = ((d + 4) % 8) as u8;
        assert(knight_delta(back) == (-kd.0, -kd.1));
        lemma_leaper_threat(k, back as int, s, true);
    }
}

/// A king that steps onto the king stands on its threat mask.
proof fn lemma_king_threat(s: BoardLocation, n: int, k: BoardLocation)
    requires
        single_square(s),
        0 <= n <= 8,
        king_targets(s, n).contains(k),
    ensures
        s.binary_location & threat_mask(k) != 0,
    decreases n,
{
    let d = (n - 1) as u8;
    lemma_concat_contains(king_targets(s, n - 1), leap(s, king_delta(d)), k);
    if king_targets(s, n - 1).contains(k) {
        lemma_king_threat(s, n - 1, k);
    } else {
        let kd = king_delta(d);
        assert(s.checked_move(kd.0 as i8, kd.1 as i8) == Ok::<BoardLocation, ChessErrors>(k));
        lemma_step_back(s, kd.0, kd.1, k);
        let back = ((d + 4) % 8) as u8;
        assert(king_delta(back) == (-kd.0, -kd.1));
        lemma_leaper_threat(k, back as int, s, false);
    }
}

/// A slider whose ray (direction `j`, from distance `d`) reaches the king
/// stands on its threat mask.
proof fn lemma_ray_threat(s: BoardLocation, j: int, rook: bool, masks: crate::collision_masks::CollisionMasks, d: int, k: BoardLocation)
    requires
        single_square(s),
        0 <= j < 4,
        1 <= d,
        ray_from(s, if rook { rook_delta(j as u8) } else { bishop_delta(j as u8) }, masks, d).contains(k),
    ensures
        s.binary_location & threat_mask(k) != 0,
    decreases 8 - d,
{
    let delta = if rook {
        rook_delta(j as u8)
    } else {
        bishop_delta(j as u8)
    };
    if d <= 7 {
        match s.checked_move((delta.0 * d) as i8, (delta.1 * d) as i8) {
            Ok(x) => {
                if x == k {
                    lemma_step_back(s, delta.0 * d, delta.1 * d, k);
                    let back = ((j + 2) % 4) as u8;
                    if rook {
                        assert(rook_delta(back) == (-delta.0, -delta.1));
                    } else {
                        assert(bishop_delta(back) == (-delta.0, -delta.1));
                    }
                    assert((d as i8) as int == d);
                    let opp = if rook {
                        rook_delta(back)
                    } else {
                        bishop_delta(back)
                    };
                    assert(opp.0 * d == -(delta.0 * d) && opp.1 * d == -(delta.1 * d)) by (nonlinear_arith)
                        requires
                            opp.0 == -delta.0,
                            opp.1 == -delta.1,
                    ;
                    assert(((opp.0 * ((d as i8) as int)) as i8) == ((-(delta.0 * d)) as i8));
                    assert(((opp.1 * ((d as i8) as int)) as i8) == ((-(delta.1 * d)) as i8));
                    lemma_slider_threat(k, back as int, d, s, rook);
                } else if crate::generate_moves_level_1::collision_of(x, masks) is None {
                    lemma_concat_contains(seq![x], ray_from(s, delta, masks, d + 1), k);
                    lemma_ray_threat(s, j, rook, masks, d + 1, k);
                }
            },
            Err(_) => {},
        }
    }
}

/// A bishop or rook whose rays reach the king stands on its threat mask.
proof fn lemma_rays_threat(s: BoardLocation, masks: crate::collision_masks::CollisionMasks, n: int, k: BoardLocation, rook: bool)
    requires
        single_square(s),
        0 <= n <= 4,
        rook ==> rook_targets(s, masks, n).contains(k),
        !rook ==> bishop_targets(s, masks, n).contains(k),
    ensures
        s.binary_location & threat_mask(k) != 0,
    decreases n,
{
    let d = (n - 1) as u8;
    if rook {
        lemma_concat_contains(rook_targets(s, masks, n - 1), ray_from(s, rook_delta(d), masks, 1), k);
        if rook_targets(s, masks, n - 1).contains(k) {
            lemma_rays_threat(s, masks, n - 1, k, rook);
        } else {
            lemma_ray_threat(s, n - 1, true, masks, 1, k);
        }
    } else {
        lemma_concat_contains(bishop_targets(s, masks, n - 1), ray_from(s, bishop_delta(d), masks, 1), k);
        if bishop_targets(s, masks, n - 1).contains(k) {
            lemma_rays_threat(s, masks, n - 1, k, rook);
        } else {
            lemma_ray_threat(s, n - 1, false, masks, 1, k);
        }
    }
}

/// A queen whose rays reach the king stands on its threat mask.
proof fn lemma_queen_threat(s: BoardLocation, masks: crate::collision_masks::CollisionMasks, n: int, k: BoardLocation)
    requires
        single_square(s),
        0 <= n <= 4,
        queen_targets(s, masks, n).contains(k),
    ensures
        s.binary_location & threat_mask(k) != 0,
    decreases n,
{
    let d = (n - 1) as u8;
    let a = queen_targets(s, masks, n - 1);
    let r = ray_from(s, rook_delta(d), masks, 1);
    let b = ray_from(s, bishop_delta(d), masks, 1);
    lemma_concat_contains(a + r, b, k);
    if (a + r).contains(k) {
        lemma_concat_contains(a, r, k);
        if a.contains(k) {
            lemma_queen_threat(s, masks, n - 1, k);
        } else {
            lemma_ray_threat(s, n - 1, true, masks, 1, k);
        }
    } else {
        lemma_ray_threat(s, n - 1, false, masks, 1, k);
    }
}

/// A pawn whose targets (pushes and diagonal captures) include the king
/// stands on its threat mask.
proof fn lemma_pawn_threat(s: BoardLocation, masks: crate::collision_masks::CollisionMasks, team: crate::piece_team::PieceTeam, k: BoardLocation)
    requires
        single_square(s),
        pawn_targets(s, masks, team, false).contains(k),
    ensures
        s.binary_location & threat_mask(k) != 0,
{
    let f = forward(team);
    let pushes = pawn_pushes(s, masks, team);
    let left = pawn_capture(s, masks, team, -1i8, false);
    let right = pawn_capture(s, masks, team, 1, false);
    lemma_concat_contains(pushes + left, right, k);
    if (pushes + left).contains(k) {
        lemma_concat_contains(pushes, left, k);
    }
    if pushes.contains(k) {
        let one = s.checked_move(0, f as i8);
        let two = s.checked_move(0, (2 * f) as i8);
        if one == Ok::<BoardLocation, ChessErrors>(k) {
            lemma_step_back(s, 0, f, k);
            let d: u8 = if f == 1 {
                6
            } else {
                2
            };
            assert(king_delta(d) == (0int, -f));
            lemma_leaper_threat(k, d as int, s, false);
        } else {
            assert(two == Ok::<BoardLocation, ChessErrors>(k));
            lemma_step_back(s, 0, 2 * f, k);
            let j: u8 = if f == 1 {
                3
            } else {
                1
            };
            assert((rook_delta(j).0 * 2) as i8 == 0i8 && (rook_delta(j).1 * 2) as i8 == (-(2 * f)) as i8);
            lemma_slider_threat(k, j as int, 2, s, true);
        }
    } else if left.contains(k) {
        assert(s.checked_move(-1i8, f as i8) == Ok::<BoardLocation, ChessErrors>(k));
        lemma_step_back(s, -1, f, k);
        let d: u8 = if f == 1 {
            7
        } else {
            1
        };
        assert(king_delta(d) == (1int, -f));
        lemma_leaper_threat(k, d as int, s, false);
    } else {
        assert(right.contains(k));
        assert(s.checked_move(1i8, f as i8) == Ok::<BoardLocation, ChessErrors>(k));
        lemma_step_back(s, 1, f, k);
        let d: u8 = if f == 1 {
            5
        } else {
            3
        };
        assert(king_delta(d) == (-1int, -f));
        lemma_leaper_threat(k, d as int, s, false);
    }
}

/// An element of a bucket is one of the targets.
proof fn lemma_bucket_sub(targets: Seq<BoardLocation>, masks: crate::collision_masks::CollisionMasks, class: Option<crate::piece_team::PieceTeam>, x: BoardLocation)
    requires
        bucket(targets, masks, class).contains(x),
    ensures
        targets.contains(x),
    decreases targets.len(),
{
    if targets.len() > 0 {
        let rest = bucket(targets.drop_last(), masks, class);
        if rest.contains(x) {
            lemma_bucket_sub(targets.drop_last(), masks, class, x);
            let i = choose|i: int| 0 <= i < targets.drop_last().len() && targets.drop_last()[i] == x;
            assert(targets[i] == x);
        } else {
            assert(targets[targets.len() - 1] == x);
        }
    }
}

/// A piece that captures onto the king's square stands on the king's
/// threat mask.
pub proof fn lemma_capturer_on_threats(p: crate::piece_record::PieceRecord, masks: crate::collision_masks::CollisionMasks, k: BoardLocation)
    requires
        single_square(p.location),
        single_square(k),
        crate::inspect_check::captures_of(p, masks).contains(k),
    ensures
        p.location.binary_location & threat_mask(k) != 0,
{
    let targets = crate::generate_moves_level_3::piece_targets(p, masks);
    lemma_bucket_sub(targets, masks, Some(crate::generate_moves_level_2::opponent(p.team)), k);
    let s = p.location;
    match p.class {
        crate::chess_types::PieceKind::Pawn => lemma_pawn_threat(s, masks, p.team, k),
        crate::chess_types::PieceKind::Knight => lemma_knight_threat(s, 8, k),
        crate::chess_types::PieceKind::King => lemma_king_threat(s, 8, k),
        crate::chess_types::PieceKind::Bishop => lemma_rays_threat(s, masks, 4, k, false),
        crate::chess_types::PieceKind::Rook => lemma_rays_threat(s, masks, 4, k, true),
        crate::chess_types::PieceKind::Queen => lemma_queen_threat(s, masks, 4, k),
    }
}

/// Every listed piece of a team stands on a single square (its square
/// index is below `n`, at most 64).
proof fn lemma_team_pieces_single(g: GameStateView, team: PieceTeam, n: int)
    requires
        n <= 64,
    ensures
        forall|i: int| 0 <= i < team_pieces(g, team, n).len() ==> single_square(#[trigger] team_pieces(g, team, n)[i].location),
    decreases n,
{
    if n > 0 {
        lemma_team_pieces_single(g, team, n - 1);
        lemma_top_bit_single((n - 1) as u64);
        let rest = team_pieces(g, team, n - 1);
        assert forall|i: int| 0 <= i < team_pieces(g, team, n).len() implies single_square(#[trigger] team_pieces(g, team, n)[i].location) by {
            if i < rest.len() {
                assert(team_pieces(g, team, n)[i] == rest[i]);
            }
        }
    }
}

/// The first king of a list is one of its elements.
proof fn lemma_first_king_in(pieces: Seq<PieceRecord>)
    requires
        first_king(pieces) is Some,
    ensures
        pieces.contains(first_king(pieces).unwrap()),
    decreases pieces.len(),
{
    if pieces[0].class != crate::chess_types::PieceKind::King {
        lemma_first_king_in(pieces.drop_first());
        let i = choose|i: int| 0 <= i < pieces.drop_first().len() && pieces.drop_first()[i] == first_king(pieces).unwrap();
        assert(pieces[i + 1] == first_king(pieces).unwrap());
    } else {
        assert(pieces[0] == first_king(pieces).unwrap());
    }
}

/// A piece hits the king's square exactly when its captures contain the
/// king's location.
proof fn lemma_hit_iff_contains(caps: Seq<BoardLocation>, k: BoardLocation)
    requires
        single_square(k),
        forall|i: int| 0 <= i < caps.len() ==> single_square(#[trigger] caps[i]),
    ensures
        (hit_count(caps, k.binary_location) > 0) <==> caps.contains(k),
    decreases caps.len(),
{
    if caps.len() > 0 {
        let rest = caps.drop_last();
        lemma_hit_iff_contains(rest, k);
        let x = caps.last();
        assert(single_square(caps[caps.len() - 1]));
        if x.binary_location & k.binary_location > 0 {
            lemma_shared_square(x, k);
            assert(caps[caps.len() - 1] == k);
        } else {
            if x == k {
                lemma_single_is_at(k);
                lemma_meets(k, k.binary_location);
            }
        }
        if caps.contains(k) {
            let i = choose|i: int| 0 <= i < caps.len() && caps[i] == k;
            if i < caps.len() - 1 {
                assert(rest[i] == k);
            }
        }
        if rest.contains(k) {
            let i = choose|i: int| 0 <= i < rest.len() && rest[i] == k;
            assert(caps[i] == k);
        }
    }
}

/// The captures of a piece on a single square are single squares.
proof fn lemma_captures_single(p: PieceRecord, masks: crate::collision_masks::CollisionMasks)
    requires
        single_square(p.location),
    ensures
        forall|i: int| 0 <= i < captures_of(p, masks).len() ==> single_square(#[trigger] captures_of(p, masks)[i]),
{
    let targets = crate::generate_moves_level_3::piece_targets(p, masks);
    crate::generate_moves_level_1::lemma_targets_occupy(p.location, masks, p.team, false, 4);
    crate::generate_moves_level_1::lemma_targets_occupy(p.location, masks, p.team, false, 8);
    assert(crate::generate_moves_level_1::all_occupy_a_square(targets));
    crate::generate_moves_level_1::lemma_bucket_occupy(targets, masks, Some(crate::generate_moves_level_2::opponent(p.team)));
}

/// Some piece of the list hits the king's square.
pub open spec fn some_hit(pieces: Seq<PieceRecord>, masks: crate::collision_masks::CollisionMasks, king_mask: u64) -> bool {
    exists|i: int| 0 <= i < pieces.len() && hit_count(captures_of(#[trigger] pieces[i], masks), king_mask) > 0
}

/// There are checkers exactly when some piece hits the king's square.
proof fn lemma_checkers_some_hit(pieces: Seq<PieceRecord>, masks: crate::collision_masks::CollisionMasks, king_mask: u64)
    ensures
        (checkers(pieces, masks, king_mask).len() > 0) <==> some_hit(pieces, masks, king_mask),
    decreases pieces.len(),
{
    if pieces.len() > 0 {
        let rest = pieces.drop_last();
        lemma_checkers_some_hit(rest, masks, king_mask);
        let p = pieces.last();
        assert(pieces[pieces.len() - 1] == p);
        if some_hit(rest, masks, king_mask) {
            let i = choose|i: int| 0 <= i < rest.len() && hit_count(captures_of(#[trigger] rest[i], masks), king_mask) > 0;
            assert(pieces[i] == rest[i]);
        }
        if some_hit(pieces, masks, king_mask) {
            let i = choose|i: int| 0 <= i < pieces.len() && hit_count(captures_of(#[trigger] pieces[i], masks), king_mask) > 0;
            if i < pieces.len() - 1 {
                assert(rest[i] == pieces[i]);
            }
        }
    }
}

/// A hitting piece of a filtered list is a hitting piece of the list; a
/// hitting piece on the mask stays in the filtered list.
proof fn lemma_on_mask_hits(pieces: Seq<PieceRecord>, mask: u64, masks: crate::collision_masks::CollisionMasks, king_mask: u64)
    ensures
        some_hit(on_mask(pieces, mask), masks, king_mask) ==> some_hit(pieces, masks, king_mask),
        (exists|i: int| 0 <= i < pieces.len() && #[trigger] pieces[i].location.binary_location & mask > 0
            && hit_count(captures_of(pieces[i], masks), king_mask) > 0) ==> some_hit(on_mask(pieces, mask), masks, king_mask),
    decreases pieces.len(),
{
    if pieces.len() > 0 {
        let rest = pieces.drop_last();
        let p = pieces.last();
        lemma_on_mask_hits(rest, mask, masks, king_mask);
        let f = on_mask(pieces, mask);
        let fr = on_mask(rest, mask);
        assert(pieces[pieces.len() - 1] == p);
        if some_hit(f, masks, king_mask) {
            let i = choose|i: int| 0 <= i < f.len() && hit_count(captures_of(#[trigger] f[i], masks), king_mask) > 0;
            if i < fr.len() {
                assert(f[i] == fr[i]);
                assert(some_hit(fr, masks, king_mask));
                let j = choose|j: int| 0 <= j < rest.len() && hit_count(captures_of(#[trigger] rest[j], masks), king_mask) > 0;
                assert(pieces[j] == rest[j]);
            } else {
                assert(f[i] == p);
            }
        }
        if exists|i: int| 0 <= i < pieces.len() && #[trigger] pieces[i].location.binary_location & mask > 0
            && hit_count(captures_of(pieces[i], masks), king_mask) > 0 {
            let i = choose|i: int| 0 <= i < pieces.len() && #[trigger] pieces[i].location.binary_location & mask > 0
                && hit_count(captures_of(pieces[i], masks), king_mask) > 0;
            if i < rest.len() {
                assert(rest[i] == pieces[i]);
                assert(some_hit(fr, masks, king_mask));
                let j = choose|j: int| 0 <= j < fr.len() && hit_count(captures_of(#[trigger] fr[j], masks), king_mask) > 0;
                assert(f[j] == fr[j]);
            } else {
                assert(f[f.len() - 1] == p);
            }
        }
    }
}

/// Restricting the enemy pieces to the king's threat mask keeps the
/// checkers found: there are checkers among the pieces on the mask
/// exactly when there are checkers among all of them.
pub proof fn lemma_threat_filter_keeps_checks(pieces: Seq<PieceRecord>, masks: crate::collision_masks::CollisionMasks, k: BoardLocation)
    requires
        single_square(k),
        forall|i: int| 0 <= i < pieces.len() ==> single_square(#[trigger] pieces[i].location),
    ensures
        (checkers(on_mask(pieces, threat_mask(k)), masks, k.binary_location).len() > 0) <==> (checkers(
            pieces,
            masks,
            k.binary_location,
        ).len() > 0),
{
    let m = threat_mask(k);
    lemma_checkers_some_hit(pieces, masks, k.binary_location);
    lemma_checkers_some_hit(on_mask(pieces, m), masks, k.binary_location);
    lemma_on_mask_hits(pieces, m, masks, k.binary_location);
    if some_hit(pieces, masks, k.binary_location) {
        let i = choose|i: int| 0 <= i < pieces.len() && hit_count(captures_of(#[trigger] pieces[i], masks), k.binary_location) > 0;
        let p = pieces[i];
        lemma_captures_single(p, masks);
        lemma_hit_iff_contains(captures_of(p, masks), k);
        lemma_capturer_on_threats(p, masks, k);
        assert(p.location.binary_location & m > 0);
    }
}

/// The two check detectors agree: without a king of the side to move
/// both report the missing king; when no enemy piece captures onto the
/// king the inspection finds no check; when one does, the inspection
/// reports a check (unclassified when no last moved piece is given).
pub proof fn lemma_inspection_matches_attack(g: GameStateView, last: Option<PieceRecord>)
    ensures
        king_attacked(g) is Err ==> king_attacked(g) == Err::<bool, ChessErrors>(ChessErrors::PieceRegisterDoesNotContainAKing)
            && inspection(g, last) == Inspection::Done(Err(ChessErrors::PieceRegisterDoesNotContainAKing)),
        king_attacked(g) == Ok::<bool, ChessErrors>(false) ==> inspection(g, last) == Inspection::Done(Ok(None)),
        king_attacked(g) == Ok::<bool, ChessErrors>(true) ==> inspection(g, last) != Inspection::Done(Ok(None))
            && (last is None ==> inspection(g, last) matches Inspection::Done(Ok(Some(TypesOfCheck::UnclassifiedCheck(_, _))))),
{
    let team = team_of(g.side_to_move);
    let own = team_pieces(g, team, 64);
    if let Some(king) = first_king(own) {
        lemma_team_pieces_single(g, team, 64);
        lemma_team_pieces_single(g, opponent(team), 64);
        lemma_first_king_in(own);
        let i = choose|i: int| 0 <= i < own.len() && own[i] == king;
        assert(single_square(own[i].location));
        lemma_threat_filter_keeps_checks(team_pieces(g, opponent(team), 64), masks_of(g), king.location);
    }
}

} // verus!
