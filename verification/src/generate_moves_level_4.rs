//! Fourth-level move generation: a piece's moves as move descriptions,
//! adding promotions, double steps, en passant and castling to the
//! third-level targets. Moves that leave the king in check are kept.

use vstd::prelude::*;
use crate::board_location::BoardLocation;
use crate::chess_errors::ChessErrors;
use crate::chess_types::PieceKind;
use crate::collision_masks::CollisionMasks;
use crate::game_state::{GameState, GameStateView};
use crate::generate_movements::{forward, generate_pawn_capture_movement, generate_pawn_double_step_movement};
use crate::generate_moves_level_1::{bucket, on_start_rank, all_occupy_a_square, lemma_targets_occupy, lemma_bucket_occupy};
use crate::generate_moves_level_2::opponent;
use crate::generate_moves_level_3::{GenerateLevel3Result, piece_targets};
use crate::move_description::{MoveDescription, MoveTypes, MoveVector, plain_description};
use crate::piece_record::{PieceRecord, record_at, view_piece_at_location};
use crate::piece_team::PieceTeam;
use crate::special_move_flags::SpecialMoveFlags;
use crate::apply_move_to_game::{move_locations_ok, lemma_single_at};
use crate::piece_record::single_square;
use crate::generate_moves_level_1::lemma_checked_move_nonzero;

verus! {

broadcast use vstd::std_specs::bits::axiom_u64_leading_zeros;

/// The moves of one piece.
pub type GenerateLevel4Result = Vec<MoveDescription>;

/// `piece` with its kind replaced (its square kept).
pub open spec fn as_class(piece: PieceRecord, class: PieceKind) -> PieceRecord {
    PieceRecord { class, ..piece }
}

/// The four promotions (queen, rook, bishop, knight) of a pawn reaching
/// `dest`.
pub open spec fn promotions_of(piece: PieceRecord, dest: BoardLocation, capture: Option<PieceRecord>) -> Seq<MoveDescription> {
    seq![
        plain_description(piece, dest, MoveTypes::Promote(as_class(piece, PieceKind::Queen)), capture),
        plain_description(piece, dest, MoveTypes::Promote(as_class(piece, PieceKind::Rook)), capture),
        plain_description(piece, dest, MoveTypes::Promote(as_class(piece, PieceKind::Bishop)), capture),
        plain_description(piece, dest, MoveTypes::Promote(as_class(piece, PieceKind::Knight)), capture),
    ]
}

/// `loc` is on the last rank for `team`.
pub open spec fn on_last_rank(team: PieceTeam, loc: BoardLocation) -> bool {
    (loc.rank_of() == 7 && team == PieceTeam::Light) || (loc.rank_of() == 0 && team == PieceTeam::Dark)
}

/// The moves onto one occupied target: the four promotions for a pawn
/// reaching its last rank, else a regular capture.
pub open spec fn capture_move(piece: PieceRecord, loc: BoardLocation, victim: PieceRecord) -> Seq<MoveDescription> {
    if piece.class == PieceKind::Pawn && on_last_rank(piece.team, loc) {
        promotions_of(piece, loc, Some(victim))
    } else {
        seq![plain_description(piece, loc, MoveTypes::Regular, Some(victim))]
    }
}

/// The moves onto the occupied targets, in order; the first target with
/// no piece on it is an error.
pub open spec fn capture_moves(piece: PieceRecord, caps: Seq<BoardLocation>, g: GameStateView) -> Result<Seq<MoveDescription>, ChessErrors>
    decreases caps.len(),
{
    if caps.len() == 0 {
        Ok(Seq::empty())
    } else {
        match capture_moves(piece, caps.drop_last(), g) {
            Err(e) => Err(e),
            Ok(done) => match record_at(g, caps.last()) {
                Some(victim) => Ok(done + capture_move(piece, caps.last(), victim)),
                None => Err(ChessErrors::TryToViewOrEditEmptySquare(caps.last())),
            },
        }
    }
}

/// The moves onto one free target: first, for a pawn stepping once from
/// its starting rank, the double step when its square is free; then the
/// four promotions on the last rank, else the regular move.
pub open spec fn quiet_move(piece: PieceRecord, loc: BoardLocation, masks: CollisionMasks) -> Seq<MoveDescription> {
    let is_pawn = piece.class == PieceKind::Pawn;
    let one_rank = loc.rank_of() - piece.location.rank_of() == 1 || piece.location.rank_of() - loc.rank_of() == 1;
    let double = if is_pawn && on_start_rank(piece.location, piece.team) && one_rank {
        match piece.location.checked_move(0, (2 * forward(piece.team)) as i8) {
            Ok(x) => if x.binary_location & (masks.light_mask | masks.dark_mask) == 0 {
                seq![plain_description(piece, x, MoveTypes::DoubleStep(loc), None)]
            } else {
                Seq::empty()
            },
            Err(_) => Seq::empty(),
        }
    } else {
        Seq::empty()
    };
    double + if is_pawn && on_last_rank(piece.team, loc) {
        promotions_of(piece, loc, None)
    } else {
        seq![plain_description(piece, loc, MoveTypes::Regular, None)]
    }
}

/// The moves onto the free targets, in order.
pub open spec fn quiet_moves(piece: PieceRecord, locs: Seq<BoardLocation>, masks: CollisionMasks) -> Seq<MoveDescription>
    decreases locs.len(),
{
    if locs.len() == 0 {
        Seq::empty()
    } else {
        quiet_moves(piece, locs.drop_last(), masks) + quiet_move(piece, locs.last(), masks)
    }
}

/// The square of the pawn taken en passant: one rank behind the
/// en-passant square, seen from the capturing side.
pub open spec fn behind(ep: BoardLocation, team: PieceTeam) -> BoardLocation {
    BoardLocation {
        binary_location: if team == PieceTeam::Dark {
            ep.binary_location << 1u32
        } else {
            ep.binary_location >> 1u32
        },
    }
}

/// The pawn's diagonal `d_file` files across is the en-passant square.
pub open spec fn ep_hits(piece: PieceRecord, ep: BoardLocation, d_file: i8) -> bool {
    match piece.location.checked_move(d_file, forward(piece.team) as i8) {
        Ok(m) => m.binary_location & ep.binary_location > 0,
        Err(_) => false,
    }
}

/// The en-passant capture of a pawn whose diagonal is the en-passant
/// square; an error when no piece stands behind that square.
pub open spec fn en_passant_moves(piece: PieceRecord, flags: SpecialMoveFlags, g: GameStateView) -> Result<Seq<MoveDescription>, ChessErrors> {
    if piece.class == PieceKind::Pawn && flags.en_passant_location is Some {
        let ep = flags.en_passant_location.unwrap();
        if ep_hits(piece, ep, -1i8) || ep_hits(piece, ep, 1) {
            match record_at(g, behind(ep, piece.team)) {
                Some(victim) => Ok(seq![plain_description(piece, ep, MoveTypes::EnPassant, Some(victim))]),
                None => Err(ChessErrors::TryToViewOrEditEmptySquare(behind(ep, piece.team))),
            }
        } else {
            Ok(Seq::empty())
        }
    } else {
        Ok(Seq::empty())
    }
}

/// One castling move when allowed and the squares between are free; an
/// error when the rook's square is empty.
pub open spec fn castle_option(
    allowed: bool,
    between: u64,
    piece: PieceRecord,
    king_dest: BoardLocation,
    rook_square: BoardLocation,
    rook_dest: BoardLocation,
    masks: CollisionMasks,
    g: GameStateView,
) -> Result<Seq<MoveDescription>, ChessErrors> {
    if allowed && between & (masks.light_mask | masks.dark_mask) == 0 {
        match record_at(g, rook_square) {
            Some(rook) => Ok(seq![MoveDescription {
                vector: MoveVector { piece_at_start: piece, destination: king_dest },
                move_type: MoveTypes::Castling(MoveVector { piece_at_start: rook, destination: rook_dest }),
                capture_status: None,
            }]),
            None => Err(ChessErrors::TryToViewOrEditEmptySquare(rook_square)),
        }
    } else {
        Ok(Seq::empty())
    }
}

/// The moves of `a` then those of `b`; the first error wins.
pub open spec fn then(a: Result<Seq<MoveDescription>, ChessErrors>, b: Result<Seq<MoveDescription>, ChessErrors>) -> Result<Seq<MoveDescription>, ChessErrors> {
    match a {
        Err(e) => Err(e),
        Ok(x) => match b {
            Err(e) => Err(e),
            Ok(y) => Ok(x + y),
        },
    }
}

/// A king's castling moves: queen side, then king side.
pub open spec fn castle_moves(piece: PieceRecord, flags: SpecialMoveFlags, masks: CollisionMasks, g: GameStateView) -> Result<Seq<MoveDescription>, ChessErrors> {
    if piece.class != PieceKind::King {
        Ok(Seq::empty())
    } else if piece.team == PieceTeam::Light {
        then(
            castle_option(flags.can_castle_queen_light,
                BoardLocation::at(1, 0).binary_location | BoardLocation::at(2, 0).binary_location | BoardLocation::at(3, 0).binary_location,
                piece, BoardLocation::at(2, 0), BoardLocation::at(0, 0), BoardLocation::at(3, 0), masks, g),
            castle_option(flags.can_castle_king_light,
                BoardLocation::at(5, 0).binary_location | BoardLocation::at(6, 0).binary_location,
                piece, BoardLocation::at(6, 0), BoardLocation::at(7, 0), BoardLocation::at(5, 0), masks, g),
        )
    } else {
        then(
            castle_option(flags.can_castle_queen_dark,
                BoardLocation::at(1, 7).binary_location | BoardLocation::at(2, 7).binary_location | BoardLocation::at(3, 7).binary_location,
                piece, BoardLocation::at(2, 7), BoardLocation::at(0, 7), BoardLocation::at(3, 7), masks, g),
            castle_option(flags.can_castle_king_dark,
                BoardLocation::at(5, 7).binary_location | BoardLocation::at(6, 7).binary_location,
                piece, BoardLocation::at(6, 7), BoardLocation::at(7, 7), BoardLocation::at(5, 7), masks, g),
        )
    }
}

/// All moves of a piece: captures, free moves, en passant, castling.
pub open spec fn level4_moves(piece: PieceRecord, masks: CollisionMasks, flags: SpecialMoveFlags, g: GameStateView) -> Result<Seq<MoveDescription>, ChessErrors> {
    let targets = piece_targets(piece, masks);
    then(
        then(
            then(
                capture_moves(piece, bucket(targets, masks, Some(opponent(piece.team))), g),
                Ok(quiet_moves(piece, bucket(targets, masks, None), masks)),
            ),
            en_passant_moves(piece, flags, g),
        ),
        castle_moves(piece, flags, masks, g),
    )
}

/// Once the capture moves of a prefix fail, longer prefixes fail the same
/// way.
proof fn lemma_capture_err_sticks(piece: PieceRecord, caps: Seq<BoardLocation>, g: GameStateView, i: int, k: int)
    requires
        0 <= i <= k <= caps.len(),
        capture_moves(piece, caps.take(i), g) is Err,
    ensures
        capture_moves(piece, caps.take(k), g) == capture_moves(piece, caps.take(i), g),
    decreases k - i,
{
    if k > i {
        lemma_capture_err_sticks(piece, caps, g, i, k - 1);
        assert(caps.take(k).drop_last() =~= caps.take(k - 1));
    }
}

/// The four promotions of a pawn reaching `destination`.
fn generate_promotions(piece: &PieceRecord, destination: BoardLocation, capture_status: Option<PieceRecord>) -> (r: GenerateLevel4Result)
    ensures
        r@ == promotions_of(*piece, destination, capture_status),
{
    let mut result: GenerateLevel4Result = Vec::new();
    let mut promoted_piece = *piece;
    promoted_piece.class = PieceKind::Queen;
    result.push(MoveDescription {
        vector: MoveVector { piece_at_start: *piece, destination },
        move_type: MoveTypes::Promote(promoted_piece),
        capture_status,
    });
    let mut promoted_piece = *piece;
    promoted_piece.class = PieceKind::Rook;
    result.push(MoveDescription {
        vector: MoveVector { piece_at_start: *piece, destination },
        move_type: MoveTypes::Promote(promoted_piece),
        capture_status,
    });
    let mut promoted_piece = *piece;
    promoted_piece.class = PieceKind::Bishop;
    result.push(MoveDescription {
        vector: MoveVector { piece_at_start: *piece, destination },
        move_type: MoveTypes::Promote(promoted_piece),
        capture_status,
    });
    let mut promoted_piece = *piece;
    promoted_piece.class = PieceKind::Knight;
    result.push(MoveDescription {
        vector: MoveVector { piece_at_start: *piece, destination },
        move_type: MoveTypes::Promote(promoted_piece),
        capture_status,
    });
    assert(result@ =~= promotions_of(*piece, destination, capture_status));
    result
}

/// Whether the pawn's diagonal `d_file` files across is the en-passant
/// square.
fn diagonal_is(piece: &PieceRecord, ep_location: BoardLocation, d_file: i8) -> (r: bool)
    requires
        piece.location.binary_location != 0,
        d_file == -1 || d_file == 1,
    ensures
        r == ep_hits(*piece, ep_location, d_file),
{
    match generate_pawn_capture_movement(piece.location, piece.team, d_file) {
        Ok(mask) => (mask.binary_location & ep_location.binary_location) > 0,
        Err(_) => false,
    }
}

/// Append one castling move when allowed and the squares between are
/// free.
fn push_castle(
    result: &mut GenerateLevel4Result,
    allowed: bool,
    between: u64,
    piece: &PieceRecord,
    king_dest: BoardLocation,
    rook_square: BoardLocation,
    rook_dest: BoardLocation,
    masks: &CollisionMasks,
    piece_register: &GameState,
) -> (r: Result<(), ChessErrors>)
    ensures
        match castle_option(allowed, between, *piece, king_dest, rook_square, rook_dest, *masks, piece_register@) {
            Ok(s) => r is Ok && final(result)@ == old(result)@ + s,
            Err(e) => r == Err::<(), ChessErrors>(e),
        },
{
    if allowed && (between & (masks.light_mask | masks.dark_mask)) == 0 {
        let rook = view_piece_at_location(piece_register, rook_square)?;
        result.push(MoveDescription {
            vector: MoveVector { piece_at_start: *piece, destination: king_dest },
            move_type: MoveTypes::Castling(MoveVector { piece_at_start: rook, destination: rook_dest }),
            capture_status: None,
        });
        assert(final(result)@ =~= old(result)@ + seq![MoveDescription {
            vector: MoveVector { piece_at_start: *piece, destination: king_dest },
            move_type: MoveTypes::Castling(MoveVector { piece_at_start: rook, destination: rook_dest }),
            capture_status: None,
        }]);
    } else {
        assert(final(result)@ =~= old(result)@ + Seq::<MoveDescription>::empty());
    }
    Ok(())
}

/// The moves of one piece (promotions, double steps, en passant and
/// castling included; moves into check kept).
///
/// Fails when a capture target, the square behind the en-passant square,
/// or a castling rook's square holds no piece.
pub fn generate_moves_level_4(
    piece: &PieceRecord,
    masks: &CollisionMasks,
    special_flags: &SpecialMoveFlags,
    piece_register: &GameState,
) -> (r: Result<GenerateLevel4Result, ChessErrors>)
    requires
        piece.location.binary_location != 0,
    ensures
        match level4_moves(*piece, *masks, *special_flags, piece_register@) {
            Ok(s) => r is Ok && r.unwrap()@ == s,
            Err(e) => r == Err::<GenerateLevel4Result, ChessErrors>(e),
        },
{
    let ghost g = piece_register@;
    let mut result: GenerateLevel4Result = Vec::new();
    let is_pawn = matches!(piece.class, PieceKind::Pawn);
    let is_king = matches!(piece.class, PieceKind::King);
    let regular_moves = GenerateLevel3Result::from(piece, masks)?;
    let ghost targets = piece_targets(*piece, *masks);
    proof {
        lemma_targets_occupy(piece.location, *masks, piece.team, false, 4);
        lemma_targets_occupy(piece.location, *masks, piece.team, false, 8);
        assert(all_occupy_a_square(targets));
        lemma_bucket_occupy(targets, *masks, None);
        lemma_bucket_occupy(targets, *masks, Some(opponent(piece.team)));
    }
    let captures = regular_moves.captures;
    let no_collisions = regular_moves.no_collisions;
    let ghost caps = captures@;
    let mut i: usize = 0;
    assert(caps.take(0) =~= Seq::<BoardLocation>::empty());
    while i < captures.len()
        invariant
            i <= captures.len(),
            caps == captures@,
            all_occupy_a_square(caps),
            is_pawn == (piece.class == PieceKind::Pawn),
            capture_moves(*piece, caps.take(i as int), g) == Ok::<Seq<MoveDescription>, ChessErrors>(result@),
            g == piece_register@,
            caps == bucket(targets, *masks, Some(opponent(piece.team))),
            targets == piece_targets(*piece, *masks),
        decreases captures.len() - i,
    {
        let location = captures[i];
        assert(caps.take(i + 1).drop_last() =~= caps.take(i as int));
        assert(caps.take(i + 1).last() == location);
        let capture_status = match view_piece_at_location(piece_register, location) {
            Ok(p) => p,
            Err(e) => {
                proof {
                    assert(record_at(g, location) is None);
                    assert(capture_moves(*piece, caps.take(i + 1), g) == Err::<Seq<MoveDescription>, ChessErrors>(
                        ChessErrors::TryToViewOrEditEmptySquare(location),
                    ));
                    lemma_capture_err_sticks(*piece, caps, g, i + 1, caps.len() as int);
                    assert(caps.take(caps.len() as int) =~= caps);
                    assert(caps == bucket(targets, *masks, Some(opponent(piece.team))));
                }
                return Err(e);
            },
        };
        assert(location.binary_location != 0);
        if is_pawn {
            let (_, stop_rank) = location.get_file_rank();
            let light_stop = stop_rank == 7 && matches!(piece.team, PieceTeam::Light);
            let dark_stop = stop_rank == 0 && matches!(piece.team, PieceTeam::Dark);
            if light_stop || dark_stop {
                let mut promos = generate_promotions(piece, location, Some(capture_status));
                result.append(&mut promos);
                i = i + 1;
                continue;
            }
        }
        result.push(MoveDescription {
            vector: MoveVector { piece_at_start: *piece, destination: location },
            move_type: MoveTypes::Regular,
            capture_status: Some(capture_status),
        });
        proof {
            assert(result@ =~= capture_moves(*piece, caps.take(i as int), g).unwrap() + capture_move(*piece, location, capture_status));
        }
        i = i + 1;
    }
    assert(caps.take(captures.len() as int) =~= caps);
    let ghost after_captures = result@;
    let ghost quiet = no_collisions@;
    let mut j: usize = 0;
    assert(quiet.take(0) =~= Seq::<BoardLocation>::empty());
    while j < no_collisions.len()
        invariant
            j <= no_collisions.len(),
            quiet == no_collisions@,
            all_occupy_a_square(quiet),
            is_pawn == (piece.class == PieceKind::Pawn),
            piece.location.binary_location != 0,
            result@ == after_captures + quiet_moves(*piece, quiet.take(j as int), *masks),
        decreases no_collisions.len() - j,
    {
        let location = no_collisions[j];
        assert(quiet.take(j + 1).drop_last() =~= quiet.take(j as int));
        assert(quiet.take(j + 1).last() == location);
        let ghost before = result@;
        assert(location.binary_location != 0);
        if is_pawn {
            let (_, start_rank) = piece.location.get_file_rank();
            let (_, stop_rank) = location.get_file_rank();
            let light_start = start_rank == 1 && matches!(piece.team, PieceTeam::Light);
            let dark_start = start_rank == 6 && matches!(piece.team, PieceTeam::Dark);
            let d_rank: i8 = stop_rank as i8 - start_rank as i8;
            let moving_up_1 = d_rank == 1 || d_rank == -1;
            if (light_start || dark_start) && moving_up_1 {
                if let Ok(x) = generate_pawn_double_step_movement(piece.location, piece.team) {
                    if (x.binary_location & (masks.light_mask | masks.dark_mask)) == 0 {
                        result.push(MoveDescription {
                            vector: MoveVector { piece_at_start: *piece, destination: x },
                            move_type: MoveTypes::DoubleStep(location),
                            capture_status: None,
                        });
                    }
                }
            }
            let light_stop = stop_rank == 7 && matches!(piece.team, PieceTeam::Light);
            let dark_stop = stop_rank == 0 && matches!(piece.team, PieceTeam::Dark);
            if light_stop || dark_stop {
                let mut promos = generate_promotions(piece, location, None);
                result.append(&mut promos);
                proof {
                    assert(result@ =~= before + quiet_move(*piece, location, *masks));
                    assert(after_captures + quiet_moves(*piece, quiet.take(j + 1), *masks) =~= before + quiet_move(*piece, location, *masks));
                }
                j = j + 1;
                continue;
            }
        }
        result.push(MoveDescription {
            vector: MoveVector { piece_at_start: *piece, destination: location },
            move_type: MoveTypes::Regular,
            capture_status: None,
        });
        proof {
            assert(result@ =~= before + quiet_move(*piece, location, *masks));
            assert(after_captures + quiet_moves(*piece, quiet.take(j + 1), *masks) =~= before + quiet_move(*piece, location, *masks));
        }
        j = j + 1;
    }
    assert(quiet.take(no_collisions.len() as int) =~= quiet);
    if is_pawn {
        if let Some(ep_location) = special_flags.en_passant_location {
            if diagonal_is(piece, ep_location, -1) || diagonal_is(piece, ep_location, 1) {
                let direction: i8 = match piece.team {
                    PieceTeam::Dark => 1,
                    PieceTeam::Light => -1,
                };
                let behind_location = ep_location.generate_moved_location_without_validation(0, direction);
                assert(behind_location == behind(ep_location, piece.team)) by {
                    assert(vstd::wrapping::i8_specs::wrapping_mul(0i8, 8i8) == 0);
                }
                let victim = view_piece_at_location(piece_register, behind_location)?;
                result.push(MoveDescription {
                    vector: MoveVector { piece_at_start: *piece, destination: ep_location },
                    move_type: MoveTypes::EnPassant,
                    capture_status: Some(victim),
                });
            }
        }
    }
    if is_king {
        if matches!(piece.team, PieceTeam::Light) {
            let between = BoardLocation::from_file_rank(1, 0)?.binary_location | BoardLocation::from_file_rank(2, 0)?.binary_location | BoardLocation::from_file_rank(3, 0)?.binary_location;
            push_castle(&mut result, special_flags.can_castle_queen_light, between, piece,
                BoardLocation::from_file_rank(2, 0)?, BoardLocation::from_file_rank(0, 0)?, BoardLocation::from_file_rank(3, 0)?, masks, piece_register)?;
            let between = BoardLocation::from_file_rank(5, 0)?.binary_location | BoardLocation::from_file_rank(6, 0)?.binary_location;
            push_castle(&mut result, special_flags.can_castle_king_light, between, piece,
                BoardLocation::from_file_rank(6, 0)?, BoardLocation::from_file_rank(7, 0)?, BoardLocation::from_file_rank(5, 0)?, masks, piece_register)?;
        } else {
            let between = BoardLocation::from_file_rank(1, 7)?.binary_location | BoardLocation::from_file_rank(2, 7)?.binary_location | BoardLocation::from_file_rank(3, 7)?.binary_location;
            push_castle(&mut result, special_flags.can_castle_queen_dark, between, piece,
                BoardLocation::from_file_rank(2, 7)?, BoardLocation::from_file_rank(0, 7)?, BoardLocation::from_file_rank(3, 7)?, masks, piece_register)?;
            let between = BoardLocation::from_file_rank(5, 7)?.binary_location | BoardLocation::from_file_rank(6, 7)?.binary_location;
            push_castle(&mut result, special_flags.can_castle_king_dark, between, piece,
                BoardLocation::from_file_rank(6, 7)?, BoardLocation::from_file_rank(7, 7)?, BoardLocation::from_file_rank(5, 7)?, masks, piece_register)?;
        }
    }
    Ok(result)
}


/// Every move's locations are single squares.
pub open spec fn all_moves_located(s: Seq<MoveDescription>) -> bool {
    forall|i: int| 0 <= i < s.len() ==> move_locations_ok(#[trigger] s[i])
}

/// Concatenation keeps every move located.
proof fn lemma_located_concat(a: Seq<MoveDescription>, b: Seq<MoveDescription>)
    requires
        all_moves_located(a),
        all_moves_located(b),
    ensures
        all_moves_located(a + b),
{
    assert forall|i: int| 0 <= i < (a + b).len() implies move_locations_ok(#[trigger] (a + b)[i]) by {
        if i < a.len() {
            assert((a + b)[i] == a[i]);
        } else {
            assert((a + b)[i] == b[i - a.len()]);
        }
    }
}

/// The moves onto the occupied targets are located.
proof fn lemma_capture_moves_located(piece: PieceRecord, caps: Seq<BoardLocation>, g: GameStateView)
    requires
        single_square(piece.location),
        all_occupy_a_square(caps),
    ensures
        capture_moves(piece, caps, g) matches Ok(s) ==> all_moves_located(s),
    decreases caps.len(),
{
    if caps.len() > 0 {
        assert(all_occupy_a_square(caps.drop_last()));
        lemma_capture_moves_located(piece, caps.drop_last(), g);
        let loc = caps.last();
        assert(loc == caps[caps.len() - 1]);
        if let Ok(done) = capture_moves(piece, caps.drop_last(), g) {
            if let Some(victim) = record_at(g, loc) {
                lemma_located_concat(done, capture_move(piece, loc, victim));
            }
        }
    }
}

/// The moves onto the free targets are located.
proof fn lemma_quiet_moves_located(piece: PieceRecord, locs: Seq<BoardLocation>, masks: CollisionMasks)
    requires
        single_square(piece.location),
        all_occupy_a_square(locs),
    ensures
        all_moves_located(quiet_moves(piece, locs, masks)),
    decreases locs.len(),
{
    if locs.len() > 0 {
        assert(all_occupy_a_square(locs.drop_last()));
        lemma_quiet_moves_located(piece, locs.drop_last(), masks);
        let loc = locs.last();
        assert(loc == locs[locs.len() - 1]);
        lemma_checked_move_nonzero(piece.location, 0, (2 * forward(piece.team)) as i8);
        lemma_located_concat(quiet_moves(piece, locs.drop_last(), masks), quiet_move(piece, loc, masks));
    }
}

/// A piece's moves all touch single squares only.
pub proof fn lemma_level4_located(piece: PieceRecord, masks: CollisionMasks, flags: SpecialMoveFlags, g: GameStateView)
    requires
        single_square(piece.location),
        flags.en_passant_location matches Some(e) ==> single_square(e),
    ensures
        level4_moves(piece, masks, flags, g) matches Ok(s) ==> all_moves_located(s),
{
    let targets = piece_targets(piece, masks);
    lemma_targets_occupy(piece.location, masks, piece.team, false, 4);
    lemma_targets_occupy(piece.location, masks, piece.team, false, 8);
    assert(all_occupy_a_square(targets));
    let caps = bucket(targets, masks, Some(opponent(piece.team)));
    let quiet = bucket(targets, masks, None);
    lemma_bucket_occupy(targets, masks, None);
    lemma_bucket_occupy(targets, masks, Some(opponent(piece.team)));
    lemma_capture_moves_located(piece, caps, g);
    lemma_quiet_moves_located(piece, quiet, masks);
    lemma_single_at(0, 0);
    lemma_single_at(2, 0);
    lemma_single_at(3, 0);
    lemma_single_at(5, 0);
    lemma_single_at(6, 0);
    lemma_single_at(7, 0);
    lemma_single_at(0, 7);
    lemma_single_at(2, 7);
    lemma_single_at(3, 7);
    lemma_single_at(5, 7);
    lemma_single_at(6, 7);
    lemma_single_at(7, 7);
    if let Ok(c) = capture_moves(piece, caps, g) {
        let q = quiet_moves(piece, quiet, masks);
        lemma_located_concat(c, q);
        if let Ok(e) = en_passant_moves(piece, flags, g) {
            lemma_located_concat(c + q, e);
            if let Ok(k) = castle_moves(piece, flags, masks, g) {
                if piece.class == PieceKind::King {
                    if piece.team == PieceTeam::Light {
                        let a = castle_option(flags.can_castle_queen_light,
                            BoardLocation::at(1, 0).binary_location | BoardLocation::at(2, 0).binary_location | BoardLocation::at(3, 0).binary_location,
                            piece, BoardLocation::at(2, 0), BoardLocation::at(0, 0), BoardLocation::at(3, 0), masks, g);
                        let b = castle_option(flags.can_castle_king_light,
                            BoardLocation::at(5, 0).binary_location | BoardLocation::at(6, 0).binary_location,
                            piece, BoardLocation::at(6, 0), BoardLocation::at(7, 0), BoardLocation::at(5, 0), masks, g);
                        if let (Ok(x), Ok(y)) = (a, b) {
                            lemma_located_concat(x, y);
                        }
                    } else {
                        let a = castle_option(flags.can_castle_queen_dark,
                            BoardLocation::at(1, 7).binary_location | BoardLocation::at(2, 7).binary_location | BoardLocation::at(3, 7).binary_location,
                            piece, BoardLocation::at(2, 7), BoardLocation::at(0, 7), BoardLocation::at(3, 7), masks, g);
                        let b = castle_option(flags.can_castle_king_dark,
                            BoardLocation::at(5, 7).binary_location | BoardLocation::at(6, 7).binary_location,
                            piece, BoardLocation::at(6, 7), BoardLocation::at(7, 7), BoardLocation::at(5, 7), masks, g);
                        if let (Ok(x), Ok(y)) = (a, b) {
                            lemma_located_concat(x, y);
                        }
                    }
                }
                lemma_located_concat(c + q + e, k);
            }
        }
    }
}

} // verus!
