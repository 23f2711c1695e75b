//! First-level move generation on `BoardLocation`s: the candidate targets of
//! a piece, each sorted by the side (if any) whose piece stands there.
//! Sliding pieces stop at the first occupied square, which is kept.

use vstd::prelude::*;
use crate::board_location::BoardLocation;
use crate::chess_errors::ChessErrors;
use crate::collision_masks::CollisionMasks;
use crate::generate_movements::{
    forward, knight_delta, bishop_delta, rook_delta, king_delta, scaled_move_defined,
    generate_pawn_single_step_movement, generate_pawn_double_step_movement,
    generate_pawn_capture_movement, generate_knight_movement, generate_bishop_movement,
    generate_rook_movement, generate_king_movement,
};
use crate::piece_team::PieceTeam;
use crate::piece_record::single_square;

verus! {

broadcast use vstd::std_specs::bits::axiom_u64_leading_zeros;

/// Which side's mask the square collides with (Light's is tested first).
pub open spec fn collision_of(x: BoardLocation, masks: CollisionMasks) -> Option<PieceTeam> {
    if x.binary_location & masks.light_mask > 0 {
        Some(PieceTeam::Light)
    } else if x.binary_location & masks.dark_mask > 0 {
        Some(PieceTeam::Dark)
    } else {
        None
    }
}

/// The entries of `targets` whose collision class is `class`, in order.
pub open spec fn bucket(targets: Seq<BoardLocation>, masks: CollisionMasks, class: Option<PieceTeam>) -> Seq<
    BoardLocation,
>
    decreases targets.len(),
{
    if targets.len() == 0 {
        Seq::empty()
    } else {
        let rest = bucket(targets.drop_last(), masks, class);
        if collision_of(targets.last(), masks) == class {
            rest.push(targets.last())
        } else {
            rest
        }
    }
}

/// Appending one target appends it to its own class only.
pub proof fn lemma_bucket_push(
    targets: Seq<BoardLocation>,
    x: BoardLocation,
    masks: CollisionMasks,
    class: Option<PieceTeam>,
)
    ensures
        bucket(targets.push(x), masks, class) == if collision_of(x, masks) == class {
            bucket(targets, masks, class).push(x)
        } else {
            bucket(targets, masks, class)
        },
{
    assert(targets.push(x).drop_last() =~= targets);
}

/// The squares reached sliding along `delta` from `start`, from `d` steps
/// out to 7, stopping off the board or at (and including) the first
/// occupied square.
pub open spec fn ray_from(start: BoardLocation, delta: (int, int), masks: CollisionMasks, d: int) -> Seq<
    BoardLocation,
>
    decreases 8 - d,
{
    if d < 1 || d > 7 {
        Seq::empty()
    } else {
        match start.checked_move((delta.0 * d) as i8, (delta.1 * d) as i8) {
            Ok(x) => if collision_of(x, masks) is Some {
                seq![x]
            } else {
                seq![x] + ray_from(start, delta, masks, d + 1)
            },
            Err(_) => Seq::empty(),
        }
    }
}

/// The bishop's rays in directions `0..n`, in direction order.
pub open spec fn bishop_targets(start: BoardLocation, masks: CollisionMasks, n: int) -> Seq<BoardLocation>
    decreases n,
{
    if n <= 0 {
        Seq::empty()
    } else {
        bishop_targets(start, masks, n - 1) + ray_from(start, bishop_delta((n - 1) as u8), masks, 1)
    }
}

/// The rook's rays in directions `0..n`, in direction order.
pub open spec fn rook_targets(start: BoardLocation, masks: CollisionMasks, n: int) -> Seq<BoardLocation>
    decreases n,
{
    if n <= 0 {
        Seq::empty()
    } else {
        rook_targets(start, masks, n - 1) + ray_from(start, rook_delta((n - 1) as u8), masks, 1)
    }
}

/// The queen's rays: for each direction `0..n`, the rook ray then the
/// bishop ray.
pub open spec fn queen_targets(start: BoardLocation, masks: CollisionMasks, n: int) -> Seq<BoardLocation>
    decreases n,
{
    if n <= 0 {
        Seq::empty()
    } else {
        queen_targets(start, masks, n - 1) + ray_from(start, rook_delta((n - 1) as u8), masks, 1)
            + ray_from(start, bishop_delta((n - 1) as u8), masks, 1)
    }
}

/// The on-board squares one jump away along `delta`.
pub open spec fn leap(start: BoardLocation, delta: (int, int)) -> Seq<BoardLocation> {
    match start.checked_move(delta.0 as i8, delta.1 as i8) {
        Ok(x) => seq![x],
        Err(_) => Seq::empty(),
    }
}

/// The knight's on-board jumps in directions `0..n`.
pub open spec fn knight_targets(start: BoardLocation, n: int) -> Seq<BoardLocation>
    decreases n,
{
    if n <= 0 {
        Seq::empty()
    } else {
        knight_targets(start, n - 1) + leap(start, knight_delta((n - 1) as u8))
    }
}

/// The king's on-board steps in directions `0..n`.
pub open spec fn king_targets(start: BoardLocation, n: int) -> Seq<BoardLocation>
    decreases n,
{
    if n <= 0 {
        Seq::empty()
    } else {
        king_targets(start, n - 1) + leap(start, king_delta((n - 1) as u8))
    }
}

/// Whether a pawn of `team` stands on its starting rank.
pub open spec fn on_start_rank(start: BoardLocation, team: PieceTeam) -> bool {
    (start.rank_of() == 1 && team == PieceTeam::Light) || (start.rank_of() == 6 && team
        == PieceTeam::Dark)
}

/// The pawn's forward targets: one step when on the board and free, then
/// two steps when the pawn is on its starting rank and that square is on
/// the board and free too. A pawn never moves onto an occupied square
/// straight ahead.
pub open spec fn pawn_pushes(start: BoardLocation, masks: CollisionMasks, team: PieceTeam) -> Seq<
    BoardLocation,
> {
    match start.checked_move(0, forward(team) as i8) {
        Ok(x) => if collision_of(x, masks) is None {
            if on_start_rank(start, team) {
                match start.checked_move(0, (2 * forward(team)) as i8) {
                    Ok(y) => if collision_of(y, masks) is None {
                        seq![x, y]
                    } else {
                        seq![x]
                    },
                    Err(_) => seq![x],
                }
            } else {
                seq![x]
            }
        } else {
            Seq::empty()
        },
        Err(_) => Seq::empty(),
    }
}

/// The diagonal square `d_file` files across, kept when occupied: by either
/// side (`any_side`) or only by the other side (`!any_side`).
pub open spec fn pawn_capture(
    start: BoardLocation,
    masks: CollisionMasks,
    team: PieceTeam,
    d_file: i8,
    any_side: bool,
) -> Seq<BoardLocation> {
    match start.checked_move(d_file, forward(team) as i8) {
        Ok(x) => if collision_of(x, masks) is Some && (any_side || collision_of(x, masks) != Some(team)) {
            seq![x]
        } else {
            Seq::empty()
        },
        Err(_) => Seq::empty(),
    }
}

/// All pawn targets: pushes, then the capture to the left, then the one to
/// the right.
pub open spec fn pawn_targets(start: BoardLocation, masks: CollisionMasks, team: PieceTeam, any_side: bool) -> Seq<
    BoardLocation,
> {
    pawn_pushes(start, masks, team) + pawn_capture(start, masks, team, -1i8, any_side) + pawn_capture(
        start,
        masks,
        team,
        1,
        any_side,
    )
}

/// Candidate targets sorted into free squares and squares occupied by each
/// side.
#[derive(Debug, Clone)]
pub struct GenerateLevel1Result {
    pub no_collisions: Vec<BoardLocation>,
    pub light_collisions: Vec<BoardLocation>,
    pub dark_collisions: Vec<BoardLocation>,
}

impl GenerateLevel1Result {
    /// The three lists are exactly the targets of `targets` sorted by
    /// collision class, each in the order of `targets`.
    pub open spec fn sorts(self, targets: Seq<BoardLocation>, masks: CollisionMasks) -> bool {
        &&& self.no_collisions@ == bucket(targets, masks, None)
        &&& self.light_collisions@ == bucket(targets, masks, Some(PieceTeam::Light))
        &&& self.dark_collisions@ == bucket(targets, masks, Some(PieceTeam::Dark))
    }

    /// An empty result.
    pub fn new() -> (r: Self)
        ensures
            r.no_collisions@ == Seq::<BoardLocation>::empty(),
            r.light_collisions@ == Seq::<BoardLocation>::empty(),
            r.dark_collisions@ == Seq::<BoardLocation>::empty(),
    {
        GenerateLevel1Result {
            no_collisions: Vec::new(),
            light_collisions: Vec::new(),
            dark_collisions: Vec::new(),
        }
    }

    /// The side whose piece stands on `x`, if any (Light's mask first).
    pub fn sort_raw_move(&self, x: BoardLocation, masks: &CollisionMasks) -> (r: Option<PieceTeam>)
        ensures
            r == collision_of(x, *masks),
    {
        if x.binary_location & masks.light_mask > 0 {
            Some(PieceTeam::Light)
        } else if x.binary_location & masks.dark_mask > 0 {
            Some(PieceTeam::Dark)
        } else {
            None
        }
    }

    /// Append `x` to the list of its collision class; true when it
    /// collided.
    pub fn add_and_sort_raw_move(&mut self, x: BoardLocation, masks: &CollisionMasks) -> (r: bool)
        ensures
            r == collision_of(x, *masks) is Some,
            final(self).no_collisions@ == if collision_of(x, *masks) is None {
                old(self).no_collisions@.push(x)
            } else {
                old(self).no_collisions@
            },
            final(self).light_collisions@ == if collision_of(x, *masks) == Some(PieceTeam::Light) {
                old(self).light_collisions@.push(x)
            } else {
                old(self).light_collisions@
            },
            final(self).dark_collisions@ == if collision_of(x, *masks) == Some(PieceTeam::Dark) {
                old(self).dark_collisions@.push(x)
            } else {
                old(self).dark_collisions@
            },
    {
        let sort = self.sort_raw_move(x, masks);
        self.add_sorted_moves(x, sort)
    }

    /// Append `x` to the list named by `sort`; true when `sort` names a
    /// side.
    pub fn add_sorted_moves(&mut self, x: BoardLocation, sort: Option<PieceTeam>) -> (r: bool)
        ensures
            r == sort is Some,
            final(self).no_collisions@ == if sort is None {
                old(self).no_collisions@.push(x)
            } else {
                old(self).no_collisions@
            },
            final(self).light_collisions@ == if sort == Some(PieceTeam::Light) {
                old(self).light_collisions@.push(x)
            } else {
                old(self).light_collisions@
            },
            final(self).dark_collisions@ == if sort == Some(PieceTeam::Dark) {
                old(self).dark_collisions@.push(x)
            } else {
                old(self).dark_collisions@
            },
    {
        match sort {
            Some(PieceTeam::Light) => {
                self.light_collisions.push(x);
                true
            },
            Some(PieceTeam::Dark) => {
                self.dark_collisions.push(x);
                true
            },
            None => {
                self.no_collisions.push(x);
                false
            },
        }
    }

    /// The number of targets found.
    pub fn len(&self) -> (r: usize)
        requires
            self.light_collisions.len() + self.dark_collisions.len() + self.no_collisions.len()
                <= usize::MAX,
        ensures
            r == self.light_collisions.len() + self.dark_collisions.len() + self.no_collisions.len(),
    {
        self.light_collisions.len() + self.dark_collisions.len() + self.no_collisions.len()
    }
}

/// Sorting one more target keeps the result in step with the target list.
proof fn lemma_sorts_push(
    before: GenerateLevel1Result,
    after: GenerateLevel1Result,
    targets: Seq<BoardLocation>,
    x: BoardLocation,
    masks: CollisionMasks,
)
    requires
        before.sorts(targets, masks),
        after.no_collisions@ == if collision_of(x, masks) is None {
            before.no_collisions@.push(x)
        } else {
            before.no_collisions@
        },
        after.light_collisions@ == if collision_of(x, masks) == Some(PieceTeam::Light) {
            before.light_collisions@.push(x)
        } else {
            before.light_collisions@
        },
        after.dark_collisions@ == if collision_of(x, masks) == Some(PieceTeam::Dark) {
            before.dark_collisions@.push(x)
        } else {
            before.dark_collisions@
        },
    ensures
        after.sorts(targets.push(x), masks),
{
    lemma_bucket_push(targets, x, masks, None);
    lemma_bucket_push(targets, x, masks, Some(PieceTeam::Light));
    lemma_bucket_push(targets, x, masks, Some(PieceTeam::Dark));
}

/// The direction vector of slider `direction` (rook or bishop).
pub open spec fn slide_delta(rook: bool, direction: u8) -> (int, int) {
    if rook {
        rook_delta(direction)
    } else {
        bishop_delta(direction)
    }
}

/// A step of 1..=7 squares along a unit direction from an occupied
/// location stays within the bounds the movement generators need.
pub proof fn lemma_slide_defined(start: BoardLocation, rook: bool, direction: u8, distance: u8)
    requires
        start.binary_location != 0,
        direction < 4,
        distance <= 7,
    ensures
        scaled_move_defined(start, slide_delta(rook, direction), distance),
{
    let d = slide_delta(rook, direction);
    let m = (distance as i8) as int;
    assert(m == distance as int);
    assert(-1 <= d.0 <= 1 && -1 <= d.1 <= 1);
    assert(-7 <= d.0 * m <= 7) by (nonlinear_arith)
        requires
            -1 <= d.0 <= 1,
            0 <= m <= 7,
    ;
    assert(-7 <= d.1 * m <= 7) by (nonlinear_arith)
        requires
            -1 <= d.1 <= 1,
            0 <= m <= 7,
    ;
    assert(0 <= start.file_of() <= 7);
    assert(0 <= start.rank_of() <= 7);
}

/// Sort the squares of one ray into `result`.
fn push_ray(
    result: &mut GenerateLevel1Result,
    Ghost(done): Ghost<Seq<BoardLocation>>,
    start: BoardLocation,
    masks: &CollisionMasks,
    rook: bool,
    direction: u8,
)
    requires
        start.binary_location != 0,
        direction < 4,
        old(result).sorts(done, *masks),
    ensures
        final(result).sorts(done + ray_from(start, slide_delta(rook, direction), *masks, 1), *masks),
{
    let ghost delta = slide_delta(rook, direction);
    let ghost mut acc: Seq<BoardLocation> = Seq::empty();
    let mut distance: u8 = 1;
    assert(done + acc =~= done);
    while distance < 8
        invariant_except_break
            1 <= distance <= 8,
            ray_from(start, delta, *masks, 1) =~= acc + ray_from(start, delta, *masks, distance as int),
        invariant
            start.binary_location != 0,
            direction < 4,
            delta == slide_delta(rook, direction),
            result.sorts(done + acc, *masks),
        ensures
            result.sorts(done + ray_from(start, delta, *masks, 1), *masks),
        decreases 8 - distance,
    {
        assert((distance as i8) as int == distance as int);
        proof {
            lemma_slide_defined(start, rook, direction, distance);
        }
        let m = if rook {
            generate_rook_movement(start, direction, distance)
        } else {
            generate_bishop_movement(start, direction, distance)
        };
        assert(m == start.checked_move((delta.0 * distance) as i8, (delta.1 * distance) as i8));
        match m {
            Ok(x) => {
                let ghost before = *result;
                let sort = result.sort_raw_move(x, masks);
                result.add_sorted_moves(x, sort);
                proof {
                    lemma_sorts_push(before, *result, done + acc, x, *masks);
                    assert((done + acc).push(x) =~= done + acc.push(x));
                    acc = acc.push(x);
                }
                if sort.is_some() {
                    assert(ray_from(start, delta, *masks, 1) =~= acc);
                    break;
                }
                assert(ray_from(start, delta, *masks, 1) =~= acc + ray_from(
                    start,
                    delta,
                    *masks,
                    distance as int + 1,
                ));
            },
            Err(_) => {
                assert(ray_from(start, delta, *masks, 1) =~= acc);
                break;
            },
        }
        distance = distance + 1;
    }
}

/// Pawn targets at the first level: the free squares ahead, then the
/// forward diagonal squares that hold a piece of either side, each sorted
/// by collision.
pub fn generate_pawn_moves_level_1(start: BoardLocation, masks: &CollisionMasks, team: PieceTeam) -> (r:
    Result<GenerateLevel1Result, ChessErrors>)
    requires
        start.binary_location != 0,
    ensures
        r is Ok,
        r.unwrap().sorts(pawn_targets(start, *masks, team, true), *masks),
{
    let mut result = GenerateLevel1Result::new();
    let ghost mut done: Seq<BoardLocation> = Seq::empty();
    assert(result.sorts(done, *masks));
    if let Ok(x) = generate_pawn_single_step_movement(start, team) {
        if result.sort_raw_move(x, masks).is_none() {
            let ghost before = result;
            result.add_sorted_moves(x, None);
            proof {
                lemma_sorts_push(before, result, done, x, *masks);
                done = done.push(x);
            }
            let (_, start_rank) = start.get_file_rank();
            if (start_rank == 1 && matches!(team, PieceTeam::Light)) || (start_rank == 6 && matches!(team, PieceTeam::Dark)) {
                if let Ok(y) = generate_pawn_double_step_movement(start, team) {
                    if result.sort_raw_move(y, masks).is_none() {
                        let ghost before = result;
                        result.add_sorted_moves(y, None);
                        proof {
                            lemma_sorts_push(before, result, done, y, *masks);
                            done = done.push(y);
                        }
                    }
                }
            }
        }
    }
    assert(done =~= pawn_pushes(start, *masks, team));
    let mut d_file: i8 = -1;
    while d_file <= 1
        invariant
            d_file == -1 || d_file == 1 || d_file == 3,
            start.binary_location != 0,
            result.sorts(done, *masks),
            d_file == -1 ==> done == pawn_pushes(start, *masks, team),
            d_file == 1 ==> done == pawn_pushes(start, *masks, team) + pawn_capture(start, *masks, team, -1i8, true),
            d_file == 3 ==> done == pawn_targets(start, *masks, team, true),
        decreases 3 - d_file,
    {
        let ghost prev = done;
        if let Ok(x) = generate_pawn_capture_movement(start, team, d_file) {
            if let Some(y) = result.sort_raw_move(x, masks) {
                let ghost before = result;
                result.add_sorted_moves(x, Some(y));
                proof {
                    lemma_sorts_push(before, result, done, x, *masks);
                    done = done.push(x);
                }
            }
        }
        assert(done =~= prev + pawn_capture(start, *masks, team, d_file, true));
        d_file = d_file + 2;
    }
    Ok(result)
}

/// Bishop targets at the first level: the four rays, each sorted by
/// collision.
pub fn generate_bishop_moves_level_1(start: BoardLocation, masks: &CollisionMasks) -> (r: Result<
    GenerateLevel1Result,
    ChessErrors,
>)
    requires
        start.binary_location != 0,
    ensures
        r is Ok,
        r.unwrap().sorts(bishop_targets(start, *masks, 4), *masks),
{
    let mut result = GenerateLevel1Result::new();
    let mut direction: u8 = 0;
    assert(result.sorts(bishop_targets(start, *masks, 0), *masks));
    while direction < 4
        invariant
            direction <= 4,
            start.binary_location != 0,
            result.sorts(bishop_targets(start, *masks, direction as int), *masks),
        decreases 4 - direction,
    {
        push_ray(&mut result, Ghost(bishop_targets(start, *masks, direction as int)), start, masks, false, direction);
        direction = direction + 1;
    }
    Ok(result)
}

/// Rook targets at the first level: the four rays, each sorted by
/// collision.
pub fn generate_rook_moves_level_1(start: BoardLocation, masks: &CollisionMasks) -> (r: Result<
    GenerateLevel1Result,
    ChessErrors,
>)
    requires
        start.binary_location != 0,
    ensures
        r is Ok,
        r.unwrap().sorts(rook_targets(start, *masks, 4), *masks),
{
    let mut result = GenerateLevel1Result::new();
    let mut direction: u8 = 0;
    assert(result.sorts(rook_targets(start, *masks, 0), *masks));
    while direction < 4
        invariant
            direction <= 4,
            start.binary_location != 0,
            result.sorts(rook_targets(start, *masks, direction as int), *masks),
        decreases 4 - direction,
    {
        push_ray(&mut result, Ghost(rook_targets(start, *masks, direction as int)), start, masks, true, direction);
        direction = direction + 1;
    }
    Ok(result)
}

/// Queen targets at the first level: per direction the rook ray then the
/// bishop ray, each sorted by collision.
pub fn generate_queen_moves_level_1(start: BoardLocation, masks: &CollisionMasks) -> (r: Result<
    GenerateLevel1Result,
    ChessErrors,
>)
    requires
        start.binary_location != 0,
    ensures
        r is Ok,
        r.unwrap().sorts(queen_targets(start, *masks, 4), *masks),
{
    let mut result = GenerateLevel1Result::new();
    let mut direction: u8 = 0;
    assert(result.sorts(queen_targets(start, *masks, 0), *masks));
    while direction < 4
        invariant
            direction <= 4,
            start.binary_location != 0,
            result.sorts(queen_targets(start, *masks, direction as int), *masks),
        decreases 4 - direction,
    {
        let ghost done = queen_targets(start, *masks, direction as int);
        push_ray(&mut result, Ghost(done), start, masks, true, direction);
        let ghost mid = done + ray_from(start, rook_delta(direction), *masks, 1);
        push_ray(&mut result, Ghost(mid), start, masks, false, direction);
        direction = direction + 1;
    }
    Ok(result)
}

/// Knight targets at the first level: the on-board jumps, each sorted by
/// collision.
pub fn generate_knight_moves_level_1(start: BoardLocation, masks: &CollisionMasks) -> (r: Result<
    GenerateLevel1Result,
    ChessErrors,
>)
    requires
        start.binary_location != 0,
    ensures
        r is Ok,
        r.unwrap().sorts(knight_targets(start, 8), *masks),
{
    let mut result = GenerateLevel1Result::new();
    let mut direction: u8 = 0;
    assert(result.sorts(knight_targets(start, 0), *masks));
    while direction < 8
        invariant
            direction <= 8,
            start.binary_location != 0,
            result.sorts(knight_targets(start, direction as int), *masks),
        decreases 8 - direction,
    {
        let ghost done = knight_targets(start, direction as int);
        if let Ok(x) = generate_knight_movement(start, direction) {
            let ghost before = result;
            let sort = result.sort_raw_move(x, masks);
            result.add_sorted_moves(x, sort);
            proof {
                lemma_sorts_push(before, result, done, x, *masks);
                assert(done.push(x) =~= done + leap(start, knight_delta(direction)));
            }
        } else {
            assert(done =~= done + leap(start, knight_delta(direction)));
        }
        direction = direction + 1;
    }
    Ok(result)
}

/// King targets at the first level: the on-board steps, each sorted by
/// collision.
pub fn generate_king_moves_level_1(start: BoardLocation, masks: &CollisionMasks) -> (r: Result<
    GenerateLevel1Result,
    ChessErrors,
>)
    requires
        start.binary_location != 0,
    ensures
        r is Ok,
        r.unwrap().sorts(king_targets(start, 8), *masks),
{
    let mut result = GenerateLevel1Result::new();
    let mut direction: u8 = 0;
    assert(result.sorts(king_targets(start, 0), *masks));
    while direction < 8
        invariant
            direction <= 8,
            start.binary_location != 0,
            result.sorts(king_targets(start, direction as int), *masks),
        decreases 8 - direction,
    {
        let ghost done = king_targets(start, direction as int);
        if let Ok(x) = generate_king_movement(start, direction) {
            let ghost before = result;
            let sort = result.sort_raw_move(x, masks);
            result.add_sorted_moves(x, sort);
            proof {
                lemma_sorts_push(before, result, done, x, *masks);
                assert(done.push(x) =~= done + leap(start, king_delta(direction)));
            }
        } else {
            assert(done =~= done + leap(start, king_delta(direction)));
        }
        direction = direction + 1;
    }
    Ok(result)
}


/// Every location of the sequence is a single square.
pub open spec fn all_occupy_a_square(s: Seq<BoardLocation>) -> bool {
    forall|i: int| 0 <= i < s.len() ==> single_square(#[trigger] s[i])
}

/// A bounds-checked move that succeeds lands on a single square.
pub proof fn lemma_checked_move_nonzero(loc: BoardLocation, df: i8, dr: i8)
    ensures
        loc.checked_move(df, dr) matches Ok(x) ==> single_square(x),
{
    if loc.checked_move(df, dr) is Ok {
        let f = loc.file_of() + df;
        let r = loc.rank_of() + dr;
        crate::board_location::lemma_top_bit_single((8 * f + r) as u64);
    }
}

/// Concatenation keeps every location on a square.
pub proof fn lemma_concat_occupy(a: Seq<BoardLocation>, b: Seq<BoardLocation>)
    requires
        all_occupy_a_square(a),
        all_occupy_a_square(b),
    ensures
        all_occupy_a_square(a + b),
{
    assert forall|i: int| 0 <= i < (a + b).len() implies single_square(#[trigger] (a + b)[i]) by {
        if i < a.len() {
            assert((a + b)[i] == a[i]);
        } else {
            assert((a + b)[i] == b[i - a.len()]);
        }
    }
}

/// A ray's squares are squares.
proof fn lemma_ray_occupy(start: BoardLocation, delta: (int, int), masks: CollisionMasks, d: int)
    ensures
        all_occupy_a_square(ray_from(start, delta, masks, d)),
    decreases 8 - d,
{
    if 1 <= d <= 7 {
        lemma_checked_move_nonzero(start, (delta.0 * d) as i8, (delta.1 * d) as i8);
        lemma_ray_occupy(start, delta, masks, d + 1);
        match start.checked_move((delta.0 * d) as i8, (delta.1 * d) as i8) {
            Ok(x) => {
                lemma_concat_occupy(seq![x], ray_from(start, delta, masks, d + 1));
            },
            Err(_) => {},
        }
    }
}

/// A piece's candidate targets are squares.
pub proof fn lemma_targets_occupy(start: BoardLocation, masks: CollisionMasks, team: PieceTeam, any_side: bool, n: int)
    ensures
        all_occupy_a_square(bishop_targets(start, masks, n)),
        all_occupy_a_square(rook_targets(start, masks, n)),
        all_occupy_a_square(queen_targets(start, masks, n)),
        all_occupy_a_square(knight_targets(start, n)),
        all_occupy_a_square(king_targets(start, n)),
        all_occupy_a_square(pawn_targets(start, masks, team, any_side)),
    decreases n,
{
    if n > 0 {
        lemma_targets_occupy(start, masks, team, any_side, n - 1);
        let b = bishop_delta((n - 1) as u8);
        let r = rook_delta((n - 1) as u8);
        lemma_ray_occupy(start, b, masks, 1);
        lemma_ray_occupy(start, r, masks, 1);
        lemma_concat_occupy(bishop_targets(start, masks, n - 1), ray_from(start, b, masks, 1));
        lemma_concat_occupy(rook_targets(start, masks, n - 1), ray_from(start, r, masks, 1));
        lemma_concat_occupy(queen_targets(start, masks, n - 1), ray_from(start, r, masks, 1));
        lemma_concat_occupy(
            queen_targets(start, masks, n - 1) + ray_from(start, r, masks, 1),
            ray_from(start, b, masks, 1),
        );
        let kd = knight_delta((n - 1) as u8);
        let gd = king_delta((n - 1) as u8);
        lemma_checked_move_nonzero(start, kd.0 as i8, kd.1 as i8);
        lemma_checked_move_nonzero(start, gd.0 as i8, gd.1 as i8);
        lemma_concat_occupy(knight_targets(start, n - 1), leap(start, kd));
        lemma_concat_occupy(king_targets(start, n - 1), leap(start, gd));
    }
    lemma_checked_move_nonzero(start, 0, forward(team) as i8);
    lemma_checked_move_nonzero(start, 0, (2 * forward(team)) as i8);
    lemma_checked_move_nonzero(start, -1i8, forward(team) as i8);
    lemma_checked_move_nonzero(start, 1, forward(team) as i8);
    let pushes = pawn_pushes(start, masks, team);
    let left = pawn_capture(start, masks, team, -1i8, any_side);
    let right = pawn_capture(start, masks, team, 1, any_side);
    lemma_concat_occupy(pushes, left);
    lemma_concat_occupy(pushes + left, right);
}

/// Sorting keeps only squares of the targets.
pub proof fn lemma_bucket_occupy(targets: Seq<BoardLocation>, masks: CollisionMasks, class: Option<PieceTeam>)
    requires
        all_occupy_a_square(targets),
    ensures
        all_occupy_a_square(bucket(targets, masks, class)),
    decreases targets.len(),
{
    if targets.len() > 0 {
        assert(all_occupy_a_square(targets.drop_last()));
        lemma_bucket_occupy(targets.drop_last(), masks, class);
        assert(targets.last() == targets[targets.len() - 1]);
    }
}

} // verus!
