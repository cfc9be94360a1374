use vstd::prelude::*;
use rand::rngs::StdRng;
use rand::Rng;
use crate::board::{capture_cost, has_legal_move, index_of, is_legal, move_cost};
use crate::cell::{Cell, PlayerTurn};

verus! {

/// An error chance is given in millionths: `ERROR_SCALE` means that every
/// move of the automated opponent is a random one.
pub const ERROR_SCALE: u32 = 1_000_000;

#[verifier::external_type_specification]
#[verifier::external_body]
pub struct ExStdRng(StdRng);

/// Relies on rand's `Rng::gen_range` on a half-open range: it returns a
/// value in `0..bound`, and panics only where the range is empty.
#[verifier::external_body]
fn draw_below(rng: &mut StdRng, bound: u32) -> (r: u32)
    requires
        bound > 0,
    ensures
        r < bound,
{
    rng.gen_range(0..bound)
}

/// A best move for `t`: legal, turning over as many discs as any legal move,
/// and before every other such move in row-major order.
pub open spec fn is_best_move(b: Seq<Cell>, t: PlayerTurn, x: int, y: int) -> bool {
    &&& is_legal(b, t, x, y)
    &&& forall|x2: int, y2: int| #[trigger]
        is_legal(b, t, x2, y2) ==> {
            &&& capture_cost(b, t, x2, y2) <= capture_cost(b, t, x, y)
            &&& index_of(x2, y2) < index_of(x, y) ==> capture_cost(b, t, x2, y2) < capture_cost(
                b,
                t,
                x,
                y,
            )
        }
}

/// The legal moves of `t` in row-major order, each as (x, y, discs turned
/// over).
pub fn legal_moves(b: &Vec<Cell>, t: PlayerTurn) -> (r: Vec<(usize, usize, u64)>)
    requires
        b@.len() == 64,
    ensures
        r@.len() <= 64,
        forall|i: int|
            0 <= i < r@.len() ==> {
                let (x, y, c) = #[trigger] r@[i];
                &&& is_legal(b@, t, x as int, y as int)
                &&& c == capture_cost(b@, t, x as int, y as int)
            },
        forall|x: int, y: int| #[trigger]
            is_legal(b@, t, x, y) ==> exists|i: int|
                0 <= i < r@.len() && (#[trigger] r@[i]).0 == x && r@[i].1 == y,
        forall|i: int, j: int|
            0 <= i < j < r@.len() ==> index_of(r@[i].0 as int, r@[i].1 as int) < index_of(
                r@[j].0 as int,
                r@[j].1 as int,
            ),
{
    let mut r: Vec<(usize, usize, u64)> = Vec::new();
    let mut y: usize = 0;
    while y < 8
        invariant
            b@.len() == 64,
            y <= 8,
            r@.len() <= y * 8,
            forall|i: int|
                0 <= i < r@.len() ==> {
                    let (x, y, c) = #[trigger] r@[i];
                    &&& is_legal(b@, t, x as int, y as int)
                    &&& c == capture_cost(b@, t, x as int, y as int)
                },
            forall|x: int, y2: int| #[trigger]
                is_legal(b@, t, x, y2) && y2 < y ==> exists|i: int|
                    0 <= i < r@.len() && (#[trigger] r@[i]).0 == x && r@[i].1 == y2,
            forall|i: int| 0 <= i < r@.len() ==> index_of(r@[i].0 as int, r@[i].1 as int) < y * 8,
            forall|i: int, j: int|
                0 <= i < j < r@.len() ==> index_of(r@[i].0 as int, r@[i].1 as int) < index_of(
                    r@[j].0 as int,
                    r@[j].1 as int,
                ),
        decreases 8 - y,
    {
        let mut x: usize = 0;
        while x < 8
            invariant
                b@.len() == 64,
                y < 8,
                x <= 8,
                r@.len() <= y * 8 + x,
                forall|i: int|
                    0 <= i < r@.len() ==> {
                        let (x, y, c) = #[trigger] r@[i];
                        &&& is_legal(b@, t, x as int, y as int)
                        &&& c == capture_cost(b@, t, x as int, y as int)
                    },
                forall|x2: int, y2: int| #[trigger]
                    is_legal(b@, t, x2, y2) && (y2 < y || (y2 == y && x2 < x)) ==> exists|i: int|
                        0 <= i < r@.len() && (#[trigger] r@[i]).0 == x2 && r@[i].1 == y2,
                forall|i: int|
                    0 <= i < r@.len() ==> index_of(r@[i].0 as int, r@[i].1 as int) < y * 8 + x,
                forall|i: int, j: int|
                    0 <= i < j < r@.len() ==> index_of(r@[i].0 as int, r@[i].1 as int) < index_of(
                        r@[j].0 as int,
                        r@[j].1 as int,
                    ),
            decreases 8 - x,
        {
            match move_cost(b, t, x, y) {
                Some(c) => {
                    let ghost old_r = r@;
                    r.push((x, y, c));
                    proof {
                        assert forall|x2: int, y2: int| #[trigger]
                            is_legal(b@, t, x2, y2) && (y2 < y || (y2 == y && x2 < x + 1)) implies exists|i: int|
                                0 <= i < r@.len() && (#[trigger] r@[i]).0 == x2 && r@[i].1 == y2 by {
                            if y2 == y && x2 == x {
                                assert(r@[old_r.len() as int].0 == x2);
                            } else {
                                let i = choose|i: int|
                                    0 <= i < old_r.len() && (#[trigger] old_r[i]).0 == x2 && old_r[i].1 == y2;
                                assert(r@[i] == old_r[i]);
                            }
                        }
                    }
                },
                None => {},
            }
            x += 1;
        }
        y += 1;
    }
    r
}

/// Whether `t` has a legal move anywhere on the board.
pub fn can_move(b: &Vec<Cell>, t: PlayerTurn) -> (r: bool)
    requires
        b@.len() == 64,
    ensures
        r == has_legal_move(b@, t),
{
    let moves = legal_moves(b, t);
    proof {
        if moves@.len() > 0 {
            assert(is_legal(b@, t, moves@[0].0 as int, moves@[0].1 as int));
        } else {
            assert forall|x: int, y: int| !is_legal(b@, t, x, y) by {
                if is_legal(b@, t, x, y) {
                    let i = choose|i: int| 0 <= i < moves@.len() && (#[trigger] moves@[i]).0 == x && moves@[i].1 == y;
                }
            }
        }
    }
    moves.len() > 0
}

/// Position in `moves` of the first move that turns over the most discs.
pub fn best_move(moves: &Vec<(usize, usize, u64)>) -> (r: usize)
    requires
        moves@.len() > 0,
    ensures
        r < moves@.len(),
        forall|j: int| 0 <= j < moves@.len() ==> (#[trigger] moves@[j]).2 <= moves@[r as int].2,
        forall|j: int| 0 <= j < r ==> (#[trigger] moves@[j]).2 < moves@[r as int].2,
{
    let mut best: usize = 0;
    let mut i: usize = 1;
    while i < moves.len()
        invariant
            moves@.len() > 0,
            best < i <= moves@.len(),
            forall|j: int| 0 <= j < i ==> (#[trigger] moves@[j]).2 <= moves@[best as int].2,
            forall|j: int| 0 <= j < best ==> (#[trigger] moves@[j]).2 < moves@[best as int].2,
        decreases moves@.len() - i,
    {
        if moves[i].2 > moves[best].2 {
            best = i;
        }
        i += 1;
    }
    best
}

/// Which of `moves` the automated opponent plays, given its two draws: the
/// move at `pick` where `roll` falls below `error_chance`, and otherwise the
/// first move that turns over the most discs.
pub fn choose_move(moves: &Vec<(usize, usize, u64)>, roll: u32, pick: u32, error_chance: u32) -> (r:
    usize)
    requires
        moves@.len() > 0,
        pick < moves@.len(),
    ensures
        r < moves@.len(),
        roll < error_chance ==> r == pick,
        roll >= error_chance ==> {
            &&& forall|j: int| 0 <= j < moves@.len() ==> (#[trigger] moves@[j]).2 <= moves@[r as int].2
            &&& forall|j: int| 0 <= j < r ==> (#[trigger] moves@[j]).2 < moves@[r as int].2
        },
{
    if roll < error_chance {
        pick as usize
    } else {
        best_move(moves)
    }
}

/// The automated opponent's move for `t`, or `None` where `t` has no legal
/// move. With chance `error_chance` millionths the move is drawn at random
/// among the legal ones; otherwise it is the best move.
pub fn select_move(b: &Vec<Cell>, t: PlayerTurn, error_chance: u32, rng: &mut StdRng) -> (r: Option<
    (usize, usize),
>)
    requires
        b@.len() == 64,
    ensures
        r is None <==> !has_legal_move(b@, t),
        r is Some ==> is_legal(b@, t, r.unwrap().0 as int, r.unwrap().1 as int),
        r is Some && error_chance == 0 ==> is_best_move(b@, t, r.unwrap().0 as int, r.unwrap().1 as int),
{
    let moves = legal_moves(b, t);
    if moves.len() == 0 {
        proof {
            assert forall|x: int, y: int| !is_legal(b@, t, x, y) by {
                if is_legal(b@, t, x, y) {
                    let i = choose|i: int| 0 <= i < moves@.len() && (#[trigger] moves@[i]).0 == x && moves@[i].1 == y;
                }
            }
        }
        return None;
    }
    proof {
        assert(is_legal(b@, t, moves@[0].0 as int, moves@[0].1 as int));
    }
    let roll = draw_below(rng, ERROR_SCALE);
    let pick = if roll < error_chance {
        draw_below(rng, moves.len() as u32)
    } else {
        0
    };
    let i = choose_move(&moves, roll, pick, error_chance);
    let (x, y, _) = moves[i];
    proof {
        if roll >= error_chance {
            assert forall|x2: int, y2: int| #[trigger]
                is_legal(b@, t, x2, y2) implies {
                    &&& capture_cost(b@, t, x2, y2) <= capture_cost(b@, t, x as int, y as int)
                    &&& index_of(x2, y2) < index_of(x as int, y as int) ==> capture_cost(b@, t, x2, y2)
                        < capture_cost(b@, t, x as int, y as int)
                } by {
                let j = choose|j: int| 0 <= j < moves@.len() && (#[trigger] moves@[j]).0 == x2 && moves@[j].1 == y2;
                if j > i {
                    assert(index_of(moves@[i as int].0 as int, moves@[i as int].1 as int) < index_of(
                        moves@[j].0 as int,
                        moves@[j].1 as int,
                    ));
                }
            }
        }
    }
    Some((x, y))
}

} // verus!
