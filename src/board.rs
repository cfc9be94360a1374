use vstd::prelude::*;
use crate::cell::{Cell, PlayerTurn};

verus! {

/// Why a move was not played.
#[derive(PartialEq, Eq, Structural, Clone, Copy, Debug)]
pub enum MoveError {
    /// The cell is taken, or no direction holds a capturing bracket.
    IllegalMove,
    /// The coordinates lie off the board.
    OutOfBounds,
}

/// Number of columns and of rows of the board.
pub const SIDE: usize = 8;

/// Number of cells of the board.
pub const CELLS: usize = 64;

/// Whether (x, y) names a cell of the board.
pub open spec fn in_bounds(x: int, y: int) -> bool {
    0 <= x < 8 && 0 <= y < 8
}

/// Position of cell (x, y) in the row-major sequence of cells.
pub open spec fn index_of(x: int, y: int) -> int {
    y * 8 + x
}

/// Horizontal step of compass direction `d` (0 to 7).
pub open spec fn dir_dx(d: int) -> int {
    if d == 0 || d == 4 || d == 5 {
        1
    } else if d == 2 || d == 6 || d == 7 {
        -1
    } else {
        0
    }
}

/// Vertical step of compass direction `d` (0 to 7).
pub open spec fn dir_dy(d: int) -> int {
    if d == 1 || d == 4 || d == 6 {
        1
    } else if d == 3 || d == 5 || d == 7 {
        -1
    } else {
        0
    }
}

/// Walking from (x, y) by (dx, dy): the number of consecutive discs of the
/// opponent of `t` that are followed by a disc of `t`, or `None` where the
/// run ends at a free cell or at the edge of the board.
pub open spec fn run_to_anchor(
    b: Seq<Cell>,
    t: PlayerTurn,
    x: int,
    y: int,
    dx: int,
    dy: int,
    fuel: nat,
) -> Option<nat>
    decreases fuel,
{
    if fuel == 0 {
        None
    } else if !in_bounds(x + dx, y + dy) {
        None
    } else if b[index_of(x + dx, y + dy)] == t.disc() {
        Some(0)
    } else if b[index_of(x + dx, y + dy)] == t.other().disc() {
        match run_to_anchor(b, t, x + dx, y + dy, dx, dy, (fuel - 1) as nat) {
            Some(n) => Some(n + 1),
            None => None,
        }
    } else {
        None
    }
}

/// The discs that a move of `t` at (x, y) captures in direction `d`:
/// the length of the bracketed run, or 0 where there is no bracket.
pub open spec fn captures(b: Seq<Cell>, t: PlayerTurn, x: int, y: int, d: int) -> nat {
    match run_to_anchor(b, t, x, y, dir_dx(d), dir_dy(d), 8) {
        Some(n) => n,
        None => 0,
    }
}

/// A move of `t` at (x, y) is legal: the cell is on the board and free, and
/// at least one direction holds a capturing bracket.
pub open spec fn is_legal(b: Seq<Cell>, t: PlayerTurn, x: int, y: int) -> bool {
    &&& in_bounds(x, y)
    &&& b[index_of(x, y)] == Cell::Free
    &&& exists|d: int| 0 <= d < 8 && #[trigger] captures(b, t, x, y, d) > 0
}

/// Whether side `t` has a legal move anywhere on the board.
pub open spec fn has_legal_move(b: Seq<Cell>, t: PlayerTurn) -> bool {
    exists|x: int, y: int| #[trigger] is_legal(b, t, x, y)
}

/// Sum of the captures over the first `k` directions.
pub open spec fn captures_upto(b: Seq<Cell>, t: PlayerTurn, x: int, y: int, k: int) -> nat
    decreases k,
{
    if k <= 0 {
        0
    } else {
        captures_upto(b, t, x, y, k - 1) + captures(b, t, x, y, k - 1)
    }
}

/// Total number of discs that a move of `t` at (x, y) turns over.
pub open spec fn capture_cost(b: Seq<Cell>, t: PlayerTurn, x: int, y: int) -> nat {
    captures_upto(b, t, x, y, 8)
}

/// The board with the `n` cells after (x, y) in direction (dx, dy) set to
/// the disc of `t`.
pub open spec fn flip_run(
    b: Seq<Cell>,
    t: PlayerTurn,
    x: int,
    y: int,
    dx: int,
    dy: int,
    n: nat,
) -> Seq<Cell>
    decreases n,
{
    if n == 0 {
        b
    } else {
        flip_run(
            b.update(index_of(x + dx, y + dy), t.disc()),
            t,
            x + dx,
            y + dy,
            dx,
            dy,
            (n - 1) as nat,
        )
    }
}

/// The board after a move of `t` at (x, y), with the captures of the first
/// `k` directions (as counted on `b`) turned over.
pub open spec fn after_dirs(b: Seq<Cell>, t: PlayerTurn, x: int, y: int, k: int) -> Seq<Cell>
    decreases k,
{
    if k <= 0 {
        b.update(index_of(x, y), t.disc())
    } else {
        flip_run(
            after_dirs(b, t, x, y, k - 1),
            t,
            x,
            y,
            dir_dx(k - 1),
            dir_dy(k - 1),
            captures(b, t, x, y, k - 1),
        )
    }
}

/// The board after `t` plays at (x, y): the disc placed, and every bracketed
/// run in each of the eight directions turned over.
pub open spec fn board_after_move(b: Seq<Cell>, t: PlayerTurn, x: int, y: int) -> Seq<Cell> {
    after_dirs(b, t, x, y, 8)
}

/// Number of cells equal to `c` from position `i` on.
pub open spec fn count_from(s: Seq<Cell>, c: Cell, i: int) -> nat
    decreases s.len() - i,
{
    if i < 0 || i >= s.len() {
        0
    } else {
        (if s[i] == c {
            1nat
        } else {
            0nat
        }) + count_from(s, c, i + 1)
    }
}

/// Number of cells equal to `c`.
pub open spec fn count(s: Seq<Cell>, c: Cell) -> nat {
    count_from(s, c, 0)
}

/// The step of compass direction `d`.
pub fn direction(d: usize) -> (r: (i64, i64))
    requires
        d < 8,
    ensures
        r.0 == dir_dx(d as int),
        r.1 == dir_dy(d as int),
{
    if d == 0 {
        (1, 0)
    } else if d == 1 {
        (0, 1)
    } else if d == 2 {
        (-1, 0)
    } else if d == 3 {
        (0, -1)
    } else if d == 4 {
        (1, 1)
    } else if d == 5 {
        (1, -1)
    } else if d == 6 {
        (-1, 1)
    } else {
        (-1, -1)
    }
}

fn anchor_run(
    b: &Vec<Cell>,
    t: PlayerTurn,
    x: i64,
    y: i64,
    dx: i64,
    dy: i64,
    fuel: u64,
) -> (r: Option<u64>)
    requires
        b@.len() == 64,
        in_bounds(x as int, y as int),
        -1 <= dx <= 1,
        -1 <= dy <= 1,
        fuel <= 8,
    ensures
        r is None <==> run_to_anchor(b@, t, x as int, y as int, dx as int, dy as int, fuel as nat) is None,
        r is Some ==> r.unwrap() < fuel && run_to_anchor(b@, t, x as int, y as int, dx as int, dy as int, fuel as nat)
            == Some(r.unwrap() as nat),
    decreases fuel,
{
    if fuel == 0 {
        return None;
    }
    let nx = x + dx;
    let ny = y + dy;
    if nx < 0 || nx >= 8 || ny < 0 || ny >= 8 {
        return None;
    }
    let c = b[(ny * 8 + nx) as usize];
    if c == t.produce() {
        Some(0)
    } else if t.is_reverse_of(&c) {
        match anchor_run(b, t, nx, ny, dx, dy, fuel - 1) {
            Some(n) => Some(n + 1),
            None => None,
        }
    } else {
        None
    }
}

/// The discs that a move of `t` at (x, y) captures in direction `d`.
pub fn captures_in(b: &Vec<Cell>, t: PlayerTurn, x: usize, y: usize, d: usize) -> (r: u64)
    requires
        b@.len() == 64,
        x < 8,
        y < 8,
        d < 8,
    ensures
        r == captures(b@, t, x as int, y as int, d as int),
        r < 8,
{
    let (dx, dy) = direction(d);
    match anchor_run(b, t, x as i64, y as i64, dx, dy, 8) {
        Some(n) => n,
        None => 0,
    }
}

/// The captures of a move of `t` at (x, y), one entry per direction.
pub fn captures_all(b: &Vec<Cell>, t: PlayerTurn, x: usize, y: usize) -> (r: Vec<u64>)
    requires
        b@.len() == 64,
        x < 8,
        y < 8,
    ensures
        r@.len() == 8,
        forall|d: int| 0 <= d < 8 ==> r@[d] == captures(b@, t, x as int, y as int, d),
        forall|d: int| 0 <= d < 8 ==> r@[d] < 8,
{
    let mut r: Vec<u64> = Vec::new();
    let mut d: usize = 0;
    while d < 8
        invariant
            b@.len() == 64,
            x < 8,
            y < 8,
            d <= 8,
            r@.len() == d,
            forall|e: int| 0 <= e < d ==> r@[e] == captures(b@, t, x as int, y as int, e),
            forall|e: int| 0 <= e < d ==> r@[e] < 8,
        decreases 8 - d,
    {
        let n = captures_in(b, t, x, y, d);
        r.push(n);
        d += 1;
    }
    r
}

/// Whether `t` may play at (x, y); false for a cell off the board.
pub fn is_legal_move(b: &Vec<Cell>, t: PlayerTurn, x: usize, y: usize) -> (r: bool)
    requires
        b@.len() == 64,
    ensures
        r == is_legal(b@, t, x as int, y as int),
{
    if x >= 8 || y >= 8 {
        return false;
    }
    if b[y * 8 + x] != Cell::Free {
        return false;
    }
    let mut d: usize = 0;
    while d < 8
        invariant
            b@.len() == 64,
            x < 8,
            y < 8,
            d <= 8,
            b@[index_of(x as int, y as int)] == Cell::Free,
            forall|e: int| 0 <= e < d ==> captures(b@, t, x as int, y as int, e) == 0,
        decreases 8 - d,
    {
        if captures_in(b, t, x, y, d) > 0 {
            assert(captures(b@, t, x as int, y as int, d as int) > 0);
            return true;
        }
        d += 1;
    }
    false
}

/// A positive total of captures means that some direction captures.
pub proof fn lemma_captures_upto_positive(b: Seq<Cell>, t: PlayerTurn, x: int, y: int, k: int)
    requires
        0 <= k <= 8,
    ensures
        captures_upto(b, t, x, y, k) > 0 <==> exists|d: int|
            0 <= d < k && #[trigger] captures(b, t, x, y, d) > 0,
        forall|d: int| 0 <= d < k ==> #[trigger] captures(b, t, x, y, d) <= captures_upto(b, t, x, y, k),
    decreases k,
{
    if k > 0 {
        lemma_captures_upto_positive(b, t, x, y, k - 1);
    }
}

/// A move is legal exactly when its cell is free and it turns at least one
/// disc over.
pub proof fn lemma_legal_iff_cost(b: Seq<Cell>, t: PlayerTurn, x: int, y: int)
    ensures
        is_legal(b, t, x, y) <==> (in_bounds(x, y) && b[index_of(x, y)] == Cell::Free
            && capture_cost(b, t, x, y) > 0),
{
    lemma_captures_upto_positive(b, t, x, y, 8);
}

/// Every cell is black, white or free.
pub proof fn lemma_count_total(s: Seq<Cell>, i: int)
    requires
        0 <= i <= s.len(),
    ensures
        count_from(s, Cell::Black, i) + count_from(s, Cell::White, i) + count_from(s, Cell::Free, i)
            == s.len() - i,
    decreases s.len() - i,
{
    if i < s.len() {
        lemma_count_total(s, i + 1);
    }
}

/// Cells that differ from `c` add nothing to its count.
pub proof fn lemma_count_skip(s: Seq<Cell>, c: Cell, i: int, j: int)
    requires
        0 <= i <= j <= s.len(),
        forall|k: int| i <= k < j ==> s[k] != c,
    ensures
        count_from(s, c, i) == count_from(s, c, j),
    decreases j - i,
{
    if i < j {
        lemma_count_skip(s, c, i + 1, j);
    }
}

/// A unit step taken `k` times.
proof fn lemma_unit_times(a: int, k: int)
    requires
        a == -1 || a == 0 || a == 1,
    ensures
        a * k == (if a == 1 {
            k
        } else if a == -1 {
            -k
        } else {
            0
        }),
{
    assert(a * k == (if a == 1 {
        k
    } else if a == -1 {
        -k
    } else {
        0
    })) by (nonlinear_arith)
        requires
            a == -1 || a == 0 || a == 1,
    ;
}

/// Two steps along the compass directions from one cell land on different
/// cells unless they are the same step in the same direction.
pub proof fn lemma_rays_disjoint(e1: int, k1: int, e2: int, k2: int)
    requires
        0 <= e1 < 8,
        0 <= e2 < 8,
        k1 >= 1,
        k2 >= 1,
        e1 != e2 || k1 != k2,
    ensures
        dir_dx(e1) * k1 != dir_dx(e2) * k2 || dir_dy(e1) * k1 != dir_dy(e2) * k2,
{
    lemma_unit_times(dir_dx(e1), k1);
    lemma_unit_times(dir_dx(e2), k2);
    lemma_unit_times(dir_dy(e1), k1);
    lemma_unit_times(dir_dy(e2), k2);
}

/// Number of discs turned over by a move of `t` at (x, y), or `None` where
/// the move is not legal.
pub fn move_cost(b: &Vec<Cell>, t: PlayerTurn, x: usize, y: usize) -> (r: Option<u64>)
    requires
        b@.len() == 64,
    ensures
        r is None <==> !is_legal(b@, t, x as int, y as int),
        r is Some ==> r.unwrap() == capture_cost(b@, t, x as int, y as int),
        r is Some ==> r.unwrap() <= 64,
{
    if !is_legal_move(b, t, x, y) {
        return None;
    }
    let mut total: u64 = 0;
    let mut d: usize = 0;
    while d < 8
        invariant
            b@.len() == 64,
            x < 8,
            y < 8,
            d <= 8,
            total == captures_upto(b@, t, x as int, y as int, d as int),
            total <= 8 * d,
        decreases 8 - d,
    {
        let n = captures_in(b, t, x, y, d);
        total = total + n;
        d += 1;
    }
    Some(total)
}

/// Number of cells of `b` equal to `c`.
pub fn count_cells(b: &Vec<Cell>, c: Cell) -> (r: u32)
    requires
        b@.len() <= 64,
    ensures
        r == count(b@, c),
{
    let mut r: u32 = 0;
    let mut i: usize = 0;
    while i < b.len()
        invariant
            b@.len() <= 64,
            i <= b@.len(),
            r <= i,
            r + count_from(b@, c, i as int) == count(b@, c),
        decreases b@.len() - i,
    {
        if b[i] == c {
            r = r + 1;
        }
        i += 1;
    }
    r
}

/// Plays a move of `t` at (x, y): places its disc and turns over every
/// bracketed run. Returns the coordinates of the discs turned over; an
/// illegal or off-board move leaves the board as it was.
pub fn apply_move(b: &mut Vec<Cell>, t: PlayerTurn, x: usize, y: usize) -> (r: Result<
    Vec<(usize, usize)>,
    MoveError,
>)
    requires
        old(b)@.len() == 64,
    ensures
        final(b)@.len() == 64,
        !in_bounds(x as int, y as int) ==> r == Err::<Vec<(usize, usize)>, MoveError>(
            MoveError::OutOfBounds,
        ) && final(b)@ == old(b)@,
        in_bounds(x as int, y as int) && !is_legal(old(b)@, t, x as int, y as int) ==> r == Err::<
            Vec<(usize, usize)>,
            MoveError,
        >(MoveError::IllegalMove) && final(b)@ == old(b)@,
        is_legal(old(b)@, t, x as int, y as int) ==> {
            &&& r is Ok
            &&& final(b)@ == board_after_move(old(b)@, t, x as int, y as int)
            &&& final(b)@[index_of(x as int, y as int)] == t.disc()
            &&& r.unwrap()@.len() == capture_cost(old(b)@, t, x as int, y as int)
            &&& r.unwrap()@.len() >= 1
            &&& forall|i: int|
                0 <= i < r.unwrap()@.len() ==> {
                    let (fx, fy) = #[trigger] r.unwrap()@[i];
                    &&& in_bounds(fx as int, fy as int)
                    &&& old(b)@[index_of(fx as int, fy as int)] == t.other().disc()
                    &&& final(b)@[index_of(fx as int, fy as int)] == t.disc()
                }
            &&& forall|i: int, j: int|
                0 <= i < j < r.unwrap()@.len() ==> r.unwrap()@[i] != r.unwrap()@[j]
        },
{
    if x >= 8 || y >= 8 {
        return Err(MoveError::OutOfBounds);
    }
    if !is_legal_move(b, t, x, y) {
        return Err(MoveError::IllegalMove);
    }
    proof {
        lemma_legal_iff_cost(b@, t, x as int, y as int);
    }
    let caps = captures_all(b, t, x, y);
    let ghost b0 = b@;
    let mine = t.produce();
    b.set(y * 8 + x, mine);
    let mut report: Vec<(usize, usize)> = Vec::new();
    let ghost mut steps: Seq<(int, int)> = Seq::empty();
    let mut d: usize = 0;
    while d < 8
        invariant
            b0.len() == 64,
            b@.len() == 64,
            x < 8,
            y < 8,
            d <= 8,
            mine == t.disc(),
            caps@.len() == 8,
            forall|e: int| 0 <= e < 8 ==> caps@[e] == captures(b0, t, x as int, y as int, e),
            forall|e: int| 0 <= e < 8 ==> caps@[e] < 8,
            b@ == after_dirs(b0, t, x as int, y as int, d as int),
            b@[index_of(x as int, y as int)] == t.disc(),
            report@.len() == captures_upto(b0, t, x as int, y as int, d as int),
            report@.len() <= 8 * d,
            forall|i: int|
                0 <= i < report@.len() ==> {
                    let (fx, fy) = #[trigger] report@[i];
                    &&& in_bounds(fx as int, fy as int)
                    &&& b0[index_of(fx as int, fy as int)] == t.other().disc()
                    &&& b@[index_of(fx as int, fy as int)] == t.disc()
                },
            steps.len() == report@.len(),
            forall|i: int|
                0 <= i < steps.len() ==> {
                    let (e, k) = #[trigger] steps[i];
                    &&& 0 <= e < d
                    &&& k >= 1
                    &&& report@[i].0 == x + dir_dx(e) * k
                    &&& report@[i].1 == y + dir_dy(e) * k
                },
            forall|i: int, j: int| 0 <= i < j < report@.len() ==> report@[i] != report@[j],
        decreases 8 - d,
    {
        let (dx, dy) = direction(d);
        let n = caps[d];
        let ghost start = b@;
        let ghost before = report@.len();
        let mut px: i64 = x as i64;
        let mut py: i64 = y as i64;
        let mut k: u64 = 0;
        while k < n
            invariant
                b0.len() == 64,
                b@.len() == 64,
                x < 8,
                y < 8,
                mine == t.disc(),
                -1 <= dx <= 1,
                -1 <= dy <= 1,
                n < 8,
                k <= n,
                in_bounds(px as int, py as int),
                k < n ==> run_to_anchor(b0, t, px as int, py as int, dx as int, dy as int, (8 - k) as nat)
                    == Some((n - k) as nat),
                flip_run(b@, t, px as int, py as int, dx as int, dy as int, (n - k) as nat)
                    == flip_run(start, t, x as int, y as int, dx as int, dy as int, n as nat),
                b@[index_of(x as int, y as int)] == t.disc(),
                report@.len() == before + k,
                before + n <= 8 * (d + 1),
                forall|i: int|
                    0 <= i < report@.len() ==> {
                        let (fx, fy) = #[trigger] report@[i];
                        &&& in_bounds(fx as int, fy as int)
                        &&& b0[index_of(fx as int, fy as int)] == t.other().disc()
                        &&& b@[index_of(fx as int, fy as int)] == t.disc()
                    },
                d < 8,
                dx == dir_dx(d as int),
                dy == dir_dy(d as int),
                px == x + dx * k,
                py == y + dy * k,
                steps.len() == report@.len(),
                forall|i: int|
                    0 <= i < steps.len() ==> {
                        let (e, k2) = #[trigger] steps[i];
                        &&& (0 <= e < d || (e == d && k2 <= k))
                        &&& k2 >= 1
                        &&& report@[i].0 == x + dir_dx(e) * k2
                        &&& report@[i].1 == y + dir_dy(e) * k2
                    },
                forall|i: int, j: int| 0 <= i < j < report@.len() ==> report@[i] != report@[j],
            decreases n - k,
        {
            let nx = px + dx;
            let ny = py + dy;
            proof {
                assert(nx == x + dx * (k + 1)) by (nonlinear_arith)
                    requires
                        px == x + dx * k,
                        nx == px + dx,
                ;
                assert(ny == y + dy * (k + 1)) by (nonlinear_arith)
                    requires
                        py == y + dy * k,
                        ny == py + dy,
                ;
                assert forall|i: int| 0 <= i < report@.len() implies report@[i] != (
                    nx as usize,
                    ny as usize,
                ) by {
                    let (e, k2) = steps[i];
                    lemma_rays_disjoint(e, k2, d as int, k + 1);
                }
            }
            b.set((ny * 8 + nx) as usize, mine);
            report.push((nx as usize, ny as usize));
            proof {
                steps = steps.push((d as int, k + 1));
            }
            px = nx;
            py = ny;
            k += 1;
        }
        d += 1;
    }
    Ok(report)
}

} // verus!
