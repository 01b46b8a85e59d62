//! The placement of the bit stream on the unset modules of a symbol.

use crate::matrix_builder::points;
use crate::qrcode::{put, square, Grid, QRCode};
use vstd::prelude::*;

verus! {

/// The state of the data placement: the grid, and the modules that have
/// received data so far, in the order in which they did.
pub struct Placement {
    pub grid: Grid,
    pub coords: Seq<(int, int)>,
}

/// A visit to the module at column `x` of row `y`. A module that is already
/// set is passed over. An unset module receives the next bit of the stream,
/// or a light module once the stream has ended, and joins the data modules.
pub open spec fn visit(p: Placement, data: Seq<bool>, x: int, y: int) -> Placement {
    if p.grid[y][x] is None {
        Placement {
            grid: put(
                p.grid,
                x,
                y,
                if p.coords.len() < data.len() {
                    data[p.coords.len() as int]
                } else {
                    false
                },
            ),
            coords: p.coords.push((x, y)),
        }
    } else {
        p
    }
}

/// The right column of a pair of columns. The pairs are counted from the
/// right edge; where the timing column 6 is skipped, the pairs to its left
/// move one column to the left.
pub open spec fn pair_column(side: int, skip_timing: bool, pair: int) -> int {
    let column = side - 1 - 2 * pair;
    if skip_timing && column <= 6 {
        column - 1
    } else {
        column
    }
}

/// The row of a step within a pair of columns: the even pairs are walked
/// upwards from the bottom row, the odd pairs downwards from the top row.
pub open spec fn pair_row(side: int, pair: int, step: int) -> int {
    if pair % 2 == 0 {
        side - 1 - step
    } else {
        step
    }
}

/// The placement after the first `steps` rows of a pair of columns. In each
/// row the right module is visited before the left one.
pub open spec fn after_steps(
    p: Placement,
    data: Seq<bool>,
    side: int,
    skip_timing: bool,
    pair: int,
    steps: nat,
) -> Placement
    decreases steps,
{
    if steps == 0 {
        p
    } else {
        let before = after_steps(p, data, side, skip_timing, pair, (steps - 1) as nat);
        let x = pair_column(side, skip_timing, pair);
        let y = pair_row(side, pair, steps - 1);
        visit(visit(before, data, x, y), data, x - 1, y)
    }
}

/// The placement after the first `pairs` pairs of columns.
pub open spec fn after_pairs(p: Placement, data: Seq<bool>, side: int, skip_timing: bool, pairs: nat) -> Placement
    decreases pairs,
{
    if pairs == 0 {
        p
    } else {
        after_steps(
            after_pairs(p, data, side, skip_timing, (pairs - 1) as nat),
            data,
            side,
            skip_timing,
            pairs - 1,
            side as nat,
        )
    }
}

/// The placement of a bit stream in a grid: the zigzag walk over all pairs
/// of columns, from the bottom right corner.
pub open spec fn placed(grid: Grid, data: Seq<bool>, skip_timing: bool) -> Placement {
    after_pairs(
        Placement { grid, coords: Seq::empty() },
        data,
        grid.len() as int,
        skip_timing,
        ((grid.len() - 1) / 2) as nat,
    )
}

/// Whether set modules stay as they are, the grid stays a square, and the
/// data modules lie in the grid.
pub open spec fn extends(before: Placement, after: Placement, side: nat) -> bool {
    &&& square(after.grid, side)
    &&& forall|x: int, y: int|
        0 <= x < side && 0 <= y < side && before.grid[y][x] is Some ==> after.grid[y][x]
            == before.grid[y][x]
    &&& forall|k: int|
        0 <= k < after.coords.len() ==> 0 <= (#[trigger] after.coords[k]).0 < side && 0
            <= after.coords[k].1 < side
}

/// Whether the module at column `x` of row `y` and its left neighbour are
/// set.
pub open spec fn pair_set(grid: Grid, x: int, y: int) -> bool {
    grid[y][x] is Some && grid[y][x - 1] is Some
}

/// A visit sets the module and changes no module that was set.
pub proof fn lemma_visit(p: Placement, data: Seq<bool>, x: int, y: int, side: nat)
    requires
        square(p.grid, side),
        0 <= x < side,
        0 <= y < side,
        forall|k: int|
            0 <= k < p.coords.len() ==> 0 <= (#[trigger] p.coords[k]).0 < side && 0
                <= p.coords[k].1 < side,
    ensures
        extends(p, visit(p, data, x, y), side),
        visit(p, data, x, y).grid[y][x] is Some,
{
}

/// The steps of a pair of columns set both modules of every row they pass
/// and change no module that was set.
pub proof fn lemma_after_steps(
    p: Placement,
    data: Seq<bool>,
    side: int,
    skip_timing: bool,
    pair: int,
    steps: nat,
)
    requires
        square(p.grid, side as nat),
        side >= 9,
        side % 2 == 1,
        0 <= pair < (side - 1) / 2,
        steps <= side,
        forall|k: int|
            0 <= k < p.coords.len() ==> 0 <= (#[trigger] p.coords[k]).0 < side && 0
                <= p.coords[k].1 < side,
    ensures
        extends(p, after_steps(p, data, side, skip_timing, pair, steps), side as nat),
        forall|step: int|
            0 <= step < steps ==> #[trigger] pair_set(
                after_steps(p, data, side, skip_timing, pair, steps).grid,
                pair_column(side, skip_timing, pair),
                pair_row(side, pair, step),
            ),
    decreases steps,
{
    if steps > 0 {
        let before = after_steps(p, data, side, skip_timing, pair, (steps - 1) as nat);
        lemma_after_steps(p, data, side, skip_timing, pair, (steps - 1) as nat);
        let x = pair_column(side, skip_timing, pair);
        let y = pair_row(side, pair, steps - 1);
        lemma_visit(before, data, x, y, side as nat);
        let middle = visit(before, data, x, y);
        lemma_visit(middle, data, x - 1, y, side as nat);
        let q = visit(middle, data, x - 1, y);
        assert forall|step: int| 0 <= step < steps implies #[trigger] pair_set(
            q.grid,
            x,
            pair_row(side, pair, step),
        ) by {
            let yy = pair_row(side, pair, step);
            if step < steps - 1 {
                assert(pair_set(before.grid, x, pair_row(side, pair, step)));
                assert(middle.grid[yy][x] == before.grid[yy][x]);
                assert(middle.grid[yy][x - 1] == before.grid[yy][x - 1]);
            }
        }
    }
}

/// The pairs of columns that were walked are set in every row, and no module
/// that was set has changed.
pub proof fn lemma_after_pairs(p: Placement, data: Seq<bool>, side: int, skip_timing: bool, pairs: nat)
    requires
        square(p.grid, side as nat),
        side >= 9,
        side % 2 == 1,
        pairs <= (side - 1) / 2,
        forall|k: int|
            0 <= k < p.coords.len() ==> 0 <= (#[trigger] p.coords[k]).0 < side && 0
                <= p.coords[k].1 < side,
    ensures
        extends(p, after_pairs(p, data, side, skip_timing, pairs), side as nat),
        forall|pair: int, y: int|
            0 <= pair < pairs && 0 <= y < side ==> #[trigger] pair_set(
                after_pairs(p, data, side, skip_timing, pairs).grid,
                pair_column(side, skip_timing, pair),
                y,
            ),
    decreases pairs,
{
    if pairs > 0 {
        let before = after_pairs(p, data, side, skip_timing, (pairs - 1) as nat);
        lemma_after_pairs(p, data, side, skip_timing, (pairs - 1) as nat);
        lemma_after_steps(before, data, side, skip_timing, pairs - 1, side as nat);
        let q = after_pairs(p, data, side, skip_timing, pairs);
        assert forall|pair: int, y: int| 0 <= pair < pairs && 0 <= y < side implies #[trigger] pair_set(
            q.grid,
            pair_column(side, skip_timing, pair),
            y,
        ) by {
            let x = pair_column(side, skip_timing, pair);
            if pair < pairs - 1 {
                assert(pair_set(before.grid, pair_column(side, skip_timing, pair), y));
            } else {
                let step = if pair % 2 == 0 {
                    side - 1 - y
                } else {
                    y
                };
                assert(pair_row(side, pair, step) == y);
                assert(pair_set(q.grid, x, pair_row(side, pair, step)));
            }
        }
    }
}

/// The zigzag walk leaves no module unset but those of the column that it
/// does not enter: column 6 where the timing column is skipped, column 0
/// otherwise. Modules that were set before are as they were, and the data
/// modules lie in the grid.
pub proof fn lemma_placed_covers(grid: Grid, data: Seq<bool>, skip_timing: bool)
    requires
        square(grid, grid.len()),
        grid.len() >= 9,
        grid.len() % 2 == 1,
    ensures
        extends(Placement { grid, coords: Seq::empty() }, placed(grid, data, skip_timing), grid.len()),
        forall|x: int, y: int|
            0 <= x < grid.len() && 0 <= y < grid.len() && x != (if skip_timing {
                6int
            } else {
                0int
            }) ==> #[trigger] placed(grid, data, skip_timing).grid[y][x] is Some,
{
    let side = grid.len() as int;
    let p = Placement { grid, coords: Seq::empty() };
    let pairs = ((side - 1) / 2) as nat;
    lemma_after_pairs(p, data, side, skip_timing, pairs);
    let q = placed(grid, data, skip_timing);
    assert forall|x: int, y: int|
        0 <= x < side && 0 <= y < side && x != (if skip_timing {
            6int
        } else {
            0int
        }) implies #[trigger] q.grid[y][x] is Some by {
        let shifted = if skip_timing && x < 6 {
            x + 1
        } else {
            x
        };
        let pair = (side - 1 - shifted) / 2;
        let right = pair_column(side, skip_timing, pair);
        assert(right == x || right - 1 == x);
        assert(pair_set(q.grid, pair_column(side, skip_timing, pair), y));
    }
}

/// The bit that data module `k` receives: bit `k` of the stream, or a light
/// module behind the end of the stream.
pub open spec fn placed_bit(data: Seq<bool>, k: int) -> bool {
    if k < data.len() {
        data[k]
    } else {
        false
    }
}

/// Whether a placement keeps track of the data modules of a grid: the grid
/// is a square; the modules that were set at the start are as they were;
/// the data modules are exactly the modules that were unset at the start
/// and are set now, and hold the bits of the stream in their order; and no
/// module is a data module twice.
pub open spec fn tracks(start: Grid, p: Placement, data: Seq<bool>, side: nat) -> bool {
    &&& square(p.grid, side)
    &&& forall|x: int, y: int|
        0 <= x < side && 0 <= y < side && start[y][x] is Some ==> #[trigger] p.grid[y][x]
            == start[y][x]
    &&& forall|k: int|
        0 <= k < p.coords.len() ==> {
            &&& 0 <= (#[trigger] p.coords[k]).0 < side
            &&& 0 <= p.coords[k].1 < side
            &&& start[p.coords[k].1][p.coords[k].0] is None
            &&& p.grid[p.coords[k].1][p.coords[k].0] == Some(placed_bit(data, k))
        }
    &&& forall|x: int, y: int|
        0 <= x < side && 0 <= y < side && start[y][x] is None && (#[trigger] p.grid[y][x]) is Some
            ==> p.coords.contains((x, y))
    &&& p.coords.no_duplicates()
}

/// A visit keeps track of the data modules.
pub proof fn lemma_visit_tracks(start: Grid, p: Placement, data: Seq<bool>, x: int, y: int, side: nat)
    requires
        square(start, side),
        tracks(start, p, data, side),
        0 <= x < side,
        0 <= y < side,
    ensures
        tracks(start, visit(p, data, x, y), data, side),
{
    let q = visit(p, data, x, y);
    if p.grid[y][x] is None {
        assert(q.coords[p.coords.len() as int] == (x, y));
        assert forall|k: int| 0 <= k < q.coords.len() implies {
            &&& 0 <= (#[trigger] q.coords[k]).0 < side
            &&& 0 <= q.coords[k].1 < side
            &&& start[q.coords[k].1][q.coords[k].0] is None
            &&& q.grid[q.coords[k].1][q.coords[k].0] == Some(placed_bit(data, k))
        } by {
            if k < p.coords.len() {
                assert(q.coords[k] == p.coords[k]);
                assert(p.grid[p.coords[k].1][p.coords[k].0] is Some);
            }
        }
        assert forall|x2: int, y2: int|
            0 <= x2 < side && 0 <= y2 < side && start[y2][x2] is None && (
            #[trigger] q.grid[y2][x2]) is Some implies q.coords.contains((x2, y2)) by {
            if x2 == x && y2 == y {
                assert(q.coords[p.coords.len() as int] == (x2, y2));
            } else {
                assert(p.grid[y2][x2] is Some);
                let k = choose|k: int| 0 <= k < p.coords.len() && p.coords[k] == (x2, y2);
                assert(q.coords[k] == (x2, y2));
            }
        }
        assert forall|i: int, j: int|
            0 <= i < q.coords.len() && 0 <= j < q.coords.len() && i != j implies q.coords[i]
            != q.coords[j] by {
            if i < p.coords.len() && j < p.coords.len() {
                assert(p.coords[i] != p.coords[j]);
            } else if i < p.coords.len() {
                assert(p.grid[p.coords[i].1][p.coords[i].0] is Some);
            } else {
                assert(p.grid[p.coords[j].1][p.coords[j].0] is Some);
            }
        }
    }
}

/// The steps of a pair of columns keep track of the data modules.
pub proof fn lemma_after_steps_tracks(
    start: Grid,
    p: Placement,
    data: Seq<bool>,
    side: int,
    skip_timing: bool,
    pair: int,
    steps: nat,
)
    requires
        square(start, side as nat),
        tracks(start, p, data, side as nat),
        side >= 9,
        side % 2 == 1,
        0 <= pair < (side - 1) / 2,
        steps <= side,
    ensures
        tracks(start, after_steps(p, data, side, skip_timing, pair, steps), data, side as nat),
    decreases steps,
{
    if steps > 0 {
        let before = after_steps(p, data, side, skip_timing, pair, (steps - 1) as nat);
        lemma_after_steps_tracks(start, p, data, side, skip_timing, pair, (steps - 1) as nat);
        let x = pair_column(side, skip_timing, pair);
        let y = pair_row(side, pair, steps - 1);
        lemma_visit_tracks(start, before, data, x, y, side as nat);
        lemma_visit_tracks(start, visit(before, data, x, y), data, x - 1, y, side as nat);
    }
}

/// The pairs of columns keep track of the data modules.
pub proof fn lemma_after_pairs_tracks(
    start: Grid,
    p: Placement,
    data: Seq<bool>,
    side: int,
    skip_timing: bool,
    pairs: nat,
)
    requires
        square(start, side as nat),
        tracks(start, p, data, side as nat),
        side >= 9,
        side % 2 == 1,
        pairs <= (side - 1) / 2,
    ensures
        tracks(start, after_pairs(p, data, side, skip_timing, pairs), data, side as nat),
    decreases pairs,
{
    if pairs > 0 {
        lemma_after_pairs_tracks(start, p, data, side, skip_timing, (pairs - 1) as nat);
        lemma_after_steps_tracks(
            start,
            after_pairs(p, data, side, skip_timing, (pairs - 1) as nat),
            data,
            side,
            skip_timing,
            pairs - 1,
            side as nat,
        );
    }
}

/// The data modules of a placement are exactly the modules that were unset
/// before it, each of them once, and hold the bits of the stream in their
/// order; the modules that were set before it are as they were.
pub proof fn lemma_placed_tracks(grid: Grid, data: Seq<bool>, skip_timing: bool)
    requires
        square(grid, grid.len()),
        grid.len() >= 9,
        grid.len() % 2 == 1,
    ensures
        tracks(grid, placed(grid, data, skip_timing), data, grid.len()),
{
    let start = Placement { grid, coords: Seq::empty() };
    assert(tracks(grid, start, data, grid.len()));
    lemma_after_pairs_tracks(
        grid,
        start,
        data,
        grid.len() as int,
        skip_timing,
        ((grid.len() - 1) / 2) as nat,
    );
}

/// Visits one module.
fn visit_module(matrix: &mut QRCode, data: &Vec<bool>, visited: &mut Vec<(usize, usize)>, x: usize, y: usize)
    requires
        old(matrix).wf(),
        x < old(matrix).side(),
        y < old(matrix).side(),
    ensures
        final(matrix).wf(),
        final(matrix).side() == old(matrix).side(),
        (Placement { grid: final(matrix)@, coords: points(final(visited)@) }) == visit(
            Placement { grid: old(matrix)@, coords: points(old(visited)@) },
            data@,
            x as int,
            y as int,
        ),
{
    proof {
        matrix.lemma_view();
    }
    if matrix.is_empty(x, y) {
        let bit = if visited.len() < data.len() {
            data[visited.len()]
        } else {
            false
        };
        matrix.set(x, y, bit);
        visited.push((x, y));
        assert(points(visited@) =~= points(old(visited)@).push((x as int, y as int)));
    }
}

/// Places the bit stream in the unset modules of the grid, walking the
/// pairs of columns in zigzag from the bottom right corner, and returns the
/// modules that received data.
pub fn place_data(matrix: &mut QRCode, data: &Vec<bool>, skip_timing: bool) -> (visited: Vec<(usize, usize)>)
    requires
        old(matrix).wf(),
        old(matrix).side() >= 9,
        old(matrix).side() % 2 == 1,
    ensures
        final(matrix).wf(),
        final(matrix).side() == old(matrix).side(),
        (Placement { grid: final(matrix)@, coords: points(visited@) }) == placed(
            old(matrix)@,
            data@,
            skip_timing,
        ),
{
    let dimension = matrix.dimension();
    let mut visited: Vec<(usize, usize)> = Vec::new();
    let pairs = (dimension - 1) / 2;
    let ghost start = Placement { grid: matrix@, coords: Seq::empty() };
    proof {
        matrix.lemma_view();
        assert(points(visited@) =~= Seq::empty());
    }
    let mut pair: usize = 0;
    while pair < pairs
        invariant
            pair <= pairs,
            pairs == (dimension - 1) / 2,
            dimension >= 9,
            dimension % 2 == 1,
            matrix.wf(),
            matrix.side() == dimension,
            start.grid.len() == dimension,
            (Placement { grid: matrix@, coords: points(visited@) }) == after_pairs(
                start,
                data@,
                dimension as int,
                skip_timing,
                pair as nat,
            ),
        decreases pairs - pair,
    {
        let column = dimension - 1 - 2 * pair;
        let x = if skip_timing && column <= 6 {
            column - 1
        } else {
            column
        };
        let ghost entry = Placement { grid: matrix@, coords: points(visited@) };
        let mut step: usize = 0;
        while step < dimension
            invariant
                step <= dimension,
                pair < pairs,
                pairs == (dimension - 1) / 2,
                dimension >= 9,
                dimension % 2 == 1,
                1 <= x < dimension,
                x == pair_column(dimension as int, skip_timing, pair as int),
                matrix.wf(),
                matrix.side() == dimension,
                (Placement { grid: matrix@, coords: points(visited@) }) == after_steps(
                    entry,
                    data@,
                    dimension as int,
                    skip_timing,
                    pair as int,
                    step as nat,
                ),
            decreases dimension - step,
        {
            let y = if pair % 2 == 0 {
                dimension - 1 - step
            } else {
                step
            };
            visit_module(matrix, data, &mut visited, x, y);
            visit_module(matrix, data, &mut visited, x - 1, y);
            step += 1;
        }
        pair += 1;
    }
    visited
}

} // verus!
