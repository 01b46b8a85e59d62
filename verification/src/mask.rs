//! Mask patterns and the choice of the best mask.

use crate::matrix_builder::points;
use crate::matrix_builder_micro::{calculate_evaluation, evaluation};
use crate::penalty::{calculate_penalty, penalty};
use crate::qrcode::{put, Grid, QRCode};
use rayon::iter::{IntoParallelIterator, ParallelIterator};
use vstd::prelude::*;

verus! {

/// Whether a mask pattern of a full-size symbol inverts the module at
/// column `x` of row `y`.
pub open spec fn mask_bit(pattern: int, x: int, y: int) -> bool {
    if pattern == 0 {
        (y + x) % 2 == 0
    } else if pattern == 1 {
        y % 2 == 0
    } else if pattern == 2 {
        x % 3 == 0
    } else if pattern == 3 {
        (y + x) % 3 == 0
    } else if pattern == 4 {
        (y / 2 + x / 3) % 2 == 0
    } else if pattern == 5 {
        (y * x) % 2 + (y * x) % 3 == 0
    } else if pattern == 6 {
        ((y * x) % 2 + (y * x) % 3) % 2 == 0
    } else if pattern == 7 {
        ((y + x) % 2 + (y * x) % 3) % 2 == 0
    } else {
        false
    }
}

/// The pattern behind a mask number: in a full-size symbol the number
/// itself, in a Micro symbol the patterns 1, 4, 6 and 7 for the numbers 0
/// to 3.
pub open spec fn mask_pattern(mask: int, micro: bool) -> int {
    if !micro {
        mask
    } else if mask == 0 {
        1
    } else if mask == 1 {
        4
    } else if mask == 2 {
        6
    } else {
        7
    }
}

/// The grid with the colour of one module inverted.
pub open spec fn toggled(grid: Grid, x: int, y: int) -> Grid {
    put(grid, x, y, !(grid[y][x] == Some(true)))
}

/// The grid with a mask pattern applied to the given modules, one after
/// the other.
pub open spec fn masked(grid: Grid, coords: Seq<(int, int)>, pattern: int) -> Grid
    decreases coords.len(),
{
    if coords.len() == 0 {
        grid
    } else {
        let before = masked(grid, coords.drop_last(), pattern);
        if mask_bit(pattern, coords.last().0, coords.last().1) {
            toggled(before, coords.last().0, coords.last().1)
        } else {
            before
        }
    }
}

/// Whether all the modules lie in a grid of the given side.
pub open spec fn in_grid(coords: Seq<(int, int)>, side: nat) -> bool {
    forall|k: int|
        0 <= k < coords.len() ==> 0 <= (#[trigger] coords[k]).0 < side && 0 <= coords[k].1 < side
}

/// The score of a masked grid: the penalty of a full-size symbol, the
/// evaluation of a Micro symbol.
pub open spec fn score(grid: Grid, micro: bool) -> nat {
    if micro {
        evaluation(grid)
    } else {
        penalty(grid)
    }
}

/// The grid under the mask with the given number.
pub open spec fn candidate_grid(grid: Grid, coords: Seq<(int, int)>, mask: int, micro: bool) -> Grid {
    masked(grid, coords, mask_pattern(mask, micro))
}

/// The scores of the grid under each of its masks: eight for a full-size
/// symbol, four for a Micro symbol.
pub open spec fn scores(grid: Grid, coords: Seq<(int, int)>, micro: bool) -> Seq<nat> {
    Seq::new(
        if micro {
            4
        } else {
            8
        },
        |mask: int| score(candidate_grid(grid, coords, mask, micro), micro),
    )
}

/// The index of the smallest among the first `n` values; of several, the
/// first.
pub open spec fn first_minimum(values: Seq<nat>, n: int) -> int
    decreases n,
{
    if n <= 1 {
        0
    } else if values[n - 1] < values[first_minimum(values, n - 1)] {
        n - 1
    } else {
        first_minimum(values, n - 1)
    }
}

/// The index of the largest among the first `n` values; of several, the
/// last.
pub open spec fn last_maximum(values: Seq<nat>, n: int) -> int
    decreases n,
{
    if n <= 1 {
        0
    } else if values[n - 1] >= values[last_maximum(values, n - 1)] {
        n - 1
    } else {
        last_maximum(values, n - 1)
    }
}

/// The mask that is chosen for a grid: for a full-size symbol the one with
/// the lowest penalty, and of several the lowest number; for a Micro symbol
/// the one with the highest evaluation, and of several the highest number.
pub open spec fn best_mask(grid: Grid, coords: Seq<(int, int)>, micro: bool) -> int {
    if micro {
        last_maximum(scores(grid, coords, micro), 4)
    } else {
        first_minimum(scores(grid, coords, micro), 8)
    }
}

/// No value is below the first minimum, and every value before it is
/// above it.
pub proof fn lemma_first_minimum(values: Seq<nat>, n: int)
    requires
        1 <= n <= values.len(),
    ensures
        0 <= first_minimum(values, n) < n,
        forall|k: int| 0 <= k < n ==> values[first_minimum(values, n)] <= #[trigger] values[k],
        forall|k: int|
            0 <= k < first_minimum(values, n) ==> values[first_minimum(values, n)]
                < #[trigger] values[k],
    decreases n,
{
    if n > 1 {
        lemma_first_minimum(values, n - 1);
    }
}

/// No value is above the last maximum, and every value behind it is below
/// it.
pub proof fn lemma_last_maximum(values: Seq<nat>, n: int)
    requires
        1 <= n <= values.len(),
    ensures
        0 <= last_maximum(values, n) < n,
        forall|k: int| 0 <= k < n ==> values[last_maximum(values, n)] >= #[trigger] values[k],
        forall|k: int|
            last_maximum(values, n) < k < n ==> values[last_maximum(values, n)]
                > #[trigger] values[k],
    decreases n,
{
    if n > 1 {
        lemma_last_maximum(values, n - 1);
    }
}

/// A masked grid is a square of the same side.
pub proof fn lemma_masked_square(grid: Grid, coords: Seq<(int, int)>, pattern: int, side: nat)
    requires
        crate::qrcode::square(grid, side),
        in_grid(coords, side),
    ensures
        crate::qrcode::square(masked(grid, coords, pattern), side),
        forall|x: int, y: int|
            0 <= x < side && 0 <= y < side ==> (grid[y][x] is Some ==> masked(
                grid,
                coords,
                pattern,
            )[y][x] is Some),
    decreases coords.len(),
{
    if coords.len() > 0 {
        assert(in_grid(coords.drop_last(), side)) by {
            assert forall|k: int| 0 <= k < coords.drop_last().len() implies 0 <= (
            #[trigger] coords.drop_last()[k]).0 < side && 0 <= coords.drop_last()[k].1 < side by {
                assert(coords.drop_last()[k] == coords[k]);
            }
        }
        lemma_masked_square(grid, coords.drop_last(), pattern, side);
        assert(0 <= coords[coords.len() - 1].0 < side);
    }
}

/// A mask inverts the modules of the list for which its pattern holds, and
/// no others: where every module stands once in the list, a module of the
/// masked grid is inverted if it is in the list and the pattern holds for
/// it, and is as it was otherwise.
pub proof fn lemma_masked_cell(grid: Grid, coords: Seq<(int, int)>, pattern: int, side: nat, x: int, y: int)
    requires
        crate::qrcode::square(grid, side),
        in_grid(coords, side),
        coords.no_duplicates(),
        0 <= x < side,
        0 <= y < side,
    ensures
        masked(grid, coords, pattern)[y][x] == (if coords.contains((x, y)) && mask_bit(pattern, x, y) {
            Some(!(grid[y][x] == Some(true)))
        } else {
            grid[y][x]
        }),
    decreases coords.len(),
{
    if coords.len() > 0 {
        let rest = coords.drop_last();
        let last = coords.last();
        assert(in_grid(rest, side)) by {
            assert forall|k: int| 0 <= k < rest.len() implies 0 <= (#[trigger] rest[k]).0 < side && 0
                <= rest[k].1 < side by {
                assert(rest[k] == coords[k]);
            }
        }
        assert(rest.no_duplicates()) by {
            assert forall|i: int, j: int| 0 <= i < rest.len() && 0 <= j < rest.len() && i != j implies rest[i]
                != rest[j] by {
                assert(rest[i] == coords[i] && rest[j] == coords[j]);
            }
        }
        lemma_masked_cell(grid, rest, pattern, side, x, y);
        lemma_masked_square(grid, rest, pattern, side);
        assert(0 <= coords[coords.len() - 1].0 < side && 0 <= coords[coords.len() - 1].1 < side);
        if last == (x, y) {
            assert(coords[coords.len() - 1] == (x, y));
            assert(!rest.contains((x, y))) by {
                if rest.contains((x, y)) {
                    let k = choose|k: int| 0 <= k < rest.len() && rest[k] == (x, y);
                    assert(coords[k] == coords[coords.len() - 1]);
                }
            }
        } else {
            if coords.contains((x, y)) {
                let k = choose|k: int| 0 <= k < coords.len() && coords[k] == (x, y);
                assert(rest[k] == (x, y));
            }
            if rest.contains((x, y)) {
                let k = choose|k: int| 0 <= k < rest.len() && rest[k] == (x, y);
                assert(coords[k] == (x, y));
            }
        }
    }
}

/// Whether a mask pattern inverts a module.
pub fn mask_formula(pattern: u32, x: usize, y: usize) -> (inverts: bool)
    requires
        x <= 177,
        y <= 177,
    ensures
        inverts == mask_bit(pattern as int, x as int, y as int),
{
    let i = y;
    let j = x;
    assert(0 <= i * j <= 177 * 177) by (nonlinear_arith)
        requires
            0 <= i <= 177,
            0 <= j <= 177,
    ;
    if pattern == 0 {
        (i + j) % 2 == 0
    } else if pattern == 1 {
        i % 2 == 0
    } else if pattern == 2 {
        j % 3 == 0
    } else if pattern == 3 {
        (i + j) % 3 == 0
    } else if pattern == 4 {
        (i / 2 + j / 3) % 2 == 0
    } else if pattern == 5 {
        (i * j) % 2 + (i * j) % 3 == 0
    } else if pattern == 6 {
        ((i * j) % 2 + (i * j) % 3) % 2 == 0
    } else if pattern == 7 {
        (((i + j) % 2) + ((i * j) % 3)) % 2 == 0
    } else {
        false
    }
}

/// Applies a mask pattern to the given modules.
pub fn apply_mask_pattern(matrix: &mut QRCode, pattern: u32, data_coordinates: &Vec<(usize, usize)>)
    requires
        old(matrix).wf(),
        old(matrix).side() <= 177,
        in_grid(points(data_coordinates@), old(matrix).side()),
    ensures
        final(matrix).wf(),
        final(matrix).side() == old(matrix).side(),
        final(matrix)@ == masked(old(matrix)@, points(data_coordinates@), pattern as int),
{
    let ghost coords = points(data_coordinates@);
    let mut k: usize = 0;
    assert(coords.take(0) =~= Seq::<(int, int)>::empty());
    while k < data_coordinates.len()
        invariant
            k <= data_coordinates.len(),
            coords == points(data_coordinates@),
            matrix.wf(),
            matrix.side() == old(matrix).side(),
            matrix.side() <= 177,
            in_grid(coords, matrix.side()),
            matrix@ == masked(old(matrix)@, coords.take(k as int), pattern as int),
        decreases data_coordinates.len() - k,
    {
        let (x, y) = data_coordinates[k];
        proof {
            assert(coords[k as int] == (x as int, y as int));
            assert(coords.take(k + 1).drop_last() =~= coords.take(k as int));
            assert(coords.take(k + 1).last() == coords[k as int]);
        }
        if mask_formula(pattern, x, y) {
            let dark = matrix.get(x, y);
            matrix.set(x, y, !dark);
        }
        k += 1;
    }
    assert(coords.take(data_coordinates.len() as int) =~= coords);
}

/// The pattern behind a mask number.
pub fn pattern_of(mask: u32, micro: bool) -> (pattern: u32)
    ensures
        pattern == mask_pattern(mask as int, micro),
{
    if !micro {
        mask
    } else if mask == 0 {
        1
    } else if mask == 1 {
        4
    } else if mask == 2 {
        6
    } else {
        7
    }
}

/// Whether a scored symbol is the given symbol under the mask with the
/// given number.
pub open spec fn is_candidate(
    scored: (usize, QRCode),
    matrix: QRCode,
    coords: Seq<(int, int)>,
    mask: int,
    micro: bool,
) -> bool {
    &&& scored.1.wf()
    &&& scored.1.side() == matrix.side()
    &&& scored.1@ == candidate_grid(matrix@, coords, mask, micro)
    &&& scored.0 == score(scored.1@, micro)
}

/// Copies the symbol, applies the mask with the given number to the copy
/// and scores it.
pub fn candidate(matrix: &QRCode, mask: u32, data_coordinates: &Vec<(usize, usize)>, micro: bool) -> (scored: (
    usize,
    QRCode,
))
    requires
        matrix.wf(),
        1 <= matrix.side() <= 177,
        in_grid(points(data_coordinates@), matrix.side()),
    ensures
        is_candidate(scored, *matrix, points(data_coordinates@), mask as int, micro),
{
    let mut new_matrix = matrix.clone();
    apply_mask_pattern(&mut new_matrix, pattern_of(mask, micro), data_coordinates);
    let score = if micro {
        calculate_evaluation(&new_matrix)
    } else {
        calculate_penalty(&new_matrix)
    };
    (score, new_matrix)
}

/// Builds the candidates for the mask numbers below `count` with
/// `candidate`, handing the numbers to rayon's `into_par_iter`, `map` and
/// `collect`.
///
/// Not proved; rests on rayon: element `m` of what `collect` returns is
/// what the closure returns for the number `m` of the range.
#[verifier::external_body]
fn par_candidates(matrix: &QRCode, data_coordinates: &Vec<(usize, usize)>, micro: bool, count: u32) -> (list:
    Vec<(usize, QRCode)>)
    requires
        matrix.wf(),
        1 <= matrix.side() <= 177,
        in_grid(points(data_coordinates@), matrix.side()),
    ensures
        list@.len() == count,
        forall|m: int|
            0 <= m < count ==> is_candidate(
                #[trigger] list@[m],
                *matrix,
                points(data_coordinates@),
                m,
                micro,
            ),
{
    (0..count).into_par_iter().map(|mask| candidate(matrix, mask, data_coordinates, micro)).collect()
}

/// Tries every mask on a copy of the symbol, keeps the copy with the best
/// score and returns the number of its mask.
pub fn select_mask(matrix: &mut QRCode, data_coordinates: &Vec<(usize, usize)>, micro: bool) -> (mask: u32)
    requires
        old(matrix).wf(),
        1 <= old(matrix).side() <= 177,
        in_grid(points(data_coordinates@), old(matrix).side()),
    ensures
        final(matrix).wf(),
        final(matrix).side() == old(matrix).side(),
        mask == best_mask(old(matrix)@, points(data_coordinates@), micro),
        mask < (if micro {
            4u32
        } else {
            8u32
        }),
        final(matrix)@ == candidate_grid(old(matrix)@, points(data_coordinates@), mask as int, micro),
{
    let count: u32 = if micro {
        4
    } else {
        8
    };
    let results = par_candidates(matrix, data_coordinates, micro, count);
    let ghost values = scores(matrix@, points(data_coordinates@), micro);
    let mut best: usize = 0;
    let mut m: usize = 1;
    while m < results.len()
        invariant
            1 <= m <= results.len(),
            results@.len() == count,
            count == (if micro {
                4u32
            } else {
                8u32
            }),
            values == scores(matrix@, points(data_coordinates@), micro),
            forall|k: int|
                0 <= k < count ==> is_candidate(
                    #[trigger] results@[k],
                    *matrix,
                    points(data_coordinates@),
                    k,
                    micro,
                ),
            best < m,
            best == (if micro {
                last_maximum(values, m as int)
            } else {
                first_minimum(values, m as int)
            }),
        decreases results.len() - m,
    {
        assert(is_candidate(results@[m as int], *matrix, points(data_coordinates@), m as int, micro));
        assert(is_candidate(
            results@[best as int],
            *matrix,
            points(data_coordinates@),
            best as int,
            micro,
        ));
        if micro {
            if results[m].0 >= results[best].0 {
                best = m;
            }
        } else {
            if results[m].0 < results[best].0 {
                best = m;
            }
        }
        m += 1;
    }
    assert(is_candidate(results@[best as int], *matrix, points(data_coordinates@), best as int, micro));
    let chosen = results[best].1.clone();
    *matrix = chosen;
    best as u32
}

} // verus!
