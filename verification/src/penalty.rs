//! The four penalty rules by which masked full-size symbols are compared.

use crate::qrcode::{Grid, QRCode};
use vstd::prelude::*;

verus! {

/// Whether the module at column `x` of row `y` is dark.
pub open spec fn dark(grid: Grid, x: int, y: int) -> bool {
    grid[y][x] == Some(true)
}

/// The colours of row `y`, from left to right.
pub open spec fn row(grid: Grid, y: int) -> Seq<bool> {
    Seq::new(grid.len(), |x: int| dark(grid, x, y))
}

/// The colours of column `x`, from top to bottom.
pub open spec fn column(grid: Grid, x: int) -> Seq<bool> {
    Seq::new(grid.len(), |y: int| dark(grid, x, y))
}

/// The length of the run of modules of one colour that ends at index `i`.
pub open spec fn run_length(line: Seq<bool>, i: int) -> nat
    decreases i,
{
    if i <= 0 {
        1
    } else if line[i] == line[i - 1] {
        run_length(line, i - 1) + 1
    } else {
        1
    }
}

/// Whether a run of modules of one colour ends at index `i`: the line ends
/// there, or the next module has the other colour.
pub open spec fn run_ends(line: Seq<bool>, i: int) -> bool {
    i == line.len() - 1 || line[i + 1] != line[i]
}

/// The penalty of the runs that end before index `n`: a run of five or
/// more modules costs its length less two.
pub open spec fn run_penalty_upto(line: Seq<bool>, n: int) -> nat
    decreases n,
{
    if n <= 0 {
        0
    } else {
        run_penalty_upto(line, n - 1) + if run_ends(line, n - 1) && run_length(line, n - 1) >= 5 {
            (run_length(line, n - 1) - 2) as nat
        } else {
            0
        }
    }
}

/// The penalty of the runs of a line.
pub open spec fn run_penalty(line: Seq<bool>) -> nat {
    run_penalty_upto(line, line.len() as int)
}

/// The run penalty of the first `n` columns and rows.
pub open spec fn rule_1_upto(grid: Grid, n: int) -> nat
    decreases n,
{
    if n <= 0 {
        0
    } else {
        rule_1_upto(grid, n - 1) + run_penalty(column(grid, n - 1)) + run_penalty(row(grid, n - 1))
    }
}

/// First rule: the runs of five or more modules of one colour in all
/// columns and rows.
pub open spec fn rule_1(grid: Grid) -> nat {
    rule_1_upto(grid, grid.len() as int)
}

/// Whether the two by two block with its top left corner at column `x` of
/// row `y` has one colour.
pub open spec fn is_box(grid: Grid, x: int, y: int) -> bool {
    dark(grid, x, y) == dark(grid, x + 1, y) && dark(grid, x, y) == dark(grid, x, y + 1) && dark(
        grid,
        x,
        y,
    ) == dark(grid, x + 1, y + 1)
}

/// The blocks of one colour with their top left corner among the first `n`
/// modules of row `y`.
pub open spec fn boxes_in_row(grid: Grid, y: int, n: int) -> nat
    decreases n,
{
    if n <= 0 {
        0
    } else {
        boxes_in_row(grid, y, n - 1) + if is_box(grid, n - 1, y) {
            1nat
        } else {
            0nat
        }
    }
}

/// The blocks of one colour with their top left corner in the first `rows`
/// rows.
pub open spec fn boxes_upto(grid: Grid, rows: int) -> nat
    decreases rows,
{
    if rows <= 0 {
        0
    } else {
        boxes_upto(grid, rows - 1) + boxes_in_row(grid, rows - 1, grid.len() - 1)
    }
}

/// The number of two by two blocks of one colour; blocks may overlap.
pub open spec fn boxes(grid: Grid) -> nat {
    boxes_upto(grid, grid.len() - 1)
}

/// Second rule: three for every two by two block of one colour.
pub open spec fn rule_2(grid: Grid) -> nat {
    3 * boxes(grid)
}

/// Module `k` of the pattern that looks like a finder pattern with the
/// light zone behind it: dark, light, three dark, light, dark, four light.
pub open spec fn finder_like(k: int) -> bool {
    k == 0 || k == 2 || k == 3 || k == 4 || k == 6
}

/// Whether the first `n` modules from `start` on agree with the pattern, or
/// with the pattern read backwards.
pub open spec fn matches_upto(line: Seq<bool>, start: int, reversed: bool, n: int) -> bool
    decreases n,
{
    if n <= 0 {
        true
    } else {
        matches_upto(line, start, reversed, n - 1) && line[start + n - 1] == finder_like(
            if reversed {
                11 - n
            } else {
                n - 1
            },
        )
    }
}

/// The occurrences of the pattern, forwards and backwards, that start
/// before index `n`.
pub open spec fn occurrences_upto(line: Seq<bool>, n: int) -> nat
    decreases n,
{
    if n <= 0 {
        0
    } else {
        occurrences_upto(line, n - 1) + (if matches_upto(line, n - 1, false, 11) {
            1nat
        } else {
            0nat
        }) + (if matches_upto(line, n - 1, true, 11) {
            1nat
        } else {
            0nat
        })
    }
}

/// The occurrences of the pattern in a line; occurrences may overlap.
pub open spec fn occurrences(line: Seq<bool>) -> nat {
    occurrences_upto(line, line.len() - 10)
}

/// The occurrences of the pattern in the first `n` rows and columns.
pub open spec fn occurrences_in(grid: Grid, n: int) -> nat
    decreases n,
{
    if n <= 0 {
        0
    } else {
        occurrences_in(grid, n - 1) + occurrences(row(grid, n - 1)) + occurrences(column(grid, n - 1))
    }
}

/// Third rule: forty for every occurrence of the finder-like pattern.
pub open spec fn rule_3(grid: Grid) -> nat {
    40 * occurrences_in(grid, grid.len() as int)
}

/// The dark modules among the first `n` modules of row `y`.
pub open spec fn dark_in_row(grid: Grid, y: int, n: int) -> nat
    decreases n,
{
    if n <= 0 {
        0
    } else {
        dark_in_row(grid, y, n - 1) + if dark(grid, n - 1, y) {
            1nat
        } else {
            0nat
        }
    }
}

/// The dark modules in the first `rows` rows.
pub open spec fn dark_upto(grid: Grid, rows: int) -> nat
    decreases rows,
{
    if rows <= 0 {
        0
    } else {
        dark_upto(grid, rows - 1) + dark_in_row(grid, rows - 1, grid.len() as int)
    }
}

/// The number of dark modules.
pub open spec fn dark_count(grid: Grid) -> nat {
    dark_upto(grid, grid.len() as int)
}

/// The distance of a number from ten.
pub open spec fn from_ten(n: int) -> int {
    if n < 10 {
        10 - n
    } else {
        n - 10
    }
}

/// Fourth rule: ten for every full five percent by which the share of dark
/// modules is away from fifty percent. The share is taken in steps of five
/// percent, once rounded down and once rounded up, and the step nearer to
/// fifty percent counts.
pub open spec fn rule_4(grid: Grid) -> nat {
    let total = (grid.len() * grid.len()) as int;
    let scaled = (dark_count(grid) * 20) as int;
    let low = scaled / total;
    let high = if scaled % total == 0 {
        low
    } else {
        low + 1
    };
    if from_ten(high) < from_ten(low) {
        (from_ten(high) * 10) as nat
    } else {
        (from_ten(low) * 10) as nat
    }
}

/// The penalty of a grid: the sum of the four rules.
pub open spec fn penalty(grid: Grid) -> nat {
    rule_1(grid) + rule_2(grid) + rule_3(grid) + rule_4(grid)
}

/// Reads a row, or with `vertical` a column, of the symbol.
fn line_of(matrix: &QRCode, index: usize, vertical: bool) -> (line: Vec<bool>)
    requires
        matrix.wf(),
        index < matrix.side(),
    ensures
        line@ == (if vertical {
            column(matrix@, index as int)
        } else {
            row(matrix@, index as int)
        }),
        line@.len() == matrix.side(),
{
    let side = matrix.dimension();
    let mut line: Vec<bool> = Vec::new();
    let mut k: usize = 0;
    proof {
        matrix.lemma_view();
    }
    while k < side
        invariant
            k <= side,
            side == matrix.side(),
            matrix.wf(),
            index < side,
            matrix@.len() == side,
            line@.len() == k,
            forall|j: int|
                0 <= j < k ==> line@[j] == (if vertical {
                    dark(matrix@, index as int, j)
                } else {
                    dark(matrix@, j, index as int)
                }),
        decreases side - k,
    {
        let cell = if vertical {
            matrix.get(index, k)
        } else {
            matrix.get(k, index)
        };
        line.push(cell);
        k += 1;
    }
    proof {
        if vertical {
            assert(line@ =~= column(matrix@, index as int));
        } else {
            assert(line@ =~= row(matrix@, index as int));
        }
    }
    line
}

/// The penalty of the runs of a line.
fn run_penalty_of(line: &Vec<bool>) -> (result: usize)
    ensures
        result == run_penalty(line@),
        result <= line@.len(),
{
    let n = line.len();
    if n == 0 {
        return 0;
    }
    let mut count: usize = 1;
    let mut result: usize = 0;
    let mut j: usize = 1;
    assert(run_penalty_upto(line@, 0) == 0);
    while j < n
        invariant
            1 <= j <= n,
            n == line@.len(),
            1 <= count,
            count == run_length(line@, j - 1),
            result == run_penalty_upto(line@, j - 1),
            result + count <= j,
        decreases n - j,
    {
        if line[j] == line[j - 1] {
            count += 1;
        } else {
            if count >= 5 {
                result += count - 2;
            }
            count = 1;
        }
        j += 1;
    }
    if count >= 5 {
        result += count - 2;
    }
    result
}

/// First rule: runs of five or more modules of one colour.
pub fn calculate_penalty_rule_1(matrix: &QRCode) -> (result: usize)
    requires
        matrix.wf(),
        matrix.side() <= 177,
    ensures
        result == rule_1(matrix@),
        result <= 62658,
{
    let dimension = matrix.dimension();
    let mut result: usize = 0;
    let mut i: usize = 0;
    proof {
        matrix.lemma_view();
    }
    while i < dimension
        invariant
            i <= dimension <= 177,
            dimension == matrix.side(),
            matrix@.len() == dimension,
            matrix.wf(),
            result == rule_1_upto(matrix@, i as int),
            result <= 354 * i,
        decreases dimension - i,
    {
        let down = line_of(matrix, i, true);
        let across = line_of(matrix, i, false);
        result = result + run_penalty_of(&down) + run_penalty_of(&across);
        i += 1;
    }
    result
}

/// The number of two by two blocks of one colour.
pub fn count_boxes(matrix: &QRCode) -> (count: usize)
    requires
        matrix.wf(),
        1 <= matrix.side() <= 177,
    ensures
        count == boxes(matrix@),
        count <= 31329,
{
    let dimension = matrix.dimension();
    let mut count: usize = 0;
    let mut i: usize = 0;
    proof {
        matrix.lemma_view();
    }
    while i < dimension - 1
        invariant
            i <= dimension - 1,
            1 <= dimension <= 177,
            dimension == matrix.side(),
            matrix@.len() == dimension,
            matrix.wf(),
            count == boxes_upto(matrix@, i as int),
            count <= 177 * i,
        decreases dimension - i,
    {
        let mut in_row: usize = 0;
        let mut j: usize = 0;
        while j < dimension - 1
            invariant
                j <= dimension - 1,
                i < dimension - 1,
                1 <= dimension <= 177,
                dimension == matrix.side(),
                matrix@.len() == dimension,
                matrix.wf(),
                in_row == boxes_in_row(matrix@, i as int, j as int),
                in_row <= j,
            decreases dimension - j,
        {
            let corner = matrix.get(j, i);
            if corner == matrix.get(j + 1, i) && corner == matrix.get(j, i + 1) && corner
                == matrix.get(j + 1, i + 1) {
                in_row += 1;
            }
            j += 1;
        }
        count += in_row;
        i += 1;
    }
    count
}

/// Second rule: three for every two by two block of one colour.
pub fn calculate_penalty_rule_2(matrix: &QRCode) -> (result: usize)
    requires
        matrix.wf(),
        1 <= matrix.side() <= 177,
    ensures
        result == rule_2(matrix@),
        result <= 93987,
{
    let boxes = count_boxes(matrix);
    boxes * 3
}

/// Whether the finder-like pattern, or the pattern read backwards, starts
/// at index `start` of the line.
fn pattern_at(line: &Vec<bool>, start: usize, reversed: bool) -> (found: bool)
    requires
        start + 11 <= line.len(),
    ensures
        found == matches_upto(line@, start as int, reversed, 11),
{
    let mut k: usize = 0;
    while k < 11
        invariant
            k <= 11,
            start + 11 <= line.len(),
            matches_upto(line@, start as int, reversed, k as int),
        decreases 11 - k,
    {
        let at = if reversed {
            10 - k
        } else {
            k
        };
        let expected = at == 0 || at == 2 || at == 3 || at == 4 || at == 6;
        if line[start + k] != expected {
            proof {
                lemma_mismatch(line@, start as int, reversed, k as int + 1, 11);
            }
            return false;
        }
        k += 1;
    }
    true
}

/// A line that disagrees with the pattern early disagrees with it as a
/// whole.
proof fn lemma_mismatch(line: Seq<bool>, start: int, reversed: bool, n: int, m: int)
    requires
        !matches_upto(line, start, reversed, n),
        n <= m,
    ensures
        !matches_upto(line, start, reversed, m),
    decreases m - n,
{
    if n < m {
        lemma_mismatch(line, start, reversed, n + 1, m);
    }
}

/// The occurrences of the pattern in a line.
fn occurrences_of(line: &Vec<bool>) -> (count: usize)
    requires
        line@.len() <= 177,
    ensures
        count == occurrences(line@),
        count <= 354,
{
    let n = line.len();
    if n < 11 {
        return 0;
    }
    let mut count: usize = 0;
    let mut j: usize = 0;
    while j < n - 10
        invariant
            j <= n - 10,
            11 <= n <= 177,
            n == line@.len(),
            count == occurrences_upto(line@, j as int),
            count <= 2 * j,
        decreases n - j,
    {
        if pattern_at(line, j, false) {
            count += 1;
        }
        if pattern_at(line, j, true) {
            count += 1;
        }
        j += 1;
    }
    count
}

/// The occurrences of the finder-like pattern in all rows and columns.
pub fn count_occurences(matrix: &QRCode) -> (count: usize)
    requires
        matrix.wf(),
        matrix.side() <= 177,
    ensures
        count == occurrences_in(matrix@, matrix.side() as int),
        count <= 125316,
{
    let dimension = matrix.dimension();
    let mut count: usize = 0;
    let mut i: usize = 0;
    proof {
        matrix.lemma_view();
    }
    while i < dimension
        invariant
            i <= dimension <= 177,
            dimension == matrix.side(),
            matrix@.len() == dimension,
            matrix.wf(),
            count == occurrences_in(matrix@, i as int),
            count <= 708 * i,
        decreases dimension - i,
    {
        let across = line_of(matrix, i, false);
        let down = line_of(matrix, i, true);
        count = count + occurrences_of(&across) + occurrences_of(&down);
        i += 1;
    }
    count
}

/// Third rule: forty for every occurrence of the finder-like pattern.
pub fn calculate_penalty_rule_3(matrix: &QRCode) -> (result: usize)
    requires
        matrix.wf(),
        matrix.side() <= 177,
    ensures
        result == rule_3(matrix@),
        result <= 5012640,
{
    proof {
        matrix.lemma_view();
    }
    count_occurences(matrix) * 40
}

/// The number of dark modules.
fn count_dark(matrix: &QRCode) -> (count: usize)
    requires
        matrix.wf(),
        matrix.side() <= 177,
    ensures
        count == dark_count(matrix@),
        count <= matrix.side() * matrix.side(),
{
    let dimension = matrix.dimension();
    let mut count: usize = 0;
    let mut i: usize = 0;
    proof {
        matrix.lemma_view();
    }
    while i < dimension
        invariant
            i <= dimension <= 177,
            dimension == matrix.side(),
            matrix@.len() == dimension,
            matrix.wf(),
            count == dark_upto(matrix@, i as int),
            count <= i * dimension,
        decreases dimension - i,
    {
        let mut in_row: usize = 0;
        let mut j: usize = 0;
        while j < dimension
            invariant
                j <= dimension <= 177,
                i < dimension,
                dimension == matrix.side(),
                matrix@.len() == dimension,
                matrix.wf(),
                in_row == dark_in_row(matrix@, i as int, j as int),
                in_row <= j,
            decreases dimension - j,
        {
            if matrix.get(j, i) {
                in_row += 1;
            }
            j += 1;
        }
        assert(i * dimension + dimension == (i + 1) * dimension && (i + 1) * dimension <= 177
            * 177) by (nonlinear_arith)
            requires
                i < dimension <= 177,
        ;
        count += in_row;
        i += 1;
    }
    count
}

/// Fourth rule: the share of dark modules.
pub fn calculate_penalty_rule_4(matrix: &QRCode) -> (result: usize)
    requires
        matrix.wf(),
        1 <= matrix.side() <= 177,
    ensures
        result == rule_4(matrix@),
        result <= 100,
{
    let dimension = matrix.dimension();
    proof {
        matrix.lemma_view();
    }
    let dark_count = count_dark(matrix);
    assert(1 <= dimension * dimension <= 177 * 177) by (nonlinear_arith)
        requires
            1 <= dimension <= 177,
    ;
    let total = dimension * dimension;
    let scaled = dark_count * 20;
    let low = scaled / total;
    let high = if scaled % total == 0 {
        low
    } else {
        low + 1
    };
    assert(low <= 20) by (nonlinear_arith)
        requires
            low == scaled / total,
            scaled <= 20 * total,
            total >= 1,
    ;
    let penalty_lower = if low < 10 {
        10 - low
    } else {
        low - 10
    };
    let penalty_upper = if high < 10 {
        10 - high
    } else {
        high - 10
    };
    if penalty_upper < penalty_lower {
        penalty_upper * 10
    } else {
        penalty_lower * 10
    }
}

/// The penalty of the symbol: the sum of the four rules.
pub fn calculate_penalty(matrix: &QRCode) -> (result: usize)
    requires
        matrix.wf(),
        1 <= matrix.side() <= 177,
    ensures
        result == penalty(matrix@),
{
    let mut penalty: usize = 0;
    penalty += calculate_penalty_rule_1(matrix);
    penalty += calculate_penalty_rule_2(matrix);
    penalty += calculate_penalty_rule_3(matrix);
    penalty += calculate_penalty_rule_4(matrix);
    penalty
}

} // verus!
