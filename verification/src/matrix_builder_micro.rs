//! The layout of Micro symbols.

use crate::constants::{FORMAT_INFO_MICRO, MICRO_MAPPING};
use crate::drawing::{distance, fill_rect, in_rect, ring_dark, run_cell, stamp_rings, write_run};
use crate::enums::ErrorCorrection;
use crate::mask::{
    best_mask, candidate_grid, in_grid, lemma_masked_cell, lemma_masked_square, mask_bit, mask_pattern,
    masked, select_mask,
};
use crate::matrix_builder::{overlaid, points, underlaid};
use crate::penalty::dark;
use crate::placement::{lemma_placed_covers, lemma_placed_tracks, place_data, placed};
use crate::qrcode::{complete, square, Grid, QRCode};
use vstd::prelude::*;

verus! {

/// The dark modules among those with the indices 1 to `n - 1` of the last
/// column, if `vertical`, or of the last row.
pub open spec fn dark_on_edge(grid: Grid, vertical: bool, n: int) -> nat
    decreases n,
{
    if n <= 1 {
        0
    } else {
        dark_on_edge(grid, vertical, n - 1) + if (if vertical {
            dark(grid, grid.len() - 1, n - 1)
        } else {
            dark(grid, n - 1, grid.len() - 1)
        }) {
            1nat
        } else {
            0nat
        }
    }
}

/// The evaluation of a masked Micro symbol: the dark modules of the right
/// edge and of the bottom edge are counted, the top and the left module
/// apart; the smaller count is taken sixteen times and the larger added.
pub open spec fn evaluation(grid: Grid) -> nat {
    let sum1 = dark_on_edge(grid, true, grid.len() as int);
    let sum2 = dark_on_edge(grid, false, grid.len() as int);
    if sum1 <= sum2 {
        sum1 * 16 + sum2
    } else {
        sum2 * 16 + sum1
    }
}

/// Evaluates a masked Micro symbol.
pub fn calculate_evaluation(matrix: &QRCode) -> (result: usize)
    requires
        matrix.wf(),
        1 <= matrix.side() <= 177,
    ensures
        result == evaluation(matrix@),
{
    let dimension = matrix.dimension();
    let mut sum1: usize = 0;
    let mut sum2: usize = 0;
    let mut i: usize = 1;
    proof {
        matrix.lemma_view();
    }
    while i < dimension
        invariant
            1 <= i <= dimension <= 177,
            dimension == matrix.side(),
            matrix@.len() == dimension,
            matrix.wf(),
            sum1 == dark_on_edge(matrix@, true, i as int),
            sum2 == dark_on_edge(matrix@, false, i as int),
            sum1 <= i,
            sum2 <= i,
        decreases dimension - i,
    {
        if matrix.get(dimension - 1, i) {
            sum1 += 1;
        }
        if matrix.get(i, dimension - 1) {
            sum2 += 1;
        }
        i += 1;
    }
    if sum1 <= sum2 {
        sum1 * 16 + sum2
    } else {
        sum2 * 16 + sum1
    }
}

/// The finder pattern of a Micro symbol, in the top left corner.
pub open spec fn finder_cell(x: int, y: int) -> Option<bool> {
    if distance(3, 3, x, y) <= 3 {
        Some(ring_dark(3, 3, 3, x, y))
    } else {
        None
    }
}

/// The separator: a light line along the two inner edges of the finder
/// pattern.
pub open spec fn separator_cell(x: int, y: int) -> Option<bool> {
    if in_rect(7, 0, 1, 8, x, y) || in_rect(0, 7, 8, 1, x, y) {
        Some(false)
    } else {
        None
    }
}

/// The timing patterns: row 0 and column 0 behind the finder pattern, dark
/// at even coordinates.
pub open spec fn timing_cell(side: int, x: int, y: int) -> Option<bool> {
    if y == 0 && 8 <= x < side {
        Some(x % 2 == 0)
    } else if x == 0 && 8 <= y < side {
        Some(y % 2 == 0)
    } else {
        None
    }
}

/// The places kept for the format information, beside the finder pattern.
pub open spec fn reserved_cell(x: int, y: int) -> Option<bool> {
    if in_rect(8, 0, 1, 9, x, y) || in_rect(0, 8, 8, 1, x, y) {
        Some(false)
    } else {
        None
    }
}

/// The grid with the function patterns of a Micro symbol: finder pattern,
/// separator, timing patterns and the reserved places, drawn in this order.
pub open spec fn with_function_patterns(grid: Grid) -> Grid {
    underlaid(
        overlaid(
            overlaid(
                overlaid(grid, |x: int, y: int| finder_cell(x, y)),
                |x: int, y: int| separator_cell(x, y),
            ),
            |x: int, y: int| timing_cell(grid.len() as int, x, y),
        ),
        |x: int, y: int| reserved_cell(x, y),
    )
}

/// The `width` low binary digits of `value`, least significant first.
pub open spec fn bits_from_low(value: nat, width: nat) -> Seq<bool>
    decreases width,
{
    if width == 0 {
        Seq::empty()
    } else {
        seq![value % 2 == 1] + bits_from_low(value / 2, (width - 1) as nat)
    }
}

/// The fifteen format bits of a Micro symbol, least significant first. The
/// table is indexed by the symbol number of the version and level, followed
/// by the two bits of the mask.
#[verifier::opaque]
pub open spec fn format_information(version: int, level: ErrorCorrection, mask: int) -> Seq<bool> {
    bits_from_low(
        FORMAT_INFO_MICRO[MICRO_MAPPING[version - 41][level.index() as int] * 4 + mask] as nat,
        15,
    )
}

/// The format bits of a Micro symbol: the first eight down column 8 from
/// row 1, the other seven along row 8 from column 7 to the left.
pub open spec fn format_cell(bits: Seq<bool>, x: int, y: int) -> Option<bool> {
    if run_cell(bits, 0, 8, 8, 1, false, true, x, y) is Some {
        run_cell(bits, 0, 8, 8, 1, false, true, x, y)
    } else {
        run_cell(bits, 8, 7, 7, 8, true, false, x, y)
    }
}

/// The grid with the format bits of a version, a level and a mask written.
pub open spec fn with_format_information(grid: Grid, version: int, level: ErrorCorrection, mask: int) -> Grid {
    overlaid(grid, |x: int, y: int| format_cell(format_information(version, level, mask), x, y))
}

/// The Micro symbol of a version (41 to 44) and level that holds a bit
/// stream: the function patterns are drawn, the stream is placed, the best
/// mask is applied to the data modules, and the format information is
/// written.
pub open spec fn micro_symbol(grid: Grid, version: int, level: ErrorCorrection, data: Seq<bool>) -> Grid {
    let p = placed(with_function_patterns(grid), data, false);
    let mask = best_mask(p.grid, p.coords, true);
    with_format_information(candidate_grid(p.grid, p.coords, mask, true), version, level, mask)
}

/// The format information is written on reserved places: every module that
/// holds a bit of it is a module of the function patterns, so none of them
/// holds data.
pub proof fn lemma_information_on_reserved_places(grid: Grid, bits: Seq<bool>, x: int, y: int)
    requires
        square(grid, grid.len()),
        grid.len() >= 11,
        0 <= x < grid.len(),
        0 <= y < grid.len(),
        format_cell(bits, x, y) is Some,
    ensures
        with_function_patterns(grid)[y][x] is Some,
{
    assert(reserved_cell(x, y) is Some);
}

/// The function patterns set every module of column 0.
pub proof fn lemma_first_column_set(grid: Grid, y: int)
    requires
        square(grid, grid.len()),
        grid.len() >= 11,
        0 <= y < grid.len(),
    ensures
        square(with_function_patterns(grid), grid.len()),
        with_function_patterns(grid)[y][0] is Some,
{
    let g1 = overlaid(grid, |x: int, y: int| finder_cell(x, y));
    let g2 = overlaid(g1, |x: int, y: int| separator_cell(x, y));
    let g3 = overlaid(g2, |x: int, y: int| timing_cell(grid.len() as int, x, y));
    let g4 = with_function_patterns(grid);
    assert(g4 == underlaid(g3, |x: int, y: int| reserved_cell(x, y)));
    if y <= 6 {
        assert(g1[y][0] is Some);
        assert(g2[y][0] is Some);
    } else if y == 7 {
        assert(g2[y][0] is Some);
    }
    assert(g3[y][0] is Some);
}

/// A mask changes data modules only: under any mask pattern, a module of
/// the function patterns is as it was drawn, and a module that received
/// data is inverted where the pattern holds for it and is as it was placed
/// elsewhere.
pub proof fn lemma_mask_spares_function_patterns(grid: Grid, data: Seq<bool>, pattern: int, x: int, y: int)
    requires
        square(grid, grid.len()),
        grid.len() >= 11,
        grid.len() % 2 == 1,
        0 <= x < grid.len(),
        0 <= y < grid.len(),
    ensures
        ({
            let patterns = with_function_patterns(grid);
            let p = placed(patterns, data, false);
            masked(p.grid, p.coords, pattern)[y][x] == (if patterns[y][x] is Some {
                patterns[y][x]
            } else if mask_bit(pattern, x, y) {
                Some(!(p.grid[y][x] == Some(true)))
            } else {
                p.grid[y][x]
            })
        }),
{
    let patterns = with_function_patterns(grid);
    lemma_first_column_set(grid, y);
    lemma_placed_tracks(patterns, data, false);
    let p = placed(patterns, data, false);
    lemma_masked_cell(p.grid, p.coords, pattern, grid.len(), x, y);
    if patterns[y][x] is Some {
        assert(p.grid[y][x] == patterns[y][x]);
        if p.coords.contains((x, y)) {
            let k = choose|k: int| 0 <= k < p.coords.len() && p.coords[k] == (x, y);
            assert(patterns[p.coords[k].1][p.coords[k].0] is None);
        }
    } else if mask_bit(pattern, x, y) {
        lemma_placed_covers(patterns, data, false);
        assert(p.grid[y][x] is Some);
    }
}

/// Every module of a Micro symbol is set: the function patterns fill
/// column 0, and the data placement fills all other columns.
pub proof fn lemma_micro_symbol_complete(grid: Grid, version: int, level: ErrorCorrection, data: Seq<bool>)
    requires
        41 <= version <= 44,
        square(grid, (2 * version - 71) as nat),
    ensures
        square(micro_symbol(grid, version, level, data), (2 * version - 71) as nat),
        complete(micro_symbol(grid, version, level, data)),
{
    let side = (2 * version - 71) as nat;
    let g4 = with_function_patterns(grid);
    assert forall|y: int| 0 <= y < side implies (#[trigger] g4[y])[0] is Some by {
        lemma_first_column_set(grid, y);
    }
    lemma_first_column_set(grid, 0);
    lemma_placed_covers(g4, data, false);
    let p = placed(g4, data, false);
    let mask = best_mask(p.grid, p.coords, true);
    lemma_masked_square(p.grid, p.coords, mask_pattern(mask, true), side);
    let g5 = candidate_grid(p.grid, p.coords, mask, true);
    let g6 = with_format_information(g5, version, level, mask);
    assert forall|x: int, y: int| 0 <= y < g6.len() && 0 <= x < g6[y].len() implies g6[y][x] is Some by {
        if x == 0 {
            assert(g4[y][0] is Some);
        }
        assert(p.grid[y][x] is Some);
        assert(g5[y][x] is Some);
    }
}

/// Draws the finder pattern.
pub fn add_finder_patterns(matrix: &mut QRCode)
    requires
        old(matrix).wf(),
        old(matrix).side() >= 11,
    ensures
        final(matrix).wf(),
        final(matrix).side() == old(matrix).side(),
        final(matrix)@ == overlaid(old(matrix)@, |x: int, y: int| finder_cell(x, y)),
{
    proof {
        matrix.lemma_view();
    }
    stamp_rings(matrix, 3, 3, 3);
    proof {
        matrix.lemma_view_is(overlaid(old(matrix)@, |x: int, y: int| finder_cell(x, y)));
    }
}

/// Draws the separator.
pub fn add_separators(matrix: &mut QRCode)
    requires
        old(matrix).wf(),
        old(matrix).side() >= 11,
    ensures
        final(matrix).wf(),
        final(matrix).side() == old(matrix).side(),
        final(matrix)@ == overlaid(old(matrix)@, |x: int, y: int| separator_cell(x, y)),
{
    proof {
        matrix.lemma_view();
    }
    fill_rect(matrix, 7, 0, 1, 8, false, false);
    fill_rect(matrix, 0, 7, 8, 1, false, false);
    proof {
        matrix.lemma_view_is(overlaid(old(matrix)@, |x: int, y: int| separator_cell(x, y)));
    }
}

/// Draws the timing patterns.
pub fn add_timing_patterns(matrix: &mut QRCode)
    requires
        old(matrix).wf(),
        old(matrix).side() >= 11,
    ensures
        final(matrix).wf(),
        final(matrix).side() == old(matrix).side(),
        final(matrix)@ == overlaid(
            old(matrix)@,
            |x: int, y: int| timing_cell(old(matrix).side() as int, x, y),
        ),
{
    let dimension = matrix.dimension();
    proof {
        matrix.lemma_view();
    }
    let mut i: usize = 8;
    while i < dimension
        invariant
            8 <= i <= dimension,
            matrix.wf(),
            matrix.side() == dimension,
            old(matrix).side() == dimension,
            forall|x: int, y: int|
                0 <= x < dimension && 0 <= y < dimension ==> #[trigger] matrix.at(x, y) == (
                if timing_cell(i as int, x, y) is Some {
                    timing_cell(i as int, x, y)
                } else {
                    old(matrix).at(x, y)
                }),
        decreases dimension - i,
    {
        matrix.set(i, 0, i % 2 == 0);
        matrix.set(0, i, i % 2 == 0);
        i += 1;
    }
    proof {
        matrix.lemma_view_is(
            overlaid(old(matrix)@, |x: int, y: int| timing_cell(old(matrix).side() as int, x, y)),
        );
    }
}

/// Keeps the places of the format information as light modules.
pub fn add_reserverd_area(matrix: &mut QRCode)
    requires
        old(matrix).wf(),
        old(matrix).side() >= 11,
    ensures
        final(matrix).wf(),
        final(matrix).side() == old(matrix).side(),
        final(matrix)@ == underlaid(old(matrix)@, |x: int, y: int| reserved_cell(x, y)),
{
    proof {
        matrix.lemma_view();
    }
    fill_rect(matrix, 8, 0, 1, 9, false, true);
    fill_rect(matrix, 0, 8, 8, 1, false, true);
    proof {
        matrix.lemma_view_is(underlaid(old(matrix)@, |x: int, y: int| reserved_cell(x, y)));
    }
}

/// Places the bit stream and returns the data modules.
pub fn add_data(matrix: &mut QRCode, data: Vec<bool>) -> (visited: Vec<(usize, usize)>)
    requires
        old(matrix).wf(),
        old(matrix).side() >= 11,
        old(matrix).side() % 2 == 1,
    ensures
        final(matrix).wf(),
        final(matrix).side() == old(matrix).side(),
        final(matrix)@ == placed(old(matrix)@, data@, false).grid,
        points(visited@) == placed(old(matrix)@, data@, false).coords,
        in_grid(points(visited@), final(matrix).side()),
{
    proof {
        old(matrix).lemma_view();
        lemma_placed_covers(old(matrix)@, data@, false);
    }
    place_data(matrix, &data, false)
}

/// Applies the mask with the highest evaluation and returns its number.
pub fn apply_mask(matrix: &mut QRCode, data_coordinates: Vec<(usize, usize)>) -> (mask: u32)
    requires
        old(matrix).wf(),
        1 <= old(matrix).side() <= 177,
        in_grid(points(data_coordinates@), old(matrix).side()),
    ensures
        final(matrix).wf(),
        final(matrix).side() == old(matrix).side(),
        mask == best_mask(old(matrix)@, points(data_coordinates@), true),
        mask < 4,
        final(matrix)@ == candidate_grid(old(matrix)@, points(data_coordinates@), mask as int, true),
{
    select_mask(matrix, &data_coordinates, true)
}

/// The format bits of a Micro symbol, least significant first.
pub fn get_format_information(error_correction: &ErrorCorrection, version: usize, mask: u32) -> (bits: Vec<
    bool,
>)
    requires
        41 <= version <= 44,
        mask < 4,
    ensures
        bits@ == format_information(version as int, *error_correction, mask as int),
        bits@.len() == 15,
{
    reveal(format_information);
    let ec_level = error_correction.to_value();
    let symbol = MICRO_MAPPING[version - 41][ec_level];
    assert(symbol <= 7);
    let mapping = symbol * 4 + mask as usize;
    let format_information = FORMAT_INFO_MICRO[mapping];
    let mut bits: Vec<bool> = Vec::new();
    let mut rest: usize = format_information as usize;
    let mut i: usize = 0;
    assert(bits@ + bits_from_low(rest as nat, 15) =~= bits_from_low(format_information as nat, 15));
    while i < 15
        invariant
            i <= 15,
            bits@.len() == i,
            bits@ + bits_from_low(rest as nat, (15 - i) as nat) == bits_from_low(
                format_information as nat,
                15,
            ),
        decreases 15 - i,
    {
        let ghost before = bits@;
        bits.push(rest % 2 == 1);
        assert(bits@ + bits_from_low((rest / 2) as nat, (15 - i - 1) as nat) =~= before + bits_from_low(
            rest as nat,
            (15 - i) as nat,
        ));
        rest = rest / 2;
        i += 1;
    }
    assert(bits@ =~= bits@ + bits_from_low(rest as nat, 0));
    bits
}

/// Writes the format information.
pub fn apply_format_version_information(
    matrix: &mut QRCode,
    version: usize,
    error_correction: &ErrorCorrection,
    mask: u32,
)
    requires
        old(matrix).wf(),
        41 <= version <= 44,
        old(matrix).side() >= 11,
        mask < 4,
    ensures
        final(matrix).wf(),
        final(matrix).side() == old(matrix).side(),
        final(matrix)@ == with_format_information(
            old(matrix)@,
            version as int,
            *error_correction,
            mask as int,
        ),
{
    let format_information_string = get_format_information(error_correction, version, mask);
    proof {
        matrix.lemma_view();
    }
    write_run(matrix, &format_information_string, 0, 8, 8, 1, false, true);
    write_run(matrix, &format_information_string, 8, 7, 7, 8, true, false);
    proof {
        matrix.lemma_view_is(
            with_format_information(old(matrix)@, version as int, *error_correction, mask as int),
        );
    }
}

/// Builds the Micro symbol of a version and level around a bit stream.
pub fn build_qr_matrix(matrix: &mut QRCode, version: usize, error_correction: &ErrorCorrection, data: Vec<bool>)
    requires
        old(matrix).wf(),
        41 <= version <= 44,
        old(matrix).side() == 2 * version - 71,
    ensures
        final(matrix).wf(),
        final(matrix).side() == old(matrix).side(),
        final(matrix)@ == micro_symbol(old(matrix)@, version as int, *error_correction, data@),
        complete(final(matrix)@),
{
    proof {
        matrix.lemma_view();
        lemma_micro_symbol_complete(matrix@, version as int, *error_correction, data@);
    }
    add_finder_patterns(matrix);
    add_separators(matrix);
    add_timing_patterns(matrix);
    add_reserverd_area(matrix);
    let data_coordinates = add_data(matrix, data);
    let mask = apply_mask(matrix, data_coordinates);
    apply_format_version_information(matrix, version, error_correction, mask);
}

} // verus!
