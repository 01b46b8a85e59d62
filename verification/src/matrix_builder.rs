//! The layout of full-size symbols: function patterns, data placement,
//! masking, and format and version information.

use crate::constants::{
    ALIGNMENT_PATTERN_COUNT, ALIGNMENT_PATTERN_LOCATION, FORMAT_INFORMATION, VERSION_INFORMATION,
};
use crate::drawing::{distance, fill_rect, in_rect, ring_dark, run_cell, stamp_rings, write_run};
use crate::enums::ErrorCorrection;
use crate::mask::{
    best_mask, candidate_grid, in_grid, lemma_masked_cell, lemma_masked_square, mask_bit, mask_pattern,
    masked, select_mask,
};
use crate::placement::{lemma_placed_covers, lemma_placed_tracks, place_data, placed};
use crate::qrcode::{complete, square, Grid, QRCode};
use crate::utils::{bits_of, lemma_bits_of_len, push_bits};
use vstd::prelude::*;

verus! {

/// The grid with every module redrawn for which the layer holds a value.
pub open spec fn overlaid(grid: Grid, layer: spec_fn(int, int) -> Option<bool>) -> Grid {
    Seq::new(
        grid.len(),
        |y: int|
            Seq::new(
                grid.len(),
                |x: int|
                    if layer(x, y) is Some {
                        layer(x, y)
                    } else {
                        grid[y][x]
                    },
            ),
    )
}

/// The grid with every unset module drawn for which the layer holds a value.
pub open spec fn underlaid(grid: Grid, layer: spec_fn(int, int) -> Option<bool>) -> Grid {
    Seq::new(
        grid.len(),
        |y: int|
            Seq::new(
                grid.len(),
                |x: int|
                    if grid[y][x] is None {
                        layer(x, y)
                    } else {
                        grid[y][x]
                    },
            ),
    )
}

/// The three finder patterns of a full-size symbol: in the corners at the
/// top left, the top right and the bottom left.
pub open spec fn finder_cell(side: int, x: int, y: int) -> Option<bool> {
    if distance(3, 3, x, y) <= 3 {
        Some(ring_dark(3, 3, 3, x, y))
    } else if distance(side - 4, 3, x, y) <= 3 {
        Some(ring_dark(side - 4, 3, 3, x, y))
    } else if distance(3, side - 4, x, y) <= 3 {
        Some(ring_dark(3, side - 4, 3, x, y))
    } else {
        None
    }
}

/// The separators: a light line along the two inner edges of each finder
/// pattern.
pub open spec fn separator_cell(side: int, x: int, y: int) -> Option<bool> {
    if in_rect(7, 0, 1, 8, x, y) || in_rect(0, 7, 8, 1, x, y) || in_rect(side - 8, 0, 1, 8, x, y)
        || in_rect(side - 8, 7, 8, 1, x, y) || in_rect(0, side - 8, 8, 1, x, y) || in_rect(
        7,
        side - 8,
        1,
        8,
        x,
        y,
    ) {
        Some(false)
    } else {
        None
    }
}

/// One alignment pattern around the centre `(cx, cy)`.
pub open spec fn alignment_cell(cx: int, cy: int, x: int, y: int) -> Option<bool> {
    if distance(cx, cy, x, y) <= 2 {
        Some(ring_dark(cx, cy, 2, x, y))
    } else {
        None
    }
}

/// The timing patterns: row 6 and column 6 between the finder patterns,
/// dark at even coordinates.
pub open spec fn timing_cell(side: int, x: int, y: int) -> Option<bool> {
    if y == 6 && 8 <= x < side - 8 {
        Some(x % 2 == 0)
    } else if x == 6 && 8 <= y < side - 8 {
        Some(y % 2 == 0)
    } else {
        None
    }
}

/// The dark module beside the bottom left finder pattern.
pub open spec fn dark_cell(side: int, x: int, y: int) -> Option<bool> {
    if x == 8 && y == side - 8 {
        Some(true)
    } else {
        None
    }
}

/// The places kept for the format information, beside the finder patterns,
/// and from version 7 on those for the version information.
pub open spec fn reserved_cell(side: int, version: int, x: int, y: int) -> Option<bool> {
    if in_rect(8, 0, 1, 9, x, y) || in_rect(0, 8, 8, 1, x, y) || in_rect(8, side - 7, 1, 7, x, y)
        || in_rect(side - 8, 8, 8, 1, x, y) {
        Some(false)
    } else if version >= 7 && (in_rect(0, side - 11, 6, 3, x, y) || in_rect(
        side - 11,
        0,
        3,
        6,
        x,
        y,
    )) {
        Some(false)
    } else {
        None
    }
}

/// The grid with the finder patterns drawn.
pub open spec fn with_finder_patterns(grid: Grid) -> Grid {
    overlaid(grid, |x: int, y: int| finder_cell(grid.len() as int, x, y))
}

/// The grid with the separators drawn.
pub open spec fn with_separators(grid: Grid) -> Grid {
    overlaid(grid, |x: int, y: int| separator_cell(grid.len() as int, x, y))
}

/// The grid with the timing patterns drawn.
pub open spec fn with_timing_patterns(grid: Grid) -> Grid {
    overlaid(grid, |x: int, y: int| timing_cell(grid.len() as int, x, y))
}

/// The grid with the dark module drawn.
pub open spec fn with_dark_module(grid: Grid) -> Grid {
    overlaid(grid, |x: int, y: int| dark_cell(grid.len() as int, x, y))
}

/// The grid with the unset modules among the reserved places made light.
pub open spec fn with_reserved_area(grid: Grid, version: int) -> Grid {
    underlaid(grid, |x: int, y: int| reserved_cell(grid.len() as int, version, x, y))
}

/// Number of alignment coordinates of a full-size version.
#[verifier::opaque]
pub open spec fn alignment_count(version: int) -> nat {
    if 1 <= version <= 40 {
        ALIGNMENT_PATTERN_COUNT[version - 1] as nat
    } else {
        0
    }
}

/// Alignment coordinate `i` of a full-size version.
#[verifier::opaque]
pub open spec fn alignment_coordinate(version: int, i: int) -> int {
    ALIGNMENT_PATTERN_LOCATION[version - 1][i] as int
}

/// The candidate centres of the alignment patterns of a version: every pair
/// of alignment coordinates, the column running slowest.
pub open spec fn alignment_coordinates(version: int) -> Seq<(int, int)> {
    let n = alignment_count(version);
    Seq::new(
        n * n,
        |k: int| (alignment_coordinate(version, k / n as int), alignment_coordinate(version, k % n as int)),
    )
}

/// The grid with an alignment pattern around each of the centres, taken in
/// order, whose module is still unset.
pub open spec fn with_alignment_patterns(grid: Grid, centres: Seq<(int, int)>) -> Grid
    decreases centres.len(),
{
    if centres.len() == 0 {
        grid
    } else {
        let before = with_alignment_patterns(grid, centres.drop_last());
        let centre = centres.last();
        if before[centre.1][centre.0] is None {
            overlaid(before, |x: int, y: int| alignment_cell(centre.0, centre.1, x, y))
        } else {
            before
        }
    }
}

/// The points of a vector of coordinates.
pub open spec fn points(coordinates: Seq<(usize, usize)>) -> Seq<(int, int)> {
    Seq::new(coordinates.len(), |k: int| (coordinates[k].0 as int, coordinates[k].1 as int))
}

/// Draws the three finder patterns.
pub fn add_finder_patterns(matrix: &mut QRCode)
    requires
        old(matrix).wf(),
        old(matrix).side() >= 21,
    ensures
        final(matrix).wf(),
        final(matrix).side() == old(matrix).side(),
        final(matrix)@ == with_finder_patterns(old(matrix)@),
{
    let dimension = matrix.dimension();
    proof {
        matrix.lemma_view();
    }
    stamp_rings(matrix, 3, 3, 3);
    stamp_rings(matrix, dimension - 4, 3, 3);
    stamp_rings(matrix, 3, dimension - 4, 3);
    proof {
        matrix.lemma_view_is(with_finder_patterns(old(matrix)@));
    }
}

/// Draws the separators.
pub fn add_separators(matrix: &mut QRCode)
    requires
        old(matrix).wf(),
        old(matrix).side() >= 21,
    ensures
        final(matrix).wf(),
        final(matrix).side() == old(matrix).side(),
        final(matrix)@ == with_separators(old(matrix)@),
{
    let dimension = matrix.dimension();
    proof {
        matrix.lemma_view();
    }
    fill_rect(matrix, 7, 0, 1, 8, false, false);
    fill_rect(matrix, 0, 7, 8, 1, false, false);
    fill_rect(matrix, dimension - 8, 0, 1, 8, false, false);
    fill_rect(matrix, dimension - 8, 7, 8, 1, false, false);
    fill_rect(matrix, 0, dimension - 8, 8, 1, false, false);
    fill_rect(matrix, 7, dimension - 8, 1, 8, false, false);
    proof {
        matrix.lemma_view_is(with_separators(old(matrix)@));
    }
}

/// Draws the timing patterns.
pub fn add_timing_patterns(matrix: &mut QRCode)
    requires
        old(matrix).wf(),
        old(matrix).side() >= 21,
    ensures
        final(matrix).wf(),
        final(matrix).side() == old(matrix).side(),
        final(matrix)@ == with_timing_patterns(old(matrix)@),
{
    let dimension = matrix.dimension();
    proof {
        matrix.lemma_view();
    }
    let mut i: usize = 8;
    while i < dimension - 8
        invariant
            8 <= i,
            dimension >= 21,
            i <= dimension - 8,
            matrix.wf(),
            matrix.side() == dimension,
            old(matrix).side() == dimension,
            forall|x: int, y: int|
                0 <= x < dimension && 0 <= y < dimension ==> #[trigger] matrix.at(x, y) == (
                if timing_cell(i + 8, x, y) is Some {
                    timing_cell(i + 8, x, y)
                } else {
                    old(matrix).at(x, y)
                }),
        decreases dimension - i,
    {
        matrix.set(i, 6, i % 2 == 0);
        matrix.set(6, i, i % 2 == 0);
        i += 1;
    }
    proof {
        matrix.lemma_view_is(with_timing_patterns(old(matrix)@));
    }
}

/// Draws the dark module.
pub fn add_dark_module(matrix: &mut QRCode, version: usize)
    requires
        old(matrix).wf(),
        1 <= version <= 40,
        old(matrix).side() == 4 * version + 17,
    ensures
        final(matrix).wf(),
        final(matrix).side() == old(matrix).side(),
        final(matrix)@ == with_dark_module(old(matrix)@),
{
    proof {
        matrix.lemma_view();
    }
    let x: usize = 8;
    let y: usize = 4 * version + 9;
    matrix.set(x, y, true);
    proof {
        matrix.lemma_view_is(with_dark_module(old(matrix)@));
    }
}

/// Keeps the places of the format information, and from version 7 on those
/// of the version information, as light modules.
pub fn add_reseverd_area(matrix: &mut QRCode, version: usize)
    requires
        old(matrix).wf(),
        1 <= version <= 40,
        old(matrix).side() == 4 * version + 17,
    ensures
        final(matrix).wf(),
        final(matrix).side() == old(matrix).side(),
        final(matrix)@ == with_reserved_area(old(matrix)@, version as int),
{
    proof {
        matrix.lemma_view();
    }
    add_reserverd_area(matrix);
    if version >= 7 {
        add_reserverd_area_v7_to_v40(matrix);
    }
    proof {
        matrix.lemma_view_is(with_reserved_area(old(matrix)@, version as int));
    }
}

/// Keeps the places of the format information.
pub fn add_reserverd_area(matrix: &mut QRCode)
    requires
        old(matrix).wf(),
        old(matrix).side() >= 21,
    ensures
        final(matrix).wf(),
        final(matrix).side() == old(matrix).side(),
        forall|x: int, y: int|
            0 <= x < old(matrix).side() && 0 <= y < old(matrix).side() ==> #[trigger] final(matrix).at(
                x,
                y,
            ) == (if old(matrix).at(x, y) is None {
                reserved_cell(old(matrix).side() as int, 1, x, y)
            } else {
                old(matrix).at(x, y)
            }),
{
    let dimension = matrix.dimension();
    fill_rect(matrix, 8, 0, 1, 9, false, true);
    fill_rect(matrix, 0, 8, 8, 1, false, true);
    fill_rect(matrix, 8, dimension - 7, 1, 7, false, true);
    fill_rect(matrix, dimension - 8, 8, 8, 1, false, true);
}

/// Keeps the places of the version information.
pub fn add_reserverd_area_v7_to_v40(matrix: &mut QRCode)
    requires
        old(matrix).wf(),
        old(matrix).side() >= 21,
    ensures
        final(matrix).wf(),
        final(matrix).side() == old(matrix).side(),
        forall|x: int, y: int|
            0 <= x < old(matrix).side() && 0 <= y < old(matrix).side() ==> #[trigger] final(matrix).at(
                x,
                y,
            ) == (if old(matrix).at(x, y) is None && (in_rect(
                0,
                old(matrix).side() - 11,
                6,
                3,
                x,
                y,
            ) || in_rect(old(matrix).side() - 11, 0, 3, 6, x, y)) {
                Some(false)
            } else {
                old(matrix).at(x, y)
            }),
{
    let dimension = matrix.dimension();
    fill_rect(matrix, 0, dimension - 11, 6, 3, false, true);
    fill_rect(matrix, dimension - 11, 0, 3, 6, false, true);
}

/// The two level bits of the format information.
pub open spec fn level_bits(level: ErrorCorrection) -> nat {
    match level {
        ErrorCorrection::L => 1,
        ErrorCorrection::M => 0,
        ErrorCorrection::Q => 3,
        ErrorCorrection::H => 2,
    }
}

/// The fifteen format bits of a level and a mask, most significant first.
#[verifier::opaque]
pub open spec fn format_information(level: ErrorCorrection, mask: int) -> Seq<bool> {
    bits_of(FORMAT_INFORMATION[level_bits(level) * 8 + mask] as nat, 15)
}

/// The eighteen version bits of a version from 7 on, most significant
/// first.
#[verifier::opaque]
pub open spec fn version_information(version: int) -> Seq<bool> {
    bits_of(VERSION_INFORMATION[version - 7] as nat, 18)
}

/// The two copies of the format bits: one around the top left finder
/// pattern, leaving out the timing row and column, and one split between
/// the bottom left and the top right finder pattern.
pub open spec fn format_cell(side: int, bits: Seq<bool>, x: int, y: int) -> Option<bool> {
    if run_cell(bits, 0, 6, 0, 8, true, true, x, y) is Some {
        run_cell(bits, 0, 6, 0, 8, true, true, x, y)
    } else if run_cell(bits, 6, 2, 7, 8, true, true, x, y) is Some {
        run_cell(bits, 6, 2, 7, 8, true, true, x, y)
    } else if run_cell(bits, 8, 1, 8, 7, false, false, x, y) is Some {
        run_cell(bits, 8, 1, 8, 7, false, false, x, y)
    } else if run_cell(bits, 9, 6, 8, 5, false, false, x, y) is Some {
        run_cell(bits, 9, 6, 8, 5, false, false, x, y)
    } else if run_cell(bits, 0, 7, 8, side - 1, false, false, x, y) is Some {
        run_cell(bits, 0, 7, 8, side - 1, false, false, x, y)
    } else {
        run_cell(bits, 7, 8, side - 8, 8, true, true, x, y)
    }
}

/// The two copies of the version bits, as far as the first `lines` lines of
/// three bits: one block to the left of the top right finder pattern, filled
/// from its bottom row upwards and in each row from the right, and its
/// mirror image above the bottom left finder pattern.
pub open spec fn version_cell(side: int, bits: Seq<bool>, lines: int, x: int, y: int) -> Option<bool> {
    if side - 11 <= x <= side - 9 && 0 <= y <= 5 && 5 - y < lines {
        Some(bits[3 * (5 - y) + (side - 9 - x)])
    } else if 0 <= x <= 5 && side - 11 <= y <= side - 9 && 5 - x < lines {
        Some(bits[3 * (5 - x) + (side - 9 - y)])
    } else {
        None
    }
}

/// The grid with the version bits written, from version 7 on.
pub open spec fn with_version_information(grid: Grid, version: int) -> Grid {
    if version >= 7 {
        overlaid(
            grid,
            |x: int, y: int| version_cell(grid.len() as int, version_information(version), 6, x, y),
        )
    } else {
        grid
    }
}

/// The grid with the format bits of a level and a mask written.
pub open spec fn with_format_information(grid: Grid, level: ErrorCorrection, mask: int) -> Grid {
    overlaid(grid, |x: int, y: int| format_cell(grid.len() as int, format_information(level, mask), x, y))
}

/// The grid with the function patterns of a full-size symbol: finder
/// patterns, separators, alignment patterns, timing patterns, the dark
/// module and the reserved places, drawn in this order.
pub open spec fn with_function_patterns(grid: Grid, version: int) -> Grid {
    with_reserved_area(
        with_dark_module(
            with_timing_patterns(
                with_alignment_patterns(
                    with_separators(with_finder_patterns(grid)),
                    alignment_coordinates(version),
                ),
            ),
        ),
        version,
    )
}

/// The full-size symbol of a version and level that holds a bit stream:
/// the function patterns are drawn, the stream is placed, the best mask is
/// applied to the data modules, and the version and format information is
/// written.
pub open spec fn standard_symbol(grid: Grid, version: int, level: ErrorCorrection, data: Seq<bool>) -> Grid {
    let p = placed(with_function_patterns(grid, version), data, true);
    let mask = best_mask(p.grid, p.coords, false);
    with_format_information(
        with_version_information(candidate_grid(p.grid, p.coords, mask, false), version),
        level,
        mask,
    )
}

/// The candidate centres of the alignment patterns of a version.
pub fn get_alignment_location(version: usize) -> (centres: Vec<(usize, usize)>)
    requires
        1 <= version <= 40,
    ensures
        points(centres@) == alignment_coordinates(version as int),
        forall|k: int|
            0 <= k < centres@.len() ==> 6 <= (#[trigger] centres@[k]).0 <= 4 * version + 10 && 6
                <= centres@[k].1 <= 4 * version + 10,
{
    reveal(alignment_count);
    reveal(alignment_coordinate);
    let mut centres: Vec<(usize, usize)> = Vec::new();
    let count = ALIGNMENT_PATTERN_COUNT[version - 1];
    let row = ALIGNMENT_PATTERN_LOCATION[version - 1];
    assert(count <= 7);
    assert(forall|i: int| 0 <= i < count ==> 6 <= #[trigger] row[i] <= 4 * version + 10);
    let mut i: usize = 0;
    while i < count
        invariant
            i <= count <= 7,
            1 <= version <= 40,
            count == alignment_count(version as int),
            row == ALIGNMENT_PATTERN_LOCATION[version - 1],
            forall|i: int| 0 <= i < count ==> 6 <= #[trigger] row[i] <= 4 * version + 10,
            centres@.len() == i * count,
            forall|k: int|
                0 <= k < centres@.len() ==> (#[trigger] centres@[k]) == (
                    row[k / count as int],
                    row[k % count as int],
                ),
            forall|k: int|
                0 <= k < centres@.len() ==> 6 <= (#[trigger] centres@[k]).0 <= 4 * version + 10 && 6
                    <= centres@[k].1 <= 4 * version + 10,
        decreases count - i,
    {
        let mut j: usize = 0;
        while j < count
            invariant
                j <= count <= 7,
                i < count,
                1 <= version <= 40,
                row == ALIGNMENT_PATTERN_LOCATION[version - 1],
                forall|i: int| 0 <= i < count ==> 6 <= #[trigger] row[i] <= 4 * version + 10,
                centres@.len() == i * count + j,
                forall|k: int|
                    0 <= k < centres@.len() ==> (#[trigger] centres@[k]) == (
                        row[k / count as int],
                        row[k % count as int],
                    ),
                forall|k: int|
                    0 <= k < centres@.len() ==> 6 <= (#[trigger] centres@[k]).0 <= 4 * version + 10
                        && 6 <= centres@[k].1 <= 4 * version + 10,
            decreases count - j,
        {
            proof {
                vstd::arithmetic::div_mod::lemma_fundamental_div_mod_converse(
                    i * count + j,
                    count as int,
                    i as int,
                    j as int,
                );
            }
            centres.push((row[i], row[j]));
            j += 1;
        }
        assert(i * count + count == (i + 1) * count) by (nonlinear_arith);
        i += 1;
    }
    assert(points(centres@) =~= alignment_coordinates(version as int));
    centres
}

/// Draws the alignment patterns.
pub fn add_alignment_patterns(matrix: &mut QRCode, version: usize)
    requires
        old(matrix).wf(),
        1 <= version <= 40,
        old(matrix).side() == 4 * version + 17,
    ensures
        final(matrix).wf(),
        final(matrix).side() == old(matrix).side(),
        final(matrix)@ == with_alignment_patterns(old(matrix)@, alignment_coordinates(version as int)),
{
    let alignment_location = get_alignment_location(version);
    let ghost centres = points(alignment_location@);
    let mut k: usize = 0;
    assert(centres.take(0) =~= Seq::<(int, int)>::empty());
    while k < alignment_location.len()
        invariant
            k <= alignment_location.len(),
            centres == points(alignment_location@),
            1 <= version <= 40,
            matrix.wf(),
            matrix.side() == 4 * version + 17,
            forall|k: int|
                0 <= k < alignment_location@.len() ==> 6 <= (#[trigger] alignment_location@[k]).0 <= 4
                    * version + 10 && 6 <= alignment_location@[k].1 <= 4 * version + 10,
            matrix@ == with_alignment_patterns(old(matrix)@, centres.take(k as int)),
        decreases alignment_location.len() - k,
    {
        let (x, y) = alignment_location[k];
        proof {
            assert(centres[k as int] == (x as int, y as int));
            assert(centres.take(k + 1).drop_last() =~= centres.take(k as int));
            assert(centres.take(k + 1).last() == centres[k as int]);
            matrix.lemma_view();
        }
        if matrix.is_empty(x, y) {
            let ghost before = matrix@;
            stamp_rings(matrix, x, y, 2);
            proof {
                matrix.lemma_view_is(
                    overlaid(before, |x2: int, y2: int| alignment_cell(x as int, y as int, x2, y2)),
                );
            }
        }
        k += 1;
    }
    assert(centres.take(alignment_location.len() as int) =~= centres);
}

/// Places the bit stream and returns the data modules.
pub fn add_data(matrix: &mut QRCode, data: Vec<bool>) -> (visited: Vec<(usize, usize)>)
    requires
        old(matrix).wf(),
        old(matrix).side() >= 21,
        old(matrix).side() % 2 == 1,
    ensures
        final(matrix).wf(),
        final(matrix).side() == old(matrix).side(),
        final(matrix)@ == placed(old(matrix)@, data@, true).grid,
        points(visited@) == placed(old(matrix)@, data@, true).coords,
        in_grid(points(visited@), final(matrix).side()),
{
    proof {
        old(matrix).lemma_view();
        crate::placement::lemma_placed_covers(old(matrix)@, data@, true);
    }
    place_data(matrix, &data, true)
}

/// Applies the mask with the lowest penalty and returns its number.
pub fn apply_mask(matrix: &mut QRCode, data_coordinates: Vec<(usize, usize)>) -> (mask: u32)
    requires
        old(matrix).wf(),
        1 <= old(matrix).side() <= 177,
        in_grid(points(data_coordinates@), old(matrix).side()),
    ensures
        final(matrix).wf(),
        final(matrix).side() == old(matrix).side(),
        mask == best_mask(old(matrix)@, points(data_coordinates@), false),
        mask < 8,
        final(matrix)@ == candidate_grid(old(matrix)@, points(data_coordinates@), mask as int, false),
{
    select_mask(matrix, &data_coordinates, false)
}

/// The format bits of a level and a mask.
pub fn get_format_information(error_correction: &ErrorCorrection, mask: u32) -> (bits: Vec<bool>)
    requires
        mask < 8,
    ensures
        bits@ == format_information(*error_correction, mask as int),
        bits@.len() == 15,
{
    reveal(format_information);
    let ec_level: usize = match error_correction {
        ErrorCorrection::L => 1,
        ErrorCorrection::M => 0,
        ErrorCorrection::Q => 3,
        ErrorCorrection::H => 2,
    };
    let index = ec_level * 8 + mask as usize;
    let format_info = FORMAT_INFORMATION[index];
    let mut bits: Vec<bool> = Vec::new();
    push_bits(&mut bits, format_info as usize, 15);
    proof {
        lemma_bits_of_len(format_info as nat, 15);
        assert(bits@ =~= bits_of(format_info as nat, 15));
    }
    bits
}

/// The version bits of a version from 7 on.
pub fn get_version_information(version: usize) -> (bits: Vec<bool>)
    requires
        7 <= version <= 40,
    ensures
        bits@ == version_information(version as int),
        bits@.len() == 18,
{
    reveal(version_information);
    let version_info = VERSION_INFORMATION[version - 7];
    let mut bits: Vec<bool> = Vec::new();
    push_bits(&mut bits, version_info as usize, 18);
    proof {
        lemma_bits_of_len(version_info as nat, 18);
        assert(bits@ =~= bits_of(version_info as nat, 18));
    }
    bits
}

/// Writes the two copies of the version bits.
fn write_version_information(matrix: &mut QRCode, version: usize)
    requires
        old(matrix).wf(),
        7 <= version <= 40,
        old(matrix).side() == 4 * version + 17,
    ensures
        final(matrix).wf(),
        final(matrix).side() == old(matrix).side(),
        final(matrix)@ == with_version_information(old(matrix)@, version as int),
{
    let dimension = matrix.dimension();
    let version_information = get_version_information(version);
    proof {
        matrix.lemma_view();
    }
    let mut i: usize = 0;
    while i < 6
        invariant
            i <= 6,
            matrix.wf(),
            matrix.side() == dimension,
            old(matrix).side() == dimension,
            dimension >= 45,
            version_information@.len() == 18,
            forall|x: int, y: int|
                0 <= x < dimension && 0 <= y < dimension ==> #[trigger] matrix.at(x, y) == (
                if version_cell(dimension as int, version_information@, i as int, x, y) is Some {
                    version_cell(dimension as int, version_information@, i as int, x, y)
                } else {
                    old(matrix).at(x, y)
                }),
        decreases 6 - i,
    {
        write_run(matrix, &version_information, 3 * i, 3, dimension - 9, 5 - i, true, false);
        write_run(matrix, &version_information, 3 * i, 3, 5 - i, dimension - 9, false, false);
        i += 1;
    }
    proof {
        matrix.lemma_view_is(with_version_information(old(matrix)@, version as int));
    }
}

/// Writes the version information, from version 7 on, and the format
/// information.
pub fn apply_format_version_information(
    matrix: &mut QRCode,
    version: usize,
    error_correction: &ErrorCorrection,
    mask: u32,
)
    requires
        old(matrix).wf(),
        1 <= version <= 40,
        old(matrix).side() == 4 * version + 17,
        mask < 8,
    ensures
        final(matrix).wf(),
        final(matrix).side() == old(matrix).side(),
        final(matrix)@ == with_format_information(
            with_version_information(old(matrix)@, version as int),
            *error_correction,
            mask as int,
        ),
{
    let dimension = matrix.dimension();
    if version >= 7 {
        write_version_information(matrix, version);
    }
    let ghost middle = matrix@;
    let format_information_string = get_format_information(error_correction, mask);
    proof {
        matrix.lemma_view();
    }
    write_run(matrix, &format_information_string, 0, 6, 0, 8, true, true);
    write_run(matrix, &format_information_string, 6, 2, 7, 8, true, true);
    write_run(matrix, &format_information_string, 8, 1, 8, 7, false, false);
    write_run(matrix, &format_information_string, 9, 6, 8, 5, false, false);
    write_run(matrix, &format_information_string, 0, 7, 8, dimension - 1, false, false);
    write_run(matrix, &format_information_string, 7, 8, dimension - 8, 8, true, true);
    proof {
        matrix.lemma_view_is(with_format_information(middle, *error_correction, mask as int));
    }
}

/// Drawing alignment patterns leaves the grid a square and unsets no
/// module.
pub proof fn lemma_alignment_keeps(grid: Grid, centres: Seq<(int, int)>, side: nat)
    requires
        square(grid, side),
    ensures
        square(with_alignment_patterns(grid, centres), side),
        forall|x: int, y: int|
            0 <= x < side && 0 <= y < side && grid[y][x] is Some ==> with_alignment_patterns(
                grid,
                centres,
            )[y][x] is Some,
    decreases centres.len(),
{
    if centres.len() > 0 {
        lemma_alignment_keeps(grid, centres.drop_last(), side);
    }
}

/// The grid with the function patterns is a square of the same side.
pub proof fn lemma_function_patterns_square(grid: Grid, version: int)
    requires
        square(grid, grid.len()),
    ensures
        square(with_function_patterns(grid, version), grid.len()),
{
    lemma_alignment_keeps(
        with_separators(with_finder_patterns(grid)),
        alignment_coordinates(version),
        grid.len(),
    );
}

/// A mask changes data modules only: under any mask pattern, a module of
/// the function patterns is as it was drawn, and a module that received
/// data is inverted where the pattern holds for it and is as it was placed
/// elsewhere.
pub proof fn lemma_mask_spares_function_patterns(
    grid: Grid,
    version: int,
    data: Seq<bool>,
    pattern: int,
    x: int,
    y: int,
)
    requires
        1 <= version <= 40,
        square(grid, (4 * version + 17) as nat),
        0 <= x < 4 * version + 17,
        0 <= y < 4 * version + 17,
    ensures
        ({
            let patterns = with_function_patterns(grid, version);
            let p = placed(patterns, data, true);
            masked(p.grid, p.coords, pattern)[y][x] == (if patterns[y][x] is Some {
                patterns[y][x]
            } else if mask_bit(pattern, x, y) {
                Some(!(p.grid[y][x] == Some(true)))
            } else {
                p.grid[y][x]
            })
        }),
{
    let side = (4 * version + 17) as nat;
    let patterns = with_function_patterns(grid, version);
    lemma_function_patterns_square(grid, version);
    lemma_placed_tracks(patterns, data, true);
    let p = placed(patterns, data, true);
    lemma_masked_cell(p.grid, p.coords, pattern, side, x, y);
    if patterns[y][x] is Some {
        assert(p.grid[y][x] == patterns[y][x]);
        if p.coords.contains((x, y)) {
            let k = choose|k: int| 0 <= k < p.coords.len() && p.coords[k] == (x, y);
            assert(patterns[p.coords[k].1][p.coords[k].0] is None);
        }
    } else if mask_bit(pattern, x, y) {
        lemma_placed_covers(patterns, data, true);
        if x == 6 {
            lemma_timing_column_set(grid, version, y);
        }
        assert(p.grid[y][x] is Some);
    }
}

/// The format and version information is written on reserved places: every
/// module that holds a bit of it is a module of the function patterns, so
/// none of them holds data.
pub proof fn lemma_information_on_reserved_places(
    grid: Grid,
    version: int,
    format_bits: Seq<bool>,
    version_bits: Seq<bool>,
    x: int,
    y: int,
)
    requires
        1 <= version <= 40,
        square(grid, (4 * version + 17) as nat),
        0 <= x < 4 * version + 17,
        0 <= y < 4 * version + 17,
        format_cell(4 * version + 17, format_bits, x, y) is Some || (version >= 7 && version_cell(
            4 * version + 17,
            version_bits,
            6,
            x,
            y,
        ) is Some),
    ensures
        with_function_patterns(grid, version)[y][x] is Some,
{
    let side = (4 * version + 17) as nat;
    let g2 = with_separators(with_finder_patterns(grid));
    lemma_alignment_keeps(g2, alignment_coordinates(version), side);
    assert(reserved_cell(side as int, version, x, y) is Some);
}

/// The function patterns set every module of the timing column.
pub proof fn lemma_timing_column_set(grid: Grid, version: int, y: int)
    requires
        1 <= version <= 40,
        square(grid, (4 * version + 17) as nat),
        0 <= y < 4 * version + 17,
    ensures
        with_function_patterns(grid, version)[y][6] is Some,
{
    let side = (4 * version + 17) as nat;
    let g1 = with_finder_patterns(grid);
    let g2 = with_separators(g1);
    let g3 = with_alignment_patterns(g2, alignment_coordinates(version));
    lemma_alignment_keeps(g2, alignment_coordinates(version), side);
    let g4 = with_timing_patterns(g3);
    let g5 = with_dark_module(g4);
    if y <= 6 || y >= side - 7 {
        assert(g1[y][6] is Some);
        assert(g2[y][6] is Some);
    } else if y == 7 || y == side - 8 {
        assert(g2[y][6] is Some);
    }
    if !(8 <= y < side - 8) {
        assert(g3[y][6] is Some);
    }
    assert(g4[y][6] is Some);
    assert(g5[y][6] is Some);
}

/// Every module of a full-size symbol is set: the function patterns fill
/// the timing column, and the data placement fills all other columns.
pub proof fn lemma_standard_symbol_complete(
    grid: Grid,
    version: int,
    level: ErrorCorrection,
    data: Seq<bool>,
)
    requires
        1 <= version <= 40,
        square(grid, (4 * version + 17) as nat),
    ensures
        square(standard_symbol(grid, version, level, data), (4 * version + 17) as nat),
        complete(standard_symbol(grid, version, level, data)),
{
    let side = (4 * version + 17) as nat;
    let g1 = with_finder_patterns(grid);
    let g2 = with_separators(g1);
    let g3 = with_alignment_patterns(g2, alignment_coordinates(version));
    lemma_alignment_keeps(g2, alignment_coordinates(version), side);
    let g4 = with_timing_patterns(g3);
    let g5 = with_dark_module(g4);
    let g6 = with_reserved_area(g5, version);
    assert(square(g6, side));
    assert forall|y: int| 0 <= y < side implies (#[trigger] g6[y])[6] is Some by {
        lemma_timing_column_set(grid, version, y);
    }
    lemma_placed_covers(g6, data, true);
    let p = placed(g6, data, true);
    let mask = best_mask(p.grid, p.coords, false);
    lemma_masked_square(p.grid, p.coords, mask_pattern(mask, false), side);
    let g7 = candidate_grid(p.grid, p.coords, mask, false);
    let g8 = with_version_information(g7, version);
    let g9 = with_format_information(g8, level, mask);
    assert forall|x: int, y: int| 0 <= y < g9.len() && 0 <= x < g9[y].len() implies g9[y][x] is Some by {
        if x == 6 {
            assert(g6[y][6] is Some);
        }
        assert(p.grid[y][x] is Some);
        assert(g7[y][x] is Some);
        assert(g8[y][x] is Some);
    }
}

/// Builds the full-size symbol of a version and level around a bit stream.
pub fn build_qr_matrix(matrix: &mut QRCode, version: usize, error_correction: &ErrorCorrection, data: Vec<bool>)
    requires
        old(matrix).wf(),
        1 <= version <= 40,
        old(matrix).side() == 4 * version + 17,
    ensures
        final(matrix).wf(),
        final(matrix).side() == old(matrix).side(),
        final(matrix)@ == standard_symbol(old(matrix)@, version as int, *error_correction, data@),
        complete(final(matrix)@),
{
    proof {
        matrix.lemma_view();
        lemma_standard_symbol_complete(matrix@, version as int, *error_correction, data@);
    }
    add_finder_patterns(matrix);
    add_separators(matrix);
    add_alignment_patterns(matrix, version);
    add_timing_patterns(matrix);
    add_dark_module(matrix, version);
    add_reseverd_area(matrix, version);
    let data_coordinates = add_data(matrix, data);
    let mask = apply_mask(matrix, data_coordinates);
    apply_format_version_information(matrix, version, error_correction, mask);
}

} // verus!
