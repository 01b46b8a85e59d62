//! Drawing primitives on the grid of a symbol: rectangles, concentric squares
//! and runs of bits.

use crate::qrcode::QRCode;
use vstd::prelude::*;

verus! {

/// Whether column `x` of row `y` lies in the rectangle that starts at
/// `(x0, y0)` and is `w` wide and `h` high.
pub open spec fn in_rect(x0: int, y0: int, w: int, h: int, x: int, y: int) -> bool {
    x0 <= x < x0 + w && y0 <= y < y0 + h
}

/// The larger of the distances in columns and in rows between two modules.
pub open spec fn distance(cx: int, cy: int, x: int, y: int) -> int {
    let dx = if x < cx {
        cx - x
    } else {
        x - cx
    };
    let dy = if y < cy {
        cy - y
    } else {
        y - cy
    };
    if dx < dy {
        dy
    } else {
        dx
    }
}

/// Whether a module of a pattern of concentric squares is dark: all rings
/// around the centre are dark but the one next to the outermost. With
/// radius 3 this is a finder pattern, with radius 2 an alignment pattern.
pub open spec fn ring_dark(cx: int, cy: int, radius: int, x: int, y: int) -> bool {
    distance(cx, cy, x, y) != radius - 1
}

/// Sets every module of a rectangle to `value`; with `only_empty`, only the
/// modules that are still unset.
pub fn fill_rect(
    matrix: &mut QRCode,
    x0: usize,
    y0: usize,
    w: usize,
    h: usize,
    value: bool,
    only_empty: bool,
)
    requires
        old(matrix).wf(),
        x0 + w <= old(matrix).side(),
        y0 + h <= old(matrix).side(),
    ensures
        final(matrix).wf(),
        final(matrix).side() == old(matrix).side(),
        forall|x: int, y: int|
            0 <= x < old(matrix).side() && 0 <= y < old(matrix).side() ==> #[trigger] final(matrix).at(
                x,
                y,
            ) == (if in_rect(x0 as int, y0 as int, w as int, h as int, x, y) && (!only_empty
                || old(matrix).at(x, y) is None) {
                Some(value)
            } else {
                old(matrix).at(x, y)
            }),
{
    let side = matrix.dimension();
    let mut dy: usize = 0;
    while dy < h
        invariant
            dy <= h,
            matrix.wf(),
            matrix.side() == old(matrix).side(),
            side == matrix.side(),
            x0 + w <= side,
            y0 + h <= side,
            forall|x: int, y: int|
                0 <= x < side && 0 <= y < side ==> #[trigger] matrix.at(x, y) == (if in_rect(
                    x0 as int,
                    y0 as int,
                    w as int,
                    dy as int,
                    x,
                    y,
                ) && (!only_empty || old(matrix).at(x, y) is None) {
                    Some(value)
                } else {
                    old(matrix).at(x, y)
                }),
        decreases h - dy,
    {
        let mut dx: usize = 0;
        while dx < w
            invariant
                dx <= w,
                dy < h,
                matrix.wf(),
                matrix.side() == old(matrix).side(),
                side == matrix.side(),
                x0 + w <= side,
                y0 + h <= side,
                forall|x: int, y: int|
                    0 <= x < side && 0 <= y < side ==> #[trigger] matrix.at(x, y) == (if (in_rect(
                        x0 as int,
                        y0 as int,
                        w as int,
                        dy as int,
                        x,
                        y,
                    ) || in_rect(x0 as int, y0 + dy, dx as int, 1, x, y)) && (!only_empty
                        || old(matrix).at(x, y) is None) {
                        Some(value)
                    } else {
                        old(matrix).at(x, y)
                    }),
            decreases w - dx,
        {
            if !only_empty || matrix.is_empty(x0 + dx, y0 + dy) {
                matrix.set(x0 + dx, y0 + dy, value);
            }
            dx += 1;
        }
        dy += 1;
    }
}

/// Draws a pattern of concentric squares around the centre `(cx, cy)`.
pub fn stamp_rings(matrix: &mut QRCode, cx: usize, cy: usize, radius: usize)
    requires
        old(matrix).wf(),
        1 <= radius <= 3,
        radius <= cx,
        radius <= cy,
        cx + radius < old(matrix).side(),
        cy + radius < old(matrix).side(),
    ensures
        final(matrix).wf(),
        final(matrix).side() == old(matrix).side(),
        forall|x: int, y: int|
            0 <= x < old(matrix).side() && 0 <= y < old(matrix).side() ==> #[trigger] final(matrix).at(
                x,
                y,
            ) == (if distance(cx as int, cy as int, x, y) <= radius {
                Some(ring_dark(cx as int, cy as int, radius as int, x, y))
            } else {
                old(matrix).at(x, y)
            }),
{
    let side = matrix.dimension();
    let x0 = cx - radius;
    let y0 = cy - radius;
    let width = 2 * radius + 1;
    let mut dy: usize = 0;
    while dy < width
        invariant
            dy <= width,
            width == 2 * radius + 1,
            1 <= radius <= 3,
            x0 == cx - radius,
            y0 == cy - radius,
            matrix.wf(),
            matrix.side() == old(matrix).side(),
            side == matrix.side(),
            cx + radius < side,
            cy + radius < side,
            forall|x: int, y: int|
                0 <= x < side && 0 <= y < side ==> #[trigger] matrix.at(x, y) == (if in_rect(
                    x0 as int,
                    y0 as int,
                    width as int,
                    dy as int,
                    x,
                    y,
                ) {
                    Some(ring_dark(cx as int, cy as int, radius as int, x, y))
                } else {
                    old(matrix).at(x, y)
                }),
        decreases width - dy,
    {
        let mut dx: usize = 0;
        while dx < width
            invariant
                dx <= width,
                dy < width,
                width == 2 * radius + 1,
                1 <= radius <= 3,
                x0 == cx - radius,
                y0 == cy - radius,
                matrix.wf(),
                matrix.side() == old(matrix).side(),
                side == matrix.side(),
                cx + radius < side,
                cy + radius < side,
                forall|x: int, y: int|
                    0 <= x < side && 0 <= y < side ==> #[trigger] matrix.at(x, y) == (if in_rect(
                        x0 as int,
                        y0 as int,
                        width as int,
                        dy as int,
                        x,
                        y,
                    ) || in_rect(x0 as int, y0 + dy, dx as int, 1, x, y) {
                        Some(ring_dark(cx as int, cy as int, radius as int, x, y))
                    } else {
                        old(matrix).at(x, y)
                    }),
            decreases width - dx,
        {
            let across = if dx < radius {
                radius - dx
            } else {
                dx - radius
            };
            let down = if dy < radius {
                radius - dy
            } else {
                dy - radius
            };
            let far = if across < down {
                down
            } else {
                across
            };
            matrix.set(x0 + dx, y0 + dy, far != radius - 1);
            dx += 1;
        }
        dy += 1;
    }
}

/// The bit that a run of bits puts on the module at column `x` of row `y`,
/// if any. The run lays the `count` bits from index `first` on along a row,
/// if `horizontal`, or a column, one module each, starting at `(x0, y0)` and
/// going right or down, if `forward`, and left or up otherwise.
pub open spec fn run_cell(
    bits: Seq<bool>,
    first: int,
    count: int,
    x0: int,
    y0: int,
    horizontal: bool,
    forward: bool,
    x: int,
    y: int,
) -> Option<bool> {
    let k = if horizontal {
        if forward {
            x - x0
        } else {
            x0 - x
        }
    } else {
        if forward {
            y - y0
        } else {
            y0 - y
        }
    };
    if (if horizontal {
        y == y0
    } else {
        x == x0
    }) && 0 <= k < count {
        Some(bits[first + k])
    } else {
        None
    }
}

/// Lays a run of bits on the modules.
pub fn write_run(
    matrix: &mut QRCode,
    bits: &Vec<bool>,
    first: usize,
    count: usize,
    x0: usize,
    y0: usize,
    horizontal: bool,
    forward: bool,
)
    requires
        old(matrix).wf(),
        first + count <= bits.len(),
        x0 < old(matrix).side(),
        y0 < old(matrix).side(),
        forward && horizontal ==> x0 + count <= old(matrix).side(),
        forward && !horizontal ==> y0 + count <= old(matrix).side(),
        !forward && horizontal ==> count <= x0 + 1,
        !forward && !horizontal ==> count <= y0 + 1,
    ensures
        final(matrix).wf(),
        final(matrix).side() == old(matrix).side(),
        forall|x: int, y: int|
            0 <= x < old(matrix).side() && 0 <= y < old(matrix).side() ==> #[trigger] final(matrix).at(
                x,
                y,
            ) == (if run_cell(
                bits@,
                first as int,
                count as int,
                x0 as int,
                y0 as int,
                horizontal,
                forward,
                x,
                y,
            ) is Some {
                run_cell(bits@, first as int, count as int, x0 as int, y0 as int, horizontal, forward, x, y)
            } else {
                old(matrix).at(x, y)
            }),
{
    let side = matrix.dimension();
    let mut k: usize = 0;
    while k < count
        invariant
            k <= count,
            matrix.wf(),
            matrix.side() == old(matrix).side(),
            side == matrix.side(),
            first + count <= bits.len(),
            x0 < side,
            y0 < side,
            forward && horizontal ==> x0 + count <= side,
            forward && !horizontal ==> y0 + count <= side,
            !forward && horizontal ==> count <= x0 + 1,
            !forward && !horizontal ==> count <= y0 + 1,
            forall|x: int, y: int|
                0 <= x < side && 0 <= y < side ==> #[trigger] matrix.at(x, y) == (if run_cell(
                    bits@,
                    first as int,
                    k as int,
                    x0 as int,
                    y0 as int,
                    horizontal,
                    forward,
                    x,
                    y,
                ) is Some {
                    run_cell(bits@, first as int, k as int, x0 as int, y0 as int, horizontal, forward, x, y)
                } else {
                    old(matrix).at(x, y)
                }),
        decreases count - k,
    {
        let x = if !horizontal {
            x0
        } else if forward {
            x0 + k
        } else {
            x0 - k
        };
        let y = if horizontal {
            y0
        } else if forward {
            y0 + k
        } else {
            y0 - k
        };
        matrix.set(x, y, bits[first + k]);
        k += 1;
    }
}

} // verus!
