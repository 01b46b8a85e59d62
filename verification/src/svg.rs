//! Drawings of symbols as SVG documents.

use crate::color::Color;
use crate::constants::{ALPHA_DIGITS, ALPHA_PLACES};
use crate::enums::ErrorEnum;
use crate::error::QRError;
use crate::image::{module_size, remove_errors, without};
use crate::penalty::dark;
use crate::qrcode::{Grid, QRCode};
use vstd::prelude::*;
use vstd::string::*;

verus! {

/// The bytes of a text.
pub open spec fn text(s: &str) -> Seq<u8> {
    s.spec_bytes()
}

/// The decimal digits of a number, as bytes.
pub open spec fn decimal(n: nat) -> Seq<u8>
    decreases n,
{
    if n < 10 {
        seq![(48 + n) as u8]
    } else {
        decimal(n / 10).push((48 + n % 10) as u8)
    }
}

/// The last `places` decimal digits of a number, as bytes.
pub open spec fn fixed(n: nat, places: nat) -> Seq<u8>
    decreases places,
{
    if places == 0 {
        Seq::empty()
    } else {
        fixed(n / 10, (places - 1) as nat).push((48 + n % 10) as u8)
    }
}

/// The opacity of an alpha value: `a / 255` as a decimal fraction.
#[verifier::opaque]
pub open spec fn opacity(a: u8) -> Seq<u8> {
    if ALPHA_PLACES[a as int] == 0 {
        decimal((a / 255) as nat)
    } else {
        text("0.") + fixed(ALPHA_DIGITS[a as int] as nat, ALPHA_PLACES[a as int] as nat)
    }
}

/// A colour in the notation `rgba(r, g, b, a)`.
pub open spec fn rgba(color: Color) -> Seq<u8> {
    text("rgba(") + decimal(color.r as nat) + text(", ") + decimal(color.g as nat) + text(", ")
        + decimal(color.b as nat) + text(", ") + opacity(color.a) + text(")")
}

/// The element of a square with its corner at `(x, y)`.
pub open spec fn square_element(x: nat, y: nat, size: nat, color: Color) -> Seq<u8> {
    text("<rect ") + text("x=\"") + decimal(x) + text("\" ") + text("y=\"") + decimal(y) + text(
        "\" ",
    ) + text("width=\"") + decimal(size) + text("\" ") + text("height=\"") + decimal(size) + text(
        "\" ",
    ) + text("fill=\"") + rgba(color) + text("\" />\n")
}

/// The elements of the dark modules among the first `n` modules of row `y`.
pub open spec fn row_elements(grid: Grid, size: nat, left: nat, top: nat, color: Color, y: int, n: int) -> Seq<
    u8,
>
    decreases n,
{
    if n <= 0 {
        Seq::empty()
    } else {
        row_elements(grid, size, left, top, color, y, n - 1) + if dark(grid, n - 1, y) {
            square_element(((n - 1) * size + left) as nat, (y * size + top) as nat, size, color)
        } else {
            Seq::empty()
        }
    }
}

/// The elements of the dark modules of the first `rows` rows.
pub open spec fn module_elements(grid: Grid, size: nat, left: nat, top: nat, color: Color, rows: int) -> Seq<
    u8,
>
    decreases rows,
{
    if rows <= 0 {
        Seq::empty()
    } else {
        module_elements(grid, size, left, top, color, rows - 1) + row_elements(
            grid,
            size,
            left,
            top,
            color,
            rows - 1,
            grid.len() as int,
        )
    }
}

/// The SVG document of a symbol: a rectangle of the border colour over the
/// whole drawing, and on it a square for every dark module, row by row. The
/// symbol lies in the middle of the drawing.
pub open spec fn document(
    grid: Grid,
    width: nat,
    height: nat,
    border: nat,
    border_color: Color,
    dark_color: Color,
) -> Seq<u8> {
    let side = grid.len() as int;
    let size = module_size(width as int, height as int, border as int, side);
    let left = (width - side * size) / 2;
    let top = (height - side * size) / 2;
    text("<") + text("svg xmlns=\"http://www.w3.org/2000/svg\" ") + text("width=\"") + decimal(
        width,
    ) + text("\" ") + text("height=\"") + decimal(height) + text("\" ") + text("viewBox=\"0 0 ")
        + decimal(width) + text(" ") + decimal(height) + text("\">\n") + text("<rect ") + text(
        "width=\"",
    ) + decimal(width) + text("\" ") + text("height=\"") + decimal(height) + text("\" ") + text(
        "fill=\"",
    ) + rgba(border_color) + text("\" />\n") + module_elements(
        grid,
        size as nat,
        left as nat,
        top as nat,
        dark_color,
        side,
    ) + text("</svg>")
}

/// Appends the bytes of a text.
pub fn push_text(out: &mut Vec<u8>, s: &str)
    ensures
        final(out)@ == old(out)@ + text(s),
{
    let bytes = s.as_bytes();
    let mut i: usize = 0;
    assert(out@ =~= old(out)@ + bytes@.take(0));
    while i < bytes.len()
        invariant
            i <= bytes.len(),
            bytes@ == text(s),
            out@ == old(out)@ + bytes@.take(i as int),
        decreases bytes.len() - i,
    {
        out.push(bytes[i]);
        i += 1;
        assert(out@ =~= old(out)@ + bytes@.take(i as int));
    }
    assert(bytes@.take(bytes.len() as int) =~= bytes@);
}

/// Appends the decimal digits of a number.
pub fn push_decimal(out: &mut Vec<u8>, n: usize)
    ensures
        final(out)@ == old(out)@ + decimal(n as nat),
    decreases n,
{
    if n >= 10 {
        push_decimal(out, n / 10);
    }
    out.push(48 + (n % 10) as u8);
    assert(out@ =~= old(out)@ + decimal(n as nat));
}

/// Appends the last `places` decimal digits of a number.
pub fn push_fixed(out: &mut Vec<u8>, n: usize, places: usize)
    ensures
        final(out)@ == old(out)@ + fixed(n as nat, places as nat),
    decreases places,
{
    if places > 0 {
        push_fixed(out, n / 10, places - 1);
        out.push(48 + (n % 10) as u8);
    }
    assert(out@ =~= old(out)@ + fixed(n as nat, places as nat));
}

/// Appends a colour in the notation `rgba(r, g, b, a)`.
pub fn push_rgba(out: &mut Vec<u8>, color: Color)
    ensures
        final(out)@ == old(out)@ + rgba(color),
{
    push_text(out, "rgba(");
    push_decimal(out, color.r as usize);
    push_text(out, ", ");
    push_decimal(out, color.g as usize);
    push_text(out, ", ");
    push_decimal(out, color.b as usize);
    push_text(out, ", ");
    let ghost before = out@;
    reveal(opacity);
    let places = ALPHA_PLACES[color.a as usize];
    if places == 0 {
        push_decimal(out, (color.a / 255) as usize);
    } else {
        push_text(out, "0.");
        push_fixed(out, ALPHA_DIGITS[color.a as usize] as usize, places as usize);
    }
    assert(out@ =~= before + opacity(color.a));
    push_text(out, ")");
    assert(out@ =~= old(out)@ + rgba(color));
}

/// Appends the element of a square.
pub fn push_square(out: &mut Vec<u8>, x: usize, y: usize, size: usize, color: Color)
    ensures
        final(out)@ == old(out)@ + square_element(x as nat, y as nat, size as nat, color),
{
    push_text(out, "<rect ");
    push_text(out, "x=\"");
    push_decimal(out, x);
    push_text(out, "\" ");
    push_text(out, "y=\"");
    push_decimal(out, y);
    push_text(out, "\" ");
    push_text(out, "width=\"");
    push_decimal(out, size);
    push_text(out, "\" ");
    push_text(out, "height=\"");
    push_decimal(out, size);
    push_text(out, "\" ");
    push_text(out, "fill=\"");
    push_rgba(out, color);
    push_text(out, "\" />\n");
    assert(out@ =~= old(out)@ + square_element(x as nat, y as nat, size as nat, color));
}

/// Draws a symbol as an SVG document.
#[derive(Debug)]
pub struct SvgQRCode {
    qr_code: QRCode,
    width: usize,
    height: usize,
    border: usize,
    border_color: Color,
    dark_color: Color,
    light_color: Color,
    error: Vec<ErrorEnum>,
}

impl SvgQRCode {
    /// The symbol that is drawn.
    pub closed spec fn code(&self) -> QRCode {
        self.qr_code
    }

    /// The width of the drawing.
    pub closed spec fn width(&self) -> nat {
        self.width as nat
    }

    /// The height of the drawing.
    pub closed spec fn height(&self) -> nat {
        self.height as nat
    }

    /// The least width of the border on each side.
    pub closed spec fn border(&self) -> nat {
        self.border as nat
    }

    /// The colour around the symbol.
    pub closed spec fn border_color(&self) -> Color {
        self.border_color
    }

    /// The colour of the dark modules.
    pub closed spec fn dark_color(&self) -> Color {
        self.dark_color
    }

    /// The colour of the light modules.
    pub closed spec fn light_color(&self) -> Color {
        self.light_color
    }

    /// The sizes that were refused and not corrected since.
    pub closed spec fn errors(&self) -> Seq<ErrorEnum> {
        self.error@
    }

    /// Whether the symbol to draw is whole and has at least one module.
    pub closed spec fn wf(&self) -> bool {
        self.qr_code.wf() && self.qr_code.side() >= 1
    }

    /// Whether the drawing can be made: no size was refused, and the borders
    /// fit into width and height.
    pub open spec fn drawable(&self) -> bool {
        &&& self.errors().len() == 0
        &&& 2 * self.border() <= self.width()
        &&& 2 * self.border() <= self.height()
    }

    /// A drawing of the symbol as large as the symbol, without border, dark
    /// modules black and light modules white.
    pub fn new(qr_code: QRCode) -> (svg: SvgQRCode)
        requires
            qr_code.wf(),
            qr_code.side() >= 1,
        ensures
            svg.wf(),
            svg.code() == qr_code,
            svg.width() == qr_code.side(),
            svg.height() == qr_code.side(),
            svg.border() == 0,
            svg.border_color() == Color::new_spec(255, 255, 255, 255),
            svg.dark_color() == Color::new_spec(0, 0, 0, 255),
            svg.light_color() == Color::new_spec(255, 255, 255, 255),
            svg.errors().len() == 0,
    {
        let dimension = qr_code.dimension();
        SvgQRCode {
            qr_code,
            width: dimension,
            height: dimension,
            border: 0,
            border_color: Color::new(255, 255, 255, 255),
            dark_color: Color::new(0, 0, 0, 255),
            light_color: Color::new(255, 255, 255, 255),
            error: Vec::new(),
        }
    }

    /// Sets the border. A border that leaves the symbol too little room in
    /// width or height is refused: the border stays and the refusal is
    /// recorded. A border that is taken clears the earlier refusals.
    pub fn set_border(&mut self, border: usize) -> (svg: &mut Self)
        requires
            old(self).wf(),
        ensures
            *final(self) == *final(svg),
            svg.wf(),
            svg.code() == old(self).code(),
            svg.width() == old(self).width(),
            svg.height() == old(self).height(),
            svg.border_color() == old(self).border_color(),
            svg.dark_color() == old(self).dark_color(),
            svg.light_color() == old(self).light_color(),
            if 2 * border + old(self).code().side() <= old(self).width() && 2 * border + old(
                self,
            ).code().side() <= old(self).height() {
                &&& svg.border() == border
                &&& svg.errors() == without(old(self).errors(), ErrorEnum::Border)
            } else {
                &&& svg.border() == old(self).border()
                &&& svg.errors() == old(self).errors().push(ErrorEnum::Border)
            },
    {
        let dimension = self.qr_code.dimension();
        let fits = border <= self.width / 2 && border <= self.height / 2 && self.width - 2 * border
            >= dimension && self.height - 2 * border >= dimension;
        if !fits {
            self.error.push(ErrorEnum::Border);
        } else {
            remove_errors(&mut self.error, ErrorEnum::Border);
            self.border = border;
        }
        self
    }

    /// Sets the width. A width below the side of the symbol is refused.
    pub fn set_width(&mut self, width: usize) -> (svg: &mut Self)
        requires
            old(self).wf(),
        ensures
            *final(self) == *final(svg),
            svg.wf(),
            svg.code() == old(self).code(),
            svg.height() == old(self).height(),
            svg.border() == old(self).border(),
            svg.border_color() == old(self).border_color(),
            svg.dark_color() == old(self).dark_color(),
            svg.light_color() == old(self).light_color(),
            if width >= old(self).code().side() {
                &&& svg.width() == width
                &&& svg.errors() == without(old(self).errors(), ErrorEnum::Width)
            } else {
                &&& svg.width() == old(self).width()
                &&& svg.errors() == old(self).errors().push(ErrorEnum::Width)
            },
    {
        if width < self.qr_code.dimension() {
            self.error.push(ErrorEnum::Width);
        } else {
            remove_errors(&mut self.error, ErrorEnum::Width);
            self.width = width;
        }
        self
    }

    /// Sets the height. A height below the side of the symbol is refused.
    pub fn set_height(&mut self, height: usize) -> (svg: &mut Self)
        requires
            old(self).wf(),
        ensures
            *final(self) == *final(svg),
            svg.wf(),
            svg.code() == old(self).code(),
            svg.width() == old(self).width(),
            svg.border() == old(self).border(),
            svg.border_color() == old(self).border_color(),
            svg.dark_color() == old(self).dark_color(),
            svg.light_color() == old(self).light_color(),
            if height >= old(self).code().side() {
                &&& svg.height() == height
                &&& svg.errors() == without(old(self).errors(), ErrorEnum::Height)
            } else {
                &&& svg.height() == old(self).height()
                &&& svg.errors() == old(self).errors().push(ErrorEnum::Height)
            },
    {
        if height < self.qr_code.dimension() {
            self.error.push(ErrorEnum::Height);
        } else {
            remove_errors(&mut self.error, ErrorEnum::Height);
            self.height = height;
        }
        self
    }

    /// Sets the colour of the border.
    pub fn set_border_color(&mut self, color: Color) -> (svg: &mut Self)
        requires
            old(self).wf(),
        ensures
            *final(self) == *final(svg),
            svg.wf(),
            svg.border_color() == color,
            svg.code() == old(self).code(),
            svg.width() == old(self).width(),
            svg.height() == old(self).height(),
            svg.border() == old(self).border(),
            svg.dark_color() == old(self).dark_color(),
            svg.light_color() == old(self).light_color(),
            svg.errors() == old(self).errors(),
    {
        self.border_color = color;
        self
    }

    /// Sets the colour of the dark modules.
    pub fn set_dark_color(&mut self, color: Color) -> (svg: &mut Self)
        requires
            old(self).wf(),
        ensures
            *final(self) == *final(svg),
            svg.wf(),
            svg.dark_color() == color,
            svg.code() == old(self).code(),
            svg.width() == old(self).width(),
            svg.height() == old(self).height(),
            svg.border() == old(self).border(),
            svg.border_color() == old(self).border_color(),
            svg.light_color() == old(self).light_color(),
            svg.errors() == old(self).errors(),
    {
        self.dark_color = color;
        self
    }

    /// Sets the colour of the light modules.
    pub fn set_light_color(&mut self, color: Color) -> (svg: &mut Self)
        requires
            old(self).wf(),
        ensures
            *final(self) == *final(svg),
            svg.wf(),
            svg.light_color() == color,
            svg.code() == old(self).code(),
            svg.width() == old(self).width(),
            svg.height() == old(self).height(),
            svg.border() == old(self).border(),
            svg.border_color() == old(self).border_color(),
            svg.dark_color() == old(self).dark_color(),
            svg.errors() == old(self).errors(),
    {
        self.light_color = color;
        self
    }

    /// Writes the SVG document of the symbol; fails with "Invalid
    /// parameters" if the drawing cannot be made.
    pub fn build_svg_bytes(&self) -> (result: Result<Vec<u8>, QRError>)
        requires
            self.wf(),
        ensures
            match result {
                Ok(bytes) => self.drawable() && bytes@ == document(
                    self.code()@,
                    self.width(),
                    self.height(),
                    self.border(),
                    self.border_color(),
                    self.dark_color(),
                ),
                Err(e) => !self.drawable() && e@ == "Invalid parameters"@,
            },
    {
        if self.error.len() > 0 || self.border > self.width / 2 || self.border > self.height / 2 {
            return Err(QRError::new("Invalid parameters"));
        }
        let width = self.width;
        let height = self.height;
        let side = self.qr_code.dimension();
        proof {
            self.qr_code.lemma_view();
        }
        let pixel_size_width = (width - 2 * self.border) / side;
        let pixel_size_height = (height - 2 * self.border) / side;
        let pixel_size = if pixel_size_width < pixel_size_height {
            pixel_size_width
        } else {
            pixel_size_height
        };
        assert(side * pixel_size <= width && side * pixel_size <= height) by (nonlinear_arith)
            requires
                side >= 1,
                pixel_size <= (width - 2 * self.border) / (side as int),
                pixel_size <= (height - 2 * self.border) / (side as int),
                2 * self.border <= width,
                2 * self.border <= height,
        ;
        let extent = side * pixel_size;
        let border_width = (width - extent) / 2;
        let border_height = (height - extent) / 2;
        let mut svg: Vec<u8> = Vec::new();
        push_text(&mut svg, "<");
        push_text(&mut svg, "svg xmlns=\"http://www.w3.org/2000/svg\" ");
        push_text(&mut svg, "width=\"");
        push_decimal(&mut svg, width);
        push_text(&mut svg, "\" ");
        push_text(&mut svg, "height=\"");
        push_decimal(&mut svg, height);
        push_text(&mut svg, "\" ");
        push_text(&mut svg, "viewBox=\"0 0 ");
        push_decimal(&mut svg, width);
        push_text(&mut svg, " ");
        push_decimal(&mut svg, height);
        push_text(&mut svg, "\">\n");
        push_text(&mut svg, "<rect ");
        push_text(&mut svg, "width=\"");
        push_decimal(&mut svg, width);
        push_text(&mut svg, "\" ");
        push_text(&mut svg, "height=\"");
        push_decimal(&mut svg, height);
        push_text(&mut svg, "\" ");
        push_text(&mut svg, "fill=\"");
        push_rgba(&mut svg, self.border_color);
        push_text(&mut svg, "\" />\n");
        let ghost head = svg@;
        let ghost grid = self.qr_code@;
        let mut y: usize = 0;
        assert(svg@ =~= head + module_elements(
            grid,
            pixel_size as nat,
            border_width as nat,
            border_height as nat,
            self.dark_color,
            0,
        ));
        while y < side
            invariant
                y <= side,
                self.wf(),
                side == self.qr_code.side(),
                grid == self.qr_code@,
                grid.len() == side,
                extent == side * pixel_size,
                extent <= width,
                extent <= height,
                border_width == (width - extent) / 2,
                border_height == (height - extent) / 2,
                svg@ == head + module_elements(
                    grid,
                    pixel_size as nat,
                    border_width as nat,
                    border_height as nat,
                    self.dark_color,
                    y as int,
                ),
            decreases side - y,
        {
            let ghost before = svg@;
            let mut x: usize = 0;
            assert(svg@ =~= before + row_elements(
                grid,
                pixel_size as nat,
                border_width as nat,
                border_height as nat,
                self.dark_color,
                y as int,
                0,
            ));
            while x < side
                invariant
                    x <= side,
                    y < side,
                    self.wf(),
                    side == self.qr_code.side(),
                    grid == self.qr_code@,
                    grid.len() == side,
                    extent == side * pixel_size,
                    extent <= width,
                    extent <= height,
                    border_width == (width - extent) / 2,
                    border_height == (height - extent) / 2,
                    svg@ == before + row_elements(
                        grid,
                        pixel_size as nat,
                        border_width as nat,
                        border_height as nat,
                        self.dark_color,
                        y as int,
                        x as int,
                    ),
                decreases side - x,
            {
                let ghost row_before = svg@;
                if self.qr_code.get(x, y) {
                    assert(x * pixel_size <= side * pixel_size && y * pixel_size <= side * pixel_size)
                        by (nonlinear_arith)
                        requires
                            x < side,
                            y < side,
                            pixel_size >= 0,
                    ;
                    push_square(
                        &mut svg,
                        x * pixel_size + border_width,
                        y * pixel_size + border_height,
                        pixel_size,
                        self.dark_color,
                    );
                }
                x += 1;
                assert(svg@ =~= before + row_elements(
                    grid,
                    pixel_size as nat,
                    border_width as nat,
                    border_height as nat,
                    self.dark_color,
                    y as int,
                    x as int,
                ));
            }
            y += 1;
            assert(svg@ =~= head + module_elements(
                grid,
                pixel_size as nat,
                border_width as nat,
                border_height as nat,
                self.dark_color,
                y as int,
            ));
        }
        push_text(&mut svg, "</svg>");
        assert(svg@ =~= document(
            grid,
            self.width as nat,
            self.height as nat,
            self.border as nat,
            self.border_color,
            self.dark_color,
        ));
        Ok(svg)
    }
}

} // verus!
