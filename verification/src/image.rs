//! Drawings of symbols as rasters of pixels.

use crate::color::Color;
use crate::enums::ErrorEnum;
use crate::error::QRError;
use crate::penalty::dark;
use crate::qrcode::{Grid, QRCode};
use vstd::prelude::*;

verus! {

/// The errors of a list without those of one kind.
pub open spec fn without(errors: Seq<ErrorEnum>, kind: ErrorEnum) -> Seq<ErrorEnum> {
    errors.filter(|e: ErrorEnum| e != kind)
}

/// Removes the errors of one kind from a list.
pub fn remove_errors(errors: &mut Vec<ErrorEnum>, kind: ErrorEnum)
    ensures
        final(errors)@ == without(old(errors)@, kind),
{
    let mut kept: Vec<ErrorEnum> = Vec::new();
    let mut i: usize = 0;
    assert(errors@.take(0) =~= Seq::<ErrorEnum>::empty());
    while i < errors.len()
        invariant
            i <= errors.len(),
            errors@ == old(errors)@,
            kept@ == without(errors@.take(i as int), kind),
        decreases errors.len() - i,
    {
        proof {
            assert(errors@.take(i + 1).drop_last() =~= errors@.take(i as int));
            reveal(Seq::filter);
        }
        if errors[i] != kind {
            kept.push(errors[i]);
        }
        i += 1;
    }
    assert(errors@.take(errors.len() as int) =~= errors@);
    *errors = kept;
}

/// The side of the square that stands for one module: the largest that
/// lets the symbol fit between the borders, in width and in height.
pub open spec fn module_size(width: int, height: int, border: int, side: int) -> int {
    if (width - 2 * border) / side < (height - 2 * border) / side {
        (width - 2 * border) / side
    } else {
        (height - 2 * border) / side
    }
}

/// The colour of the pixel at column `x` of row `y` of the drawing of a
/// symbol: the symbol lies in the middle, its modules in their colours, and
/// the border colour is all around it.
pub open spec fn pixel_color(
    grid: Grid,
    width: int,
    height: int,
    border: int,
    border_color: Color,
    dark_color: Color,
    light_color: Color,
    x: int,
    y: int,
) -> Color {
    let side = grid.len() as int;
    let size = module_size(width, height, border, side);
    let left = (width - side * size) / 2;
    let top = (height - side * size) / 2;
    if size > 0 && left <= x < left + side * size && top <= y < top + side * size {
        if dark(grid, (x - left) / size, (y - top) / size) {
            dark_color
        } else {
            light_color
        }
    } else {
        border_color
    }
}

/// The index of the pixel at column `x` of row `y` in a raster of the given
/// width.
pub open spec fn pixel_index(width: int, x: int, y: int) -> int {
    y * width + x
}

/// A drawing: `width * height` pixels in rows from the top.
#[derive(Debug)]
pub struct Raster {
    pub width: usize,
    pub height: usize,
    pub pixels: Vec<Color>,
}

/// Draws a symbol as a raster of pixels.
#[derive(Debug)]
pub struct ImageQRCode {
    qr_code: QRCode,
    width: usize,
    height: usize,
    border: usize,
    border_color: Color,
    dark_color: Color,
    light_color: Color,
    error: Vec<ErrorEnum>,
}

impl ImageQRCode {
    /// The symbol that is drawn.
    pub closed spec fn code(&self) -> QRCode {
        self.qr_code
    }

    /// The width of the drawing.
    pub closed spec fn width(&self) -> nat {
        self.width as nat
    }

    /// The height of the drawing.
    pub closed spec fn height(&self) -> nat {
        self.height as nat
    }

    /// The least width of the border on each side.
    pub closed spec fn border(&self) -> nat {
        self.border as nat
    }

    /// The colour around the symbol.
    pub closed spec fn border_color(&self) -> Color {
        self.border_color
    }

    /// The colour of the dark modules.
    pub closed spec fn dark_color(&self) -> Color {
        self.dark_color
    }

    /// The colour of the light modules.
    pub closed spec fn light_color(&self) -> Color {
        self.light_color
    }

    /// The sizes that were refused and not corrected since.
    pub closed spec fn errors(&self) -> Seq<ErrorEnum> {
        self.error@
    }

    /// Whether the symbol to draw is whole and has at least one module.
    pub closed spec fn wf(&self) -> bool {
        self.qr_code.wf() && self.qr_code.side() >= 1
    }

    /// Whether the drawing can be made: no size was refused, the borders
    /// fit into width and height, and the number of pixels has a
    /// machine representation.
    pub open spec fn drawable(&self) -> bool {
        &&& self.errors().len() == 0
        &&& 2 * self.border() <= self.width()
        &&& 2 * self.border() <= self.height()
        &&& self.width() * self.height() <= usize::MAX
    }

    /// A drawing of the symbol as large as the symbol, without border, dark
    /// modules black and light modules white.
    pub fn new(qr_code: QRCode) -> (image: ImageQRCode)
        requires
            qr_code.wf(),
            qr_code.side() >= 1,
        ensures
            image.wf(),
            image.code() == qr_code,
            image.width() == qr_code.side(),
            image.height() == qr_code.side(),
            image.border() == 0,
            image.border_color() == Color::new_spec(255, 255, 255, 255),
            image.dark_color() == Color::new_spec(0, 0, 0, 255),
            image.light_color() == Color::new_spec(255, 255, 255, 255),
            image.errors().len() == 0,
    {
        let dimension = qr_code.dimension();
        ImageQRCode {
            qr_code,
            width: dimension,
            height: dimension,
            border: 0,
            border_color: Color::new(255, 255, 255, 255),
            dark_color: Color::new(0, 0, 0, 255),
            light_color: Color::new(255, 255, 255, 255),
            error: Vec::new(),
        }
    }

    /// Sets the border. A border that leaves the symbol too little room in
    /// width or height is refused: the border stays and the refusal is
    /// recorded. A border that is taken clears the earlier refusals.
    pub fn set_border(&mut self, border: usize) -> (image: &mut Self)
        requires
            old(self).wf(),
        ensures
            *final(self) == *final(image),
            image.wf(),
            image.code() == old(self).code(),
            image.width() == old(self).width(),
            image.height() == old(self).height(),
            image.border_color() == old(self).border_color(),
            image.dark_color() == old(self).dark_color(),
            image.light_color() == old(self).light_color(),
            if 2 * border + old(self).code().side() <= old(self).width() && 2 * border + old(
                self,
            ).code().side() <= old(self).height() {
                &&& image.border() == border
                &&& image.errors() == without(old(self).errors(), ErrorEnum::Border)
            } else {
                &&& image.border() == old(self).border()
                &&& image.errors() == old(self).errors().push(ErrorEnum::Border)
            },
    {
        let dimension = self.qr_code.dimension();
        let fits = border <= self.width / 2 && border <= self.height / 2 && self.width - 2 * border
            >= dimension && self.height - 2 * border >= dimension;
        if !fits {
            self.error.push(ErrorEnum::Border);
        } else {
            remove_errors(&mut self.error, ErrorEnum::Border);
            self.border = border;
        }
        self
    }

    /// Sets the width. A width below the side of the symbol is refused.
    pub fn set_width(&mut self, width: usize) -> (image: &mut Self)
        requires
            old(self).wf(),
        ensures
            *final(self) == *final(image),
            image.wf(),
            image.code() == old(self).code(),
            image.height() == old(self).height(),
            image.border() == old(self).border(),
            image.border_color() == old(self).border_color(),
            image.dark_color() == old(self).dark_color(),
            image.light_color() == old(self).light_color(),
            if width >= old(self).code().side() {
                &&& image.width() == width
                &&& image.errors() == without(old(self).errors(), ErrorEnum::Width)
            } else {
                &&& image.width() == old(self).width()
                &&& image.errors() == old(self).errors().push(ErrorEnum::Width)
            },
    {
        if width < self.qr_code.dimension() {
            self.error.push(ErrorEnum::Width);
        } else {
            remove_errors(&mut self.error, ErrorEnum::Width);
            self.width = width;
        }
        self
    }

    /// Sets the height. A height below the side of the symbol is refused.
    pub fn set_height(&mut self, height: usize) -> (image: &mut Self)
        requires
            old(self).wf(),
        ensures
            *final(self) == *final(image),
            image.wf(),
            image.code() == old(self).code(),
            image.width() == old(self).width(),
            image.border() == old(self).border(),
            image.border_color() == old(self).border_color(),
            image.dark_color() == old(self).dark_color(),
            image.light_color() == old(self).light_color(),
            if height >= old(self).code().side() {
                &&& image.height() == height
                &&& image.errors() == without(old(self).errors(), ErrorEnum::Height)
            } else {
                &&& image.height() == old(self).height()
                &&& image.errors() == old(self).errors().push(ErrorEnum::Height)
            },
    {
        if height < self.qr_code.dimension() {
            self.error.push(ErrorEnum::Height);
        } else {
            remove_errors(&mut self.error, ErrorEnum::Height);
            self.height = height;
        }
        self
    }

    /// Sets the colour of the border.
    pub fn set_border_color(&mut self, color: Color) -> (image: &mut Self)
        requires
            old(self).wf(),
        ensures
            *final(self) == *final(image),
            image.wf(),
            image.border_color() == color,
            image.code() == old(self).code(),
            image.width() == old(self).width(),
            image.height() == old(self).height(),
            image.border() == old(self).border(),
            image.dark_color() == old(self).dark_color(),
            image.light_color() == old(self).light_color(),
            image.errors() == old(self).errors(),
    {
        self.border_color = color;
        self
    }

    /// Sets the colour of the dark modules.
    pub fn set_dark_color(&mut self, color: Color) -> (image: &mut Self)
        requires
            old(self).wf(),
        ensures
            *final(self) == *final(image),
            image.wf(),
            image.dark_color() == color,
            image.code() == old(self).code(),
            image.width() == old(self).width(),
            image.height() == old(self).height(),
            image.border() == old(self).border(),
            image.border_color() == old(self).border_color(),
            image.light_color() == old(self).light_color(),
            image.errors() == old(self).errors(),
    {
        self.dark_color = color;
        self
    }

    /// Sets the colour of the light modules.
    pub fn set_light_color(&mut self, color: Color) -> (image: &mut Self)
        requires
            old(self).wf(),
        ensures
            *final(self) == *final(image),
            image.wf(),
            image.light_color() == color,
            image.code() == old(self).code(),
            image.width() == old(self).width(),
            image.height() == old(self).height(),
            image.border() == old(self).border(),
            image.border_color() == old(self).border_color(),
            image.dark_color() == old(self).dark_color(),
            image.errors() == old(self).errors(),
    {
        self.light_color = color;
        self
    }

    /// Draws the symbol; fails with "Invalid parameters" if the drawing
    /// cannot be made.
    pub fn build_image(&self) -> (result: Result<Raster, QRError>)
        requires
            self.wf(),
        ensures
            match result {
                Ok(raster) => {
                    &&& self.drawable()
                    &&& raster.width == self.width()
                    &&& raster.height == self.height()
                    &&& raster.pixels@.len() == self.width() * self.height()
                    &&& forall|x: int, y: int|
                        0 <= x < self.width() && 0 <= y < self.height() ==> raster.pixels@[pixel_index(
                            self.width() as int,
                            x,
                            y,
                        )] == #[trigger] pixel_color(
                            self.code()@,
                            self.width() as int,
                            self.height() as int,
                            self.border() as int,
                            self.border_color(),
                            self.dark_color(),
                            self.light_color(),
                            x,
                            y,
                        )
                },
                Err(e) => !self.drawable() && e@ == "Invalid parameters"@,
            },
    {
        if self.error.len() > 0 || self.border > self.width / 2 || self.border > self.height / 2 {
            return Err(QRError::new("Invalid parameters"));
        }
        let width = self.width;
        let height = self.height;
        let total = match width.checked_mul(height) {
            Some(total) => total,
            None => {
                return Err(QRError::new("Invalid parameters"));
            },
        };
        let side = self.qr_code.dimension();
        proof {
            self.qr_code.lemma_view();
        }
        let pixel_size_width = (width - 2 * self.border) / side;
        let pixel_size_height = (height - 2 * self.border) / side;
        let pixel_size = if pixel_size_width < pixel_size_height {
            pixel_size_width
        } else {
            pixel_size_height
        };
        assert(side * pixel_size <= width && side * pixel_size <= height) by (nonlinear_arith)
            requires
                side >= 1,
                pixel_size <= (width - 2 * self.border) / (side as int),
                pixel_size <= (height - 2 * self.border) / (side as int),
                2 * self.border <= width,
                2 * self.border <= height,
        ;
        let extent = side * pixel_size;
        let border_width = (width - extent) / 2;
        let border_height = (height - extent) / 2;
        let mut pixels: Vec<Color> = Vec::new();
        let mut y: usize = 0;
        while y < height
            invariant
                y <= height,
                self.wf(),
                width == self.width,
                height == self.height,
                total == width * height,
                side == self.qr_code.side(),
                side >= 1,
                self.qr_code@.len() == side,
                pixel_size == module_size(width as int, height as int, self.border as int, side as int),
                extent == side * pixel_size,
                extent <= width,
                extent <= height,
                border_width == (width - extent) / 2,
                border_height == (height - extent) / 2,
                pixels@.len() == y * width,
                forall|x2: int, y2: int|
                    0 <= x2 < width && 0 <= y2 < y ==> pixels@[pixel_index(width as int, x2, y2)]
                        == #[trigger] pixel_color(
                        self.qr_code@,
                        width as int,
                        height as int,
                        self.border as int,
                        self.border_color,
                        self.dark_color,
                        self.light_color,
                        x2,
                        y2,
                    ),
            decreases height - y,
        {
            let mut x: usize = 0;
            while x < width
                invariant
                    x <= width,
                    y < height,
                    self.wf(),
                    width == self.width,
                    height == self.height,
                    total == width * height,
                    side == self.qr_code.side(),
                    side >= 1,
                    self.qr_code@.len() == side,
                    pixel_size == module_size(
                        width as int,
                        height as int,
                        self.border as int,
                        side as int,
                    ),
                    extent == side * pixel_size,
                    extent <= width,
                    extent <= height,
                    border_width == (width - extent) / 2,
                    border_height == (height - extent) / 2,
                    pixels@.len() == y * width + x,
                    forall|x2: int, y2: int|
                        0 <= x2 < width && (0 <= y2 < y || (y2 == y && x2 < x)) ==> pixels@[pixel_index(
                            width as int,
                            x2,
                            y2,
                        )] == #[trigger] pixel_color(
                            self.qr_code@,
                            width as int,
                            height as int,
                            self.border as int,
                            self.border_color,
                            self.dark_color,
                            self.light_color,
                            x2,
                            y2,
                        ),
                decreases width - x,
            {
                let inside = pixel_size > 0 && border_width <= x && x < border_width + extent
                    && border_height <= y && y < border_height + extent;
                let color = if inside {
                    let column = (x - border_width) / pixel_size;
                    let row = (y - border_height) / pixel_size;
                    assert(column < side && row < side) by (nonlinear_arith)
                        requires
                            pixel_size > 0,
                            column == (x - border_width) / (pixel_size as int),
                            row == (y - border_height) / (pixel_size as int),
                            0 <= x - border_width < side * pixel_size,
                            0 <= y - border_height < side * pixel_size,
                    ;
                    if self.qr_code.get(column, row) {
                        self.dark_color
                    } else {
                        self.light_color
                    }
                } else {
                    self.border_color
                };
                proof {
                    lemma_row_index(width as int, height as int, x as int, y as int);
                    assert forall|x2: int, y2: int|
                        0 <= x2 < width && (0 <= y2 < y || (y2 == y && x2 < x)) implies 0
                            <= #[trigger] pixel_index(width as int, x2, y2) < y * width + x by {
                        lemma_row_order(width as int, x2, y2, x as int, y as int);
                    }
                }
                pixels.push(color);
                x += 1;
            }
            assert((y + 1) * width == y * width + width) by (nonlinear_arith);
            y += 1;
        }
        assert(height * width == width * height) by (nonlinear_arith);
        Ok(Raster { width, height, pixels })
    }
}

/// The index of a pixel lies in the raster.
pub proof fn lemma_row_index(width: int, height: int, x: int, y: int)
    by (nonlinear_arith)
    requires
        0 <= x < width,
        0 <= y < height,
    ensures
        0 <= y * width + x < width * height,
{
}

/// Pixels are numbered row by row.
pub proof fn lemma_row_order(width: int, x2: int, y2: int, x: int, y: int)
    by (nonlinear_arith)
    requires
        0 <= x2 < width,
        0 <= x <= width,
        0 <= y2,
        y2 < y || (y2 == y && x2 < x),
    ensures
        0 <= y2 * width + x2 < y * width + x,
{
}

} // verus!
