//! Colours of drawings.

use vstd::prelude::*;

verus! {

/// A colour with red, green, blue and alpha channels.
#[derive(Debug, Clone, Copy, PartialEq, Eq, Structural)]
pub struct Color {
    /// Red channel.
    pub r: u8,
    /// Green channel.
    pub g: u8,
    /// Blue channel.
    pub b: u8,
    /// Alpha channel; 255 is opaque.
    pub a: u8,
}

impl Color {
    /// Opaque white.
    pub fn white() -> (color: Color)
        ensures
            color == (Color { r: 255, g: 255, b: 255, a: 255 }),
    {
        Color { r: 255, g: 255, b: 255, a: 255 }
    }

    /// Opaque black.
    pub fn black() -> (color: Color)
        ensures
            color == (Color { r: 0, g: 0, b: 0, a: 255 }),
    {
        Color { r: 0, g: 0, b: 0, a: 255 }
    }

    /// Opaque red.
    pub fn red() -> (color: Color)
        ensures
            color == (Color { r: 255, g: 0, b: 0, a: 255 }),
    {
        Color { r: 255, g: 0, b: 0, a: 255 }
    }

    /// Opaque green.
    pub fn green() -> (color: Color)
        ensures
            color == (Color { r: 0, g: 255, b: 0, a: 255 }),
    {
        Color { r: 0, g: 255, b: 0, a: 255 }
    }

    /// Opaque blue.
    pub fn blue() -> (color: Color)
        ensures
            color == (Color { r: 0, g: 0, b: 255, a: 255 }),
    {
        Color { r: 0, g: 0, b: 255, a: 255 }
    }

    /// Opaque yellow.
    pub fn yellow() -> (color: Color)
        ensures
            color == (Color { r: 255, g: 255, b: 0, a: 255 }),
    {
        Color { r: 255, g: 255, b: 0, a: 255 }
    }

    /// Opaque cyan.
    pub fn cyan() -> (color: Color)
        ensures
            color == (Color { r: 0, g: 255, b: 255, a: 255 }),
    {
        Color { r: 0, g: 255, b: 255, a: 255 }
    }

    /// Opaque magenta.
    pub fn magenta() -> (color: Color)
        ensures
            color == (Color { r: 255, g: 0, b: 255, a: 255 }),
    {
        Color { r: 255, g: 0, b: 255, a: 255 }
    }

    /// Fully transparent black.
    pub fn transparent() -> (color: Color)
        ensures
            color == (Color { r: 0, g: 0, b: 0, a: 0 }),
    {
        Color { r: 0, g: 0, b: 0, a: 0 }
    }

    /// The colour with the given channels.
    pub open spec fn new_spec(r: u8, g: u8, b: u8, a: u8) -> Color {
        Color { r, g, b, a }
    }

    /// The colour with the given channels.
    pub fn new(r: u8, g: u8, b: u8, a: u8) -> (color: Color)
        ensures
            color == Color::new_spec(r, g, b, a),
    {
        Color { r, g, b, a }
    }
}

} // verus!
