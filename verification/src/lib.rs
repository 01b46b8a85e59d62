//! QR Code and Micro QR Code symbol construction.
//!
//! Segments of data are packed into a bit stream, padded to the capacity of
//! the chosen version and level, protected with Reed-Solomon codewords,
//! interleaved, and laid out in a square grid of modules, to which the best
//! mask and the format and version information are applied.

pub mod color;
pub mod constants;
pub mod correction;
pub mod drawing;
pub mod encode;
pub mod enums;
pub mod error;
pub mod galois;
pub mod image;
pub mod interleave;
pub mod mask;
pub mod matrix_builder;
pub mod matrix_builder_micro;
pub mod mode_selector;
pub mod penalty;
pub mod placement;
pub mod qrcode;
pub mod qrcode_builder;
pub mod structured;
pub mod svg;
pub mod symbol;
pub mod tables;
pub mod utils;

pub use color::Color;
pub use enums::{ErrorCorrection, Mode, Version};
pub use error::QRError;
pub use image::ImageQRCode;
pub use qrcode::QRCode;
pub use qrcode_builder::QRBuilder;
pub use svg::SvgQRCode;
