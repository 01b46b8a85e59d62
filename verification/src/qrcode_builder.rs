//! A builder that collects the version, the level and the segments of a
//! symbol.

use crate::enums::{ErrorCorrection, Mode, Version};
use crate::error::QRError;
use crate::image::ImageQRCode;
use crate::mode_selector::{first_fit, get_version, select_mode, selected_mode};
use crate::qrcode::QRCode;
use crate::structured::appended;
use crate::svg::SvgQRCode;
use crate::symbol::{built, check_segments, segments_valid};
use crate::utils::{optimize_segments, optimized, segments_of};
use vstd::prelude::*;

verus! {

/// Collects the version, the level and the segments of a symbol.
#[derive(Debug)]
pub struct QRBuilder {
    version: Option<Version>,
    error_correction: Option<ErrorCorrection>,
    segments: Vec<(Mode, Vec<u8>)>,
}

/// Whether a result is what a builder with the given choices gives: with a
/// version, the symbol of that version; without one, the symbol of the
/// lowest full-size version that the segments fit, "Invalid data" if the
/// payload of a segment does not fit its mode, and "Data is too large" if
/// no version is large enough.
pub open spec fn built_by(
    result: Result<QRCode, QRError>,
    version: Option<Version>,
    level: ErrorCorrection,
    segments: Seq<(Mode, Seq<u8>)>,
) -> bool {
    match version {
        Some(v) => built(result, v, level, segments),
        None => if !segments_valid(segments) {
            result matches Err(e) && e@ == "Invalid data"@
        } else {
            match first_fit(level, segments, 1) {
                Some(n) => built(result, Version::V(n as usize), level, segments),
                None => result matches Err(e) && e@ == "Data is too large"@,
            }
        },
    }
}

impl QRBuilder {
    /// The version that was chosen, if any.
    pub closed spec fn chosen_version(&self) -> Option<Version> {
        self.version
    }

    /// The level that was chosen, if any.
    pub closed spec fn chosen_level(&self) -> Option<ErrorCorrection> {
        self.error_correction
    }

    /// The segments that were added, in order.
    pub closed spec fn added(&self) -> Seq<(Mode, Seq<u8>)> {
        segments_of(self.segments@)
    }

    /// The level of the symbol: the chosen one, or M.
    pub open spec fn level(&self) -> ErrorCorrection {
        match self.chosen_level() {
            Some(level) => level,
            None => ErrorCorrection::M,
        }
    }

    /// A builder without version, level and segments.
    pub fn new() -> (builder: QRBuilder)
        ensures
            builder.chosen_version() is None,
            builder.chosen_level() is None,
            builder.added() == Seq::<(Mode, Seq<u8>)>::empty(),
    {
        let builder = QRBuilder { version: None, error_correction: None, segments: Vec::new() };
        assert(builder.added() =~= Seq::<(Mode, Seq<u8>)>::empty());
        builder
    }

    /// Chooses the version.
    pub fn version(self, version: Version) -> (builder: QRBuilder)
        ensures
            builder.chosen_version() == Some(version),
            builder.chosen_level() == self.chosen_level(),
            builder.added() == self.added(),
    {
        QRBuilder {
            version: Some(version),
            error_correction: self.error_correction,
            segments: self.segments,
        }
    }

    /// Chooses the level.
    pub fn error_correction(self, ec: ErrorCorrection) -> (builder: QRBuilder)
        ensures
            builder.chosen_version() == self.chosen_version(),
            builder.chosen_level() == Some(ec),
            builder.added() == self.added(),
    {
        QRBuilder { version: self.version, error_correction: Some(ec), segments: self.segments }
    }

    /// Adds a segment, in the given mode or, without one, in the most
    /// compact mode that can hold the bytes.
    pub fn add_segment(self, mode: Option<Mode>, bytes: &[u8]) -> (builder: QRBuilder)
        ensures
            builder.chosen_version() == self.chosen_version(),
            builder.chosen_level() == self.chosen_level(),
            builder.added() == self.added().push(
                (
                    match mode {
                        Some(m) => m,
                        None => selected_mode(bytes@),
                    },
                    bytes@,
                ),
            ),
    {
        let chosen = match mode {
            Some(m) => m,
            None => select_mode(bytes),
        };
        let mut data: Vec<u8> = Vec::new();
        let mut i: usize = 0;
        while i < bytes.len()
            invariant
                i <= bytes.len(),
                data@ == bytes@.take(i as int),
            decreases bytes.len() - i,
        {
            data.push(bytes[i]);
            i += 1;
            assert(data@ =~= bytes@.take(i as int));
        }
        assert(bytes@.take(bytes.len() as int) =~= bytes@);
        let mut segments = self.segments;
        segments.push((chosen, data));
        let builder = QRBuilder {
            version: self.version,
            error_correction: self.error_correction,
            segments,
        };
        assert(builder.added() =~= self.added().push((chosen, bytes@)));
        builder
    }

    /// Adds an ECI segment with the given designator.
    pub fn put_eci(self, eci: usize) -> (builder: QRBuilder)
        ensures
            builder.chosen_version() == self.chosen_version(),
            builder.chosen_level() == self.chosen_level(),
            builder.added() == self.added().push((Mode::ECI(eci), Seq::<u8>::empty())),
    {
        let mut segments = self.segments;
        segments.push((Mode::ECI(eci), Vec::new()));
        let builder = QRBuilder {
            version: self.version,
            error_correction: self.error_correction,
            segments,
        };
        assert(builder.added() =~= self.added().push((Mode::ECI(eci), Seq::<u8>::empty())));
        builder
    }

    /// Builds the symbol: neighbouring segments of one mode are merged, and
    /// without a chosen version the lowest full-size version that the
    /// segments fit is taken.
    pub fn build(self) -> (result: Result<QRCode, QRError>)
        ensures
            built_by(result, self.chosen_version(), self.level(), optimized(self.added())),
    {
        let error_correction = match self.error_correction {
            Some(ec) => ec,
            None => ErrorCorrection::M,
        };
        let segments = optimize_segments(&self.segments);
        let version = match self.version {
            Some(v) => v,
            None => {
                match check_segments(1, segments.as_slice()) {
                    Ok(_) => {},
                    Err(e) => {
                        return Err(e);
                    },
                }
                match get_version(&segments, &error_correction) {
                    Ok(v) => v,
                    Err(e) => {
                        return Err(e);
                    },
                }
            },
        };
        QRCode::build(version, error_correction, segments.as_slice())
    }

    /// Spreads the segments over several symbols of the chosen version;
    /// neighbouring segments of one mode are merged first. Fails with
    /// "Version is required for structured append" without a version.
    pub fn build_with_structual_append(self) -> (result: Result<Vec<QRCode>, QRError>)
        ensures
            match self.chosen_version() {
                Some(version) => appended(result, version, self.level(), optimized(self.added())),
                None => result matches Err(e) && e@ == "Version is required for structured append"@,
            },
    {
        let error_correction = match self.error_correction {
            Some(ec) => ec,
            None => ErrorCorrection::M,
        };
        let segments = optimize_segments(&self.segments);
        let version = match self.version {
            Some(v) => v,
            None => {
                return Err(QRError::new("Version is required for structured append"));
            },
        };
        QRCode::build_with_structual_append(version, error_correction, segments.as_slice())
    }
}

impl QRCode {
    /// A builder without version, level and segments.
    pub fn builder() -> (builder: QRBuilder)
        ensures
            builder.chosen_version() is None,
            builder.chosen_level() is None,
            builder.added() == Seq::<(Mode, Seq<u8>)>::empty(),
    {
        QRBuilder::new()
    }

    /// A drawing of a copy of the symbol as a raster of pixels.
    pub fn image_builder(&self) -> (image: ImageQRCode)
        requires
            self.wf(),
            self.side() >= 1,
        ensures
            image.wf(),
            image.code()@ == self@,
            image.code().side() == self.side(),
            image.width() == self.side(),
            image.height() == self.side(),
            image.border() == 0,
            image.errors().len() == 0,
    {
        ImageQRCode::new(self.clone())
    }

    /// A drawing of a copy of the symbol as an SVG document.
    pub fn svg_builder(&self) -> (svg: SvgQRCode)
        requires
            self.wf(),
            self.side() >= 1,
        ensures
            svg.wf(),
            svg.code()@ == self@,
            svg.code().side() == self.side(),
            svg.width() == self.side(),
            svg.height() == self.side(),
            svg.border() == 0,
            svg.errors().len() == 0,
    {
        SvgQRCode::new(self.clone())
    }
}

} // verus!
