//! The choice of a mode for bytes and of a version for segments.

use crate::encode::{is_segment_valid, segment_valid};
use crate::enums::{ErrorCorrection, Mode, Version};
use crate::error::QRError;
use crate::symbol::{encode_segments, segment_bits, segments_supported, segments_valid};
use crate::utils::{data_codeword_capacity, get_available_data_size, segments_of};
use vstd::prelude::*;

verus! {

/// The most compact mode that can hold the bytes: numeric for digits,
/// alphanumeric for characters of the alphanumeric set, byte mode for
/// anything else.
pub open spec fn selected_mode(bytes: Seq<u8>) -> Mode {
    if segment_valid(Mode::Numeric, bytes) {
        Mode::Numeric
    } else if segment_valid(Mode::Alphanumeric, bytes) {
        Mode::Alphanumeric
    } else {
        Mode::Byte
    }
}

/// Whether the segments fit a symbol of the given version and level.
pub open spec fn fits(version: int, level: ErrorCorrection, segments: Seq<(Mode, Seq<u8>)>) -> bool {
    segment_bits(version, segments).len() <= data_codeword_capacity(version, level)
}

/// The lowest full-size version from `from` on that the segments fit.
pub open spec fn first_fit(level: ErrorCorrection, segments: Seq<(Mode, Seq<u8>)>, from: int) -> Option<
    int,
>
    decreases 41 - from,
{
    if from > 40 {
        None
    } else if fits(from, level, segments) {
        Some(from)
    } else {
        first_fit(level, segments, from + 1)
    }
}

/// The lowest fitting version fits, and no version below it does.
pub proof fn lemma_first_fit(level: ErrorCorrection, segments: Seq<(Mode, Seq<u8>)>, from: int)
    requires
        1 <= from,
    ensures
        match first_fit(level, segments, from) {
            Some(version) => {
                &&& from <= version <= 40
                &&& fits(version, level, segments)
                &&& forall|lower: int| from <= lower < version ==> !fits(lower, level, segments)
            },
            None => forall|version: int| from <= version <= 40 ==> !fits(version, level, segments),
        },
    decreases 41 - from,
{
    if from <= 40 && !fits(from, level, segments) {
        lemma_first_fit(level, segments, from + 1);
    }
}

/// Selects the mode for the bytes.
pub fn select_mode(data: &[u8]) -> (mode: Mode)
    ensures
        mode == selected_mode(data@),
{
    if is_segment_valid(&Mode::Numeric, data) {
        Mode::Numeric
    } else if is_segment_valid(&Mode::Alphanumeric, data) {
        Mode::Alphanumeric
    } else {
        Mode::Byte
    }
}

/// Finds the lowest full-size version that the segments fit; fails with
/// "Data is too large" if there is none.
pub fn get_version(segments: &Vec<(Mode, Vec<u8>)>, error_correction: &ErrorCorrection) -> (result: Result<
    Version,
    QRError,
>)
    requires
        segments_valid(segments_of(segments@)),
    ensures
        match result {
            Ok(version) => first_fit(*error_correction, segments_of(segments@), 1) matches Some(n)
                && version == Version::V(n as usize),
            Err(e) => first_fit(*error_correction, segments_of(segments@), 1) is None && e@
                == "Data is too large"@,
        },
{
    let ghost all = segments_of(segments@);
    let mut i: usize = 1;
    while i <= 40
        invariant
            1 <= i <= 41,
            all == segments_of(segments@),
            segments_valid(all),
            first_fit(*error_correction, all, 1) == first_fit(*error_correction, all, i as int),
        decreases 41 - i,
    {
        assert(segments_supported(i as int, all));
        let bits = encode_segments(i, segments.as_slice());
        let capacity = get_available_data_size(i, error_correction);
        if bits.len() <= capacity {
            return Ok(Version::V(i));
        }
        i += 1;
    }
    Err(QRError::new("Data is too large"))
}

} // verus!
