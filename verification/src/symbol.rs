//! The way from segments to a symbol.

use crate::correction::{block_layout, blocks_of, correction, ec_block, ec_codeword_count, rows};
use crate::encode::{
    assembled, build_combined_data, encode_segment, header, is_mode_supported, is_segment_valid,
    mode_supported, payload, segment_valid,
};
use crate::enums::{ErrorCorrection, Mode, Version};
use crate::error::QRError;
use crate::interleave::{interleave, interleave_spec};
use crate::matrix_builder::standard_symbol;
use crate::matrix_builder_micro::micro_symbol;
use crate::qrcode::{blank, complete, Grid, QRCode};
use crate::utils::{data_codeword_capacity, get_available_data_size, push_all, segments_of};
use vstd::prelude::*;

verus! {

/// Whether a symbol of the given version can hold the modes of all the
/// segments.
pub open spec fn segments_supported(version: int, segments: Seq<(Mode, Seq<u8>)>) -> bool {
    forall|i: int| 0 <= i < segments.len() ==> mode_supported(version, (#[trigger] segments[i]).0)
}

/// Whether the payload of every segment fits its mode.
pub open spec fn segments_valid(segments: Seq<(Mode, Seq<u8>)>) -> bool {
    forall|i: int|
        0 <= i < segments.len() ==> segment_valid((#[trigger] segments[i]).0, segments[i].1)
}

/// The data bits of the segments: header and payload of each, in order.
pub open spec fn segment_bits(version: int, segments: Seq<(Mode, Seq<u8>)>) -> Seq<bool>
    decreases segments.len(),
{
    if segments.len() == 0 {
        Seq::empty()
    } else {
        segment_bits(version, segments.drop_last()) + header(
            version,
            segments.last().0,
            segments.last().1,
        ) + payload(segments.last().0, segments.last().1)
    }
}

/// The error correction blocks of data blocks, `n` codewords each.
pub open spec fn ec_blocks_of(blocks: Seq<Seq<u8>>, n: nat) -> Seq<Seq<u8>> {
    Seq::new(blocks.len(), |i: int| ec_block(blocks[i], n))
}

/// The bit stream of a symbol that holds the given data bits: the bits are
/// filled up to the capacity, cut into blocks, protected and interleaved.
pub open spec fn bit_stream(version: int, level: ErrorCorrection, bits: Seq<bool>) -> Seq<bool> {
    let blocks = blocks_of(
        assembled(bits, version, data_codeword_capacity(version, level)),
        block_layout(version, level),
    );
    interleave_spec(blocks, ec_blocks_of(blocks, ec_codeword_count(version, level)), version)
}

/// The symbol of a version (1 to 44) and level that holds the given data
/// bits.
pub open spec fn symbol_of_bits(version: int, level: ErrorCorrection, bits: Seq<bool>) -> Grid {
    if version <= 40 {
        standard_symbol(
            blank(QRCode::dimension_of(version)),
            version,
            level,
            bit_stream(version, level, bits),
        )
    } else {
        micro_symbol(
            blank(QRCode::dimension_of(version)),
            version,
            level,
            bit_stream(version, level, bits),
        )
    }
}

/// The symbol of a version and level that holds the given segments.
pub open spec fn symbol(version: Version, level: ErrorCorrection, segments: Seq<(Mode, Seq<u8>)>) -> Grid {
    symbol_of_bits(version.number() as int, level, segment_bits(version.number() as int, segments))
}

/// Why no symbol of the version and level holds the segments, if none does:
/// the version does not exist or does not offer the level; it does not
/// offer the mode of a segment; the payload of a segment does not fit its
/// mode; the segments take more bits than the symbol has.
pub open spec fn build_failure(version: Version, level: ErrorCorrection, segments: Seq<(Mode, Seq<u8>)>) -> Option<
    Seq<char>,
> {
    if !version.valid() || data_codeword_capacity(version.number() as int, level) == 0 {
        Some("Invalid version"@)
    } else if !segments_supported(version.number() as int, segments) {
        Some("Invalid mode"@)
    } else if !segments_valid(segments) {
        Some("Invalid data"@)
    } else if segment_bits(version.number() as int, segments).len() > data_codeword_capacity(
        version.number() as int,
        level,
    ) {
        Some("Data too large"@)
    } else {
        None
    }
}

/// Whether a result is what building the symbol of a version and level
/// around the segments gives: the symbol, whole and with every module set,
/// or the message of the failure.
pub open spec fn built(
    result: Result<QRCode, QRError>,
    version: Version,
    level: ErrorCorrection,
    segments: Seq<(Mode, Seq<u8>)>,
) -> bool {
    match result {
        Ok(code) => {
            &&& build_failure(version, level, segments) is None
            &&& code.wf()
            &&& code.side() == QRCode::dimension_of(version.number() as int)
            &&& code@ == symbol(version, level, segments)
            &&& complete(code@)
        },
        Err(e) => build_failure(version, level, segments) == Some(e@),
    }
}

/// Building is a function of the version, the level and the segments: two
/// builds of the same input both succeed with symbols that are equal module
/// by module, or both fail with the same message.
pub proof fn lemma_build_is_determined(
    first: Result<QRCode, QRError>,
    second: Result<QRCode, QRError>,
    version: Version,
    level: ErrorCorrection,
    segments: Seq<(Mode, Seq<u8>)>,
)
    requires
        built(first, version, level, segments),
        built(second, version, level, segments),
    ensures
        match (first, second) {
            (Ok(a), Ok(b)) => a@ == b@,
            (Err(a), Err(b)) => a@ == b@,
            _ => false,
        },
{
}

/// Whether the version can hold the modes of all the segments and the
/// payload of every segment fits its mode; the error says which of the two
/// fails first.
pub fn check_segments(version: usize, segments: &[(Mode, Vec<u8>)]) -> (result: Result<(), QRError>)
    ensures
        match result {
            Ok(_) => segments_supported(version as int, segments_of(segments@)) && segments_valid(
                segments_of(segments@),
            ),
            Err(e) => if !segments_supported(version as int, segments_of(segments@)) {
                e@ == "Invalid mode"@
            } else {
                !segments_valid(segments_of(segments@)) && e@ == "Invalid data"@
            },
        },
{
    let ghost all = segments_of(segments@);
    let mut i: usize = 0;
    while i < segments.len()
        invariant
            i <= segments.len(),
            all == segments_of(segments@),
            forall|k: int| 0 <= k < i ==> mode_supported(version as int, (#[trigger] all[k]).0),
        decreases segments.len() - i,
    {
        assert(all[i as int].0 == segments@[i as int].0);
        if !is_mode_supported(version, &segments[i].0) {
            return Err(QRError::new("Invalid mode"));
        }
        i += 1;
    }
    i = 0;
    while i < segments.len()
        invariant
            i <= segments.len(),
            all == segments_of(segments@),
            segments_supported(version as int, all),
            forall|k: int| 0 <= k < i ==> segment_valid((#[trigger] all[k]).0, all[k].1),
        decreases segments.len() - i,
    {
        assert(all[i as int] == (segments@[i as int].0, segments@[i as int].1@));
        if !is_segment_valid(&segments[i].0, segments[i].1.as_slice()) {
            return Err(QRError::new("Invalid data"));
        }
        i += 1;
    }
    Ok(())
}

/// Encodes the segments for a version into their data bits.
pub fn encode_segments(version: usize, segments: &[(Mode, Vec<u8>)]) -> (bits: Vec<bool>)
    requires
        segments_supported(version as int, segments_of(segments@)),
        segments_valid(segments_of(segments@)),
    ensures
        bits@ == segment_bits(version as int, segments_of(segments@)),
{
    let ghost all = segments_of(segments@);
    let mut combined_data: Vec<bool> = Vec::new();
    let mut i: usize = 0;
    assert(all.take(0) =~= Seq::<(Mode, Seq<u8>)>::empty());
    while i < segments.len()
        invariant
            i <= segments.len(),
            all == segments_of(segments@),
            segments_supported(version as int, all),
            segments_valid(all),
            combined_data@ == segment_bits(version as int, all.take(i as int)),
        decreases segments.len() - i,
    {
        proof {
            assert(all[i as int] == (segments@[i as int].0, segments@[i as int].1@));
            assert(all.take(i + 1).drop_last() =~= all.take(i as int));
            assert(all.take(i + 1).last() == all[i as int]);
        }
        let (mode, data) = encode_segment(version, &segments[i].0, segments[i].1.as_slice());
        push_all(&mut combined_data, &mode);
        push_all(&mut combined_data, &data);
        i += 1;
    }
    assert(all.take(segments.len() as int) =~= all);
    combined_data
}

/// Builds the symbol of a version (1 to 44) and level around data bits
/// that fit its capacity.
pub fn build_from_bits(version: usize, error_correction: &ErrorCorrection, bits: Vec<bool>) -> (result: Result<
    QRCode,
    QRError,
>)
    requires
        1 <= version <= 44,
    ensures
        match result {
            Ok(code) => {
                &&& data_codeword_capacity(version as int, *error_correction) > 0
                &&& bits@.len() <= data_codeword_capacity(version as int, *error_correction)
                &&& code.wf()
                &&& code.side() == QRCode::dimension_of(version as int)
                &&& code@ == symbol_of_bits(version as int, *error_correction, bits@)
                &&& complete(code@)
            },
            Err(e) => if data_codeword_capacity(version as int, *error_correction) == 0 {
                e@ == "Invalid version"@
            } else {
                &&& bits@.len() > data_codeword_capacity(version as int, *error_correction)
                &&& e@ == "Data too large"@
            },
        },
{
    let combined_data = match build_combined_data(bits, version, error_correction) {
        Ok(data) => data,
        Err(e) => {
            return Err(e);
        },
    };
    let (blocks, ec_blocks) = correction(version, error_correction, combined_data);
    proof {
        assert(rows(ec_blocks@) =~= ec_blocks_of(
            rows(blocks@),
            ec_codeword_count(version as int, *error_correction),
        ));
    }
    let result = interleave(blocks, ec_blocks, version);
    let dimension = QRCode::calculate_dimension(version);
    assert(dimension * dimension <= 177 * 177) by (nonlinear_arith)
        requires
            dimension <= 177,
    ;
    let mut matrix = QRCode::new(dimension);
    if version <= 40 {
        crate::matrix_builder::build_qr_matrix(&mut matrix, version, error_correction, result);
    } else {
        crate::matrix_builder_micro::build_qr_matrix(&mut matrix, version, error_correction, result);
    }
    Ok(matrix)
}

impl QRCode {
    /// Builds the symbol of a version and level that holds the segments.
    ///
    /// Fails with the message that `build_failure` gives where no such
    /// symbol exists.
    pub fn build(version: Version, error_correction: ErrorCorrection, segments: &[(Mode, Vec<u8>)]) -> (result:
        Result<QRCode, QRError>)
        ensures
            built(result, version, error_correction, segments_of(segments@)),
    {
        let number: usize = match version {
            Version::V(v) => {
                if v < 1 || v > 40 {
                    return Err(QRError::new("Invalid version"));
                }
                v
            },
            Version::M(v) => {
                if v < 1 || v > 4 {
                    return Err(QRError::new("Invalid version"));
                }
                v + 40
            },
        };
        if get_available_data_size(number, &error_correction) == 0 {
            return Err(QRError::new("Invalid version"));
        }
        match check_segments(number, segments) {
            Ok(_) => {},
            Err(e) => {
                return Err(e);
            },
        }
        let combined_data = encode_segments(number, segments);
        build_from_bits(number, &error_correction, combined_data)
    }
}

} // verus!
