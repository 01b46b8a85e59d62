//! Segment encoding and the assembly of the data bits of a symbol.

use crate::constants::REMAINDER_BITS;
use crate::enums::{ErrorCorrection, Mode};
use crate::error::QRError;
use crate::utils::{
    bits_of, data_codeword_capacity, get_available_data_size, lemma_bits_of_len, push_all,
    push_bits, push_zeros, zeros,
};
use vstd::prelude::*;

verus! {

/// Whether a symbol of the given version can hold a segment of the given
/// mode. Full-size symbols take every mode; M1 takes digits only, M2 digits
/// and alphanumeric text, M3 and M4 everything but ECI.
pub open spec fn mode_supported(version: int, mode: Mode) -> bool {
    match mode {
        Mode::Numeric => 1 <= version <= 44,
        Mode::Alphanumeric => 1 <= version <= 40 || 42 <= version <= 44,
        Mode::Byte => 1 <= version <= 40 || 43 <= version <= 44,
        Mode::Kanji => 1 <= version <= 40 || 43 <= version <= 44,
        Mode::ECI(_) => 1 <= version <= 40,
    }
}

/// Whether a byte is an ASCII digit.
pub open spec fn is_digit(b: u8) -> bool {
    48 <= b <= 57
}

/// The position of a character in the alphanumeric set, or 45 for a
/// character outside it.
pub open spec fn alphanumeric_position(c: u8) -> nat {
    if 48 <= c <= 57 {
        (c - 48) as nat
    } else if 65 <= c <= 90 {
        (c - 65 + 10) as nat
    } else if c == 32 {
        36
    } else if c == 36 {
        37
    } else if c == 37 {
        38
    } else if c == 42 {
        39
    } else if c == 43 {
        40
    } else if c == 45 {
        41
    } else if c == 46 {
        42
    } else if c == 47 {
        43
    } else if c == 58 {
        44
    } else {
        45
    }
}

/// Whether a byte belongs to the alphanumeric set: digits, upper case
/// letters, space and `$%*+-./:`.
pub open spec fn is_alphanumeric(c: u8) -> bool {
    alphanumeric_position(c) < 45
}

/// The value of a character in alphanumeric mode; a character outside the
/// set counts as zero.
pub open spec fn alphanumeric_index(c: u8) -> nat {
    if is_alphanumeric(c) {
        alphanumeric_position(c)
    } else {
        0
    }
}

/// Whether two bytes form a Shift-JIS character that Kanji mode can hold.
pub open spec fn is_kanji_pair(high: u8, low: u8) -> bool {
    let value = high * 256 + low;
    0x8140 <= value <= 0x9FFC || 0xE040 <= value <= 0xEBBF
}

/// Whether the bytes `2k` and `2k + 1` form a character of Kanji mode.
pub open spec fn kanji_pair_at(bytes: Seq<u8>, k: int) -> bool {
    is_kanji_pair(bytes[2 * k], bytes[2 * k + 1])
}

/// Whether the payload fits the mode: digits for numeric, characters of the
/// set for alphanumeric, pairs of Shift-JIS bytes for Kanji.
pub open spec fn segment_valid(mode: Mode, bytes: Seq<u8>) -> bool {
    match mode {
        Mode::Numeric => forall|i: int| 0 <= i < bytes.len() ==> is_digit(#[trigger] bytes[i]),
        Mode::Alphanumeric => forall|i: int|
            0 <= i < bytes.len() ==> is_alphanumeric(#[trigger] bytes[i]),
        Mode::Byte => true,
        Mode::Kanji => bytes.len() % 2 == 0 && forall|k: int|
            0 <= k < bytes.len() / 2 ==> #[trigger] kanji_pair_at(bytes, k),
        Mode::ECI(_) => true,
    }
}

/// Width of the character count indicator.
pub open spec fn count_bits(version: int, mode: Mode) -> nat {
    match mode {
        Mode::Numeric => if version <= 9 {
            10
        } else if version <= 26 {
            12
        } else if version <= 40 {
            14
        } else {
            (version - 38) as nat
        },
        Mode::Alphanumeric => if version <= 9 {
            9
        } else if version <= 26 {
            11
        } else if version <= 40 {
            13
        } else {
            (version - 39) as nat
        },
        Mode::Byte => if version <= 9 {
            8
        } else if version <= 40 {
            16
        } else {
            (version - 39) as nat
        },
        Mode::Kanji => if version <= 9 {
            8
        } else if version <= 26 {
            10
        } else if version <= 40 {
            12
        } else {
            (version - 40) as nat
        },
        Mode::ECI(designator) => if designator <= 127 {
            8
        } else if designator <= 16383 {
            16
        } else if designator <= 999999 {
            24
        } else {
            0
        },
    }
}

/// The mode indicator: four bits in full-size symbols, `version - 41` bits
/// in Micro symbols.
pub open spec fn mode_indicator(version: int, mode: Mode) -> Seq<bool> {
    if version <= 40 {
        match mode {
            Mode::Numeric => seq![false, false, false, true],
            Mode::Alphanumeric => seq![false, false, true, false],
            Mode::Byte => seq![false, true, false, false],
            Mode::Kanji => seq![true, false, false, false],
            Mode::ECI(_) => seq![false, true, true, true],
        }
    } else if version == 41 {
        Seq::empty()
    } else if version == 42 {
        match mode {
            Mode::Numeric => seq![false],
            _ => seq![true],
        }
    } else if version == 43 {
        match mode {
            Mode::Numeric => seq![false, false],
            Mode::Alphanumeric => seq![false, true],
            Mode::Byte => seq![true, false],
            _ => seq![true, true],
        }
    } else {
        match mode {
            Mode::Numeric => seq![false, false, false],
            Mode::Alphanumeric => seq![false, false, true],
            Mode::Byte => seq![false, true, false],
            _ => seq![false, true, true],
        }
    }
}

/// The number that the character count indicator holds: the characters of
/// the payload, or the designator of an ECI segment.
pub open spec fn count_value(mode: Mode, bytes: Seq<u8>) -> nat {
    match mode {
        Mode::Kanji => bytes.len() / 2,
        Mode::ECI(designator) => designator as nat,
        _ => bytes.len(),
    }
}

/// The value of an ASCII digit.
pub open spec fn digit(b: u8) -> nat {
    if is_digit(b) {
        (b - 48) as nat
    } else {
        0
    }
}

/// Digits in groups of three as ten bits; two left over as seven bits, one
/// as four.
pub open spec fn numeric_bits(bytes: Seq<u8>) -> Seq<bool>
    decreases bytes.len(),
{
    if bytes.len() == 0 {
        Seq::empty()
    } else if bytes.len() == 1 {
        bits_of(digit(bytes[0]), 4)
    } else if bytes.len() == 2 {
        bits_of(digit(bytes[0]) * 10 + digit(bytes[1]), 7)
    } else {
        bits_of(digit(bytes[0]) * 100 + digit(bytes[1]) * 10 + digit(bytes[2]), 10) + numeric_bits(
            bytes.skip(3),
        )
    }
}

/// Characters in pairs as eleven bits; one left over as six.
pub open spec fn alphanumeric_bits(bytes: Seq<u8>) -> Seq<bool>
    decreases bytes.len(),
{
    if bytes.len() == 0 {
        Seq::empty()
    } else if bytes.len() == 1 {
        bits_of(alphanumeric_index(bytes[0]), 6)
    } else {
        bits_of(alphanumeric_index(bytes[0]) * 45 + alphanumeric_index(bytes[1]), 11)
            + alphanumeric_bits(bytes.skip(2))
    }
}

/// Each byte as eight bits.
pub open spec fn byte_bits(bytes: Seq<u8>) -> Seq<bool>
    decreases bytes.len(),
{
    if bytes.len() == 0 {
        Seq::empty()
    } else {
        bits_of(bytes[0] as nat, 8) + byte_bits(bytes.skip(1))
    }
}

/// The thirteen-bit value of a Shift-JIS character: the offset of its range
/// is taken off, then the high byte counts 0xC0 times.
pub open spec fn kanji_value(high: u8, low: u8) -> nat {
    let value = high * 256 + low;
    let shifted = if 0x8140 <= value <= 0x9FFC {
        value - 0x8140
    } else if 0xE040 <= value <= 0xEBBF {
        value - 0xC140
    } else {
        value
    };
    ((shifted / 256) * 0xC0 + shifted % 256) as nat
}

/// Each pair of bytes as thirteen bits; a single byte at the end is left out.
pub open spec fn kanji_bits(bytes: Seq<u8>) -> Seq<bool>
    decreases bytes.len(),
{
    if bytes.len() < 2 {
        Seq::empty()
    } else {
        bits_of(kanji_value(bytes[0], bytes[1]), 13) + kanji_bits(bytes.skip(2))
    }
}

/// The payload bits of a segment.
pub open spec fn payload(mode: Mode, bytes: Seq<u8>) -> Seq<bool> {
    match mode {
        Mode::Numeric => numeric_bits(bytes),
        Mode::Alphanumeric => alphanumeric_bits(bytes),
        Mode::Byte => byte_bits(bytes),
        Mode::Kanji => kanji_bits(bytes),
        Mode::ECI(_) => Seq::empty(),
    }
}

/// The header bits of a segment: mode indicator, then character count.
pub open spec fn header(version: int, mode: Mode, bytes: Seq<u8>) -> Seq<bool> {
    mode_indicator(version, mode) + bits_of(count_value(mode, bytes), count_bits(version, mode))
}

/// Encodes one segment into its header bits and its payload bits.
pub fn encode_segment(version: usize, mode: &Mode, bytes: &[u8]) -> (parts: (Vec<bool>, Vec<bool>))
    requires
        mode_supported(version as int, *mode),
        *mode == Mode::Numeric ==> segment_valid(*mode, bytes@),
    ensures
        parts.0@ == header(version as int, *mode, bytes@),
        parts.1@ == payload(*mode, bytes@),
{
    let bit_count = get_bit_count(version, mode);
    let mode_indicator = get_mode(mode, version);
    let size = get_size(bytes, bit_count, mode);
    let mut head: Vec<bool> = Vec::new();
    push_all(&mut head, &mode_indicator);
    push_all(&mut head, &size);
    match mode {
        Mode::ECI(_) => (head, Vec::new()),
        _ => {
            let data = get_data(bytes, mode);
            (head, data)
        },
    }
}

/// The width of the character count indicator.
pub fn get_bit_count(version: usize, mode: &Mode) -> (width: usize)
    requires
        mode_supported(version as int, *mode),
    ensures
        width == count_bits(version as int, *mode),
        width <= 24,
{
    match mode {
        Mode::Numeric => if version <= 9 {
            10
        } else if version <= 26 {
            12
        } else if version <= 40 {
            14
        } else {
            version - 38
        },
        Mode::Alphanumeric => if version <= 9 {
            9
        } else if version <= 26 {
            11
        } else if version <= 40 {
            13
        } else {
            version - 39
        },
        Mode::Byte => if version <= 9 {
            8
        } else if version <= 40 {
            16
        } else {
            version - 39
        },
        Mode::Kanji => if version <= 9 {
            8
        } else if version <= 26 {
            10
        } else if version <= 40 {
            12
        } else {
            version - 40
        },
        Mode::ECI(designator) => if *designator <= 127 {
            8
        } else if *designator <= 16383 {
            16
        } else if *designator <= 999999 {
            24
        } else {
            0
        },
    }
}

/// The mode indicator of a segment.
pub fn get_mode(mode: &Mode, version: usize) -> (bits: Vec<bool>)
    requires
        mode_supported(version as int, *mode),
    ensures
        bits@ == mode_indicator(version as int, *mode),
{
    let bits = if version <= 40 {
        match mode {
            Mode::Numeric => vec![false, false, false, true],
            Mode::Alphanumeric => vec![false, false, true, false],
            Mode::Byte => vec![false, true, false, false],
            Mode::Kanji => vec![true, false, false, false],
            Mode::ECI(_) => vec![false, true, true, true],
        }
    } else if version == 41 {
        Vec::new()
    } else if version == 42 {
        match mode {
            Mode::Numeric => vec![false],
            _ => vec![true],
        }
    } else if version == 43 {
        match mode {
            Mode::Numeric => vec![false, false],
            Mode::Alphanumeric => vec![false, true],
            Mode::Byte => vec![true, false],
            _ => vec![true, true],
        }
    } else {
        match mode {
            Mode::Numeric => vec![false, false, false],
            Mode::Alphanumeric => vec![false, false, true],
            Mode::Byte => vec![false, true, false],
            _ => vec![false, true, true],
        }
    };
    assert(bits@ =~= mode_indicator(version as int, *mode));
    bits
}

/// The character count indicator of a segment, `bit_count` bits wide.
pub fn get_size(bytes: &[u8], bit_count: usize, mode: &Mode) -> (bits: Vec<bool>)
    ensures
        bits@ == bits_of(count_value(*mode, bytes@), bit_count as nat),
{
    let size = match mode {
        Mode::Kanji => bytes.len() / 2,
        Mode::ECI(designator) => *designator,
        _ => bytes.len(),
    };
    let mut bits: Vec<bool> = Vec::new();
    push_bits(&mut bits, size, bit_count);
    assert(bits@ =~= bits_of(size as nat, bit_count as nat));
    bits
}

/// The payload bits of a segment.
pub fn get_data(bytes: &[u8], mode: &Mode) -> (data: Vec<bool>)
    requires
        *mode == Mode::Numeric ==> segment_valid(*mode, bytes@),
    ensures
        data@ == payload(*mode, bytes@),
{
    let mut data: Vec<bool> = Vec::new();
    let len = bytes.len();
    match mode {
        Mode::Numeric => {
            let mut i: usize = 0;
            assert(bytes@.skip(0) =~= bytes@);
            assert(data@ + payload(*mode, bytes@) =~= payload(*mode, bytes@));
            while i < len
                invariant
                    i <= len,
                    len == bytes.len(),
                    segment_valid(Mode::Numeric, bytes@),
                    data@ + numeric_bits(bytes@.skip(i as int)) == numeric_bits(bytes@),
                decreases len - i,
            {
                let ghost rest = bytes@.skip(i as int);
                let ghost before = data@;
                assert(is_digit(bytes@[i as int]));
                let first = (bytes[i] - 48) as usize;
                if len - i == 1 {
                    push_bits(&mut data, first, 4);
                    i += 1;
                    assert(bytes@.skip(i as int).len() == 0);
                } else if len - i == 2 {
                    assert(is_digit(bytes@[i + 1]));
                    let second = (bytes[i + 1] - 48) as usize;
                    push_bits(&mut data, first * 10 + second, 7);
                    i += 2;
                    assert(bytes@.skip(i as int).len() == 0);
                } else {
                    assert(is_digit(bytes@[i + 1]));
                    assert(is_digit(bytes@[i + 2]));
                    let second = (bytes[i + 1] - 48) as usize;
                    let third = (bytes[i + 2] - 48) as usize;
                    push_bits(&mut data, first * 100 + second * 10 + third, 10);
                    i += 3;
                    assert(rest.skip(3) =~= bytes@.skip(i as int));
                }
                assert(data@ + numeric_bits(bytes@.skip(i as int)) =~= before + numeric_bits(rest));
            }
            assert(bytes@.skip(0) =~= bytes@);
            assert(data@ =~= numeric_bits(bytes@));
        },
        Mode::Alphanumeric => {
            let mut i: usize = 0;
            assert(bytes@.skip(0) =~= bytes@);
            assert(data@ + payload(*mode, bytes@) =~= payload(*mode, bytes@));
            while i < len
                invariant
                    i <= len,
                    len == bytes.len(),
                    data@ + alphanumeric_bits(bytes@.skip(i as int)) == alphanumeric_bits(bytes@),
                decreases len - i,
            {
                let ghost rest = bytes@.skip(i as int);
                let ghost before = data@;
                let first = get_alphanumeric_index(bytes[i]);
                if len - i == 1 {
                    push_bits(&mut data, first, 6);
                    i += 1;
                    assert(bytes@.skip(i as int).len() == 0);
                } else {
                    let second = get_alphanumeric_index(bytes[i + 1]);
                    push_bits(&mut data, first * 45 + second, 11);
                    i += 2;
                    assert(rest.skip(2) =~= bytes@.skip(i as int));
                }
                assert(data@ + alphanumeric_bits(bytes@.skip(i as int)) =~= before
                    + alphanumeric_bits(rest));
            }
            assert(bytes@.skip(0) =~= bytes@);
            assert(data@ =~= alphanumeric_bits(bytes@));
        },
        Mode::Byte => {
            let mut i: usize = 0;
            assert(bytes@.skip(0) =~= bytes@);
            assert(data@ + payload(*mode, bytes@) =~= payload(*mode, bytes@));
            while i < len
                invariant
                    i <= len,
                    len == bytes.len(),
                    data@ + byte_bits(bytes@.skip(i as int)) == byte_bits(bytes@),
                decreases len - i,
            {
                let ghost rest = bytes@.skip(i as int);
                let ghost before = data@;
                push_bits(&mut data, bytes[i] as usize, 8);
                i += 1;
                assert(rest.skip(1) =~= bytes@.skip(i as int));
                assert(data@ + byte_bits(bytes@.skip(i as int)) =~= before + byte_bits(rest));
            }
            assert(bytes@.skip(0) =~= bytes@);
            assert(data@ =~= byte_bits(bytes@));
        },
        Mode::Kanji => {
            let mut i: usize = 0;
            assert(bytes@.skip(0) =~= bytes@);
            assert(data@ + payload(*mode, bytes@) =~= payload(*mode, bytes@));
            while len - i >= 2
                invariant
                    i <= len,
                    len == bytes.len(),
                    data@ + kanji_bits(bytes@.skip(i as int)) == kanji_bits(bytes@),
                decreases len - i,
            {
                let ghost rest = bytes@.skip(i as int);
                let ghost before = data@;
                let value: usize = bytes[i] as usize * 256 + bytes[i + 1] as usize;
                let shifted: usize = if 0x8140 <= value && value <= 0x9FFC {
                    value - 0x8140
                } else if 0xE040 <= value && value <= 0xEBBF {
                    value - 0xC140
                } else {
                    value
                };
                push_bits(&mut data, (shifted / 256) * 0xC0 + shifted % 256, 13);
                i += 2;
                assert(rest.skip(2) =~= bytes@.skip(i as int));
                assert(data@ + kanji_bits(bytes@.skip(i as int)) =~= before + kanji_bits(rest));
            }
            assert(bytes@.skip(0) =~= bytes@);
            assert(data@ =~= kanji_bits(bytes@));
        },
        Mode::ECI(_) => {},
    }
    data
}

/// The value of a character in alphanumeric mode; zero for a character
/// outside the set.
pub fn get_alphanumeric_index(c: u8) -> (index: usize)
    ensures
        index == alphanumeric_index(c),
        index < 45,
{
    if 48 <= c && c <= 57 {
        (c - 48) as usize
    } else if 65 <= c && c <= 90 {
        (c - 65) as usize + 10
    } else if c == 32 {
        36
    } else if c == 36 {
        37
    } else if c == 37 {
        38
    } else if c == 42 {
        39
    } else if c == 43 {
        40
    } else if c == 45 {
        41
    } else if c == 46 {
        42
    } else if c == 47 {
        43
    } else if c == 58 {
        44
    } else {
        0
    }
}

/// Length of the terminator: four light bits in full-size symbols, and
/// three, five, seven and nine in M1 to M4.
pub open spec fn terminator_len(version: int) -> nat {
    if version <= 40 {
        4
    } else if version == 41 {
        3
    } else if version == 42 {
        5
    } else if version == 43 {
        7
    } else {
        9
    }
}

/// `count` pad codewords: 0xEC and 0x11 in turn, starting with 0xEC.
pub open spec fn pad_codewords(count: nat) -> Seq<bool> {
    Seq::new(8 * count, |i: int| bits_of(REMAINDER_BITS[(i / 8) % 2] as nat, 8)[i % 8])
}

/// The data bits filled up to the capacity: a terminator as far as there is
/// room for it; then, in a full-size symbol, light bits up to the next byte
/// boundary and pad codewords; in a Micro symbol, light bits to the end.
pub open spec fn assembled(data: Seq<bool>, version: int, capacity: nat) -> Seq<bool> {
    let room = capacity - data.len();
    let term = if room < terminator_len(version) {
        room as nat
    } else {
        terminator_len(version)
    };
    let ended = data + zeros(term);
    if version <= 40 {
        let aligned = ended + zeros(((8 - ended.len() % 8) % 8) as nat);
        aligned + pad_codewords(((capacity - aligned.len()) / 8) as nat)
    } else {
        ended + zeros((capacity - ended.len()) as nat)
    }
}

/// Appends `count` pad codewords.
fn push_pad_codewords(out: &mut Vec<bool>, count: usize)
    ensures
        final(out)@ == old(out)@ + pad_codewords(count as nat),
{
    let mut i: usize = 0;
    assert(out@ =~= old(out)@ + pad_codewords(0));
    while i < count
        invariant
            i <= count,
            out@ == old(out)@ + pad_codewords(i as nat),
        decreases count - i,
    {
        push_bits(out, REMAINDER_BITS[i % 2] as usize, 8);
        proof {
            lemma_bits_of_len(REMAINDER_BITS[(i % 2) as int] as nat, 8);
            assert(pad_codewords((i + 1) as nat) =~= pad_codewords(i as nat) + bits_of(
                REMAINDER_BITS[(i % 2) as int] as nat,
                8,
            ));
        }
        i += 1;
        assert(out@ =~= old(out)@ + pad_codewords(i as nat));
    }
}

/// Adds terminator and padding to data that fits the capacity.
fn fill_to_capacity(data: Vec<bool>, version: usize, data_codewords: usize) -> (bits: Vec<bool>)
    requires
        1 <= version <= 44,
        data@.len() <= data_codewords,
        version <= 40 ==> data_codewords % 8 == 0,
    ensures
        bits@ == assembled(data@, version as int, data_codewords as nat),
        bits@.len() == data_codewords,
{
    let mut combined_data = data;
    let terminator_size: usize = if version <= 40 {
        4
    } else if version == 41 {
        3
    } else if version == 42 {
        5
    } else if version == 43 {
        7
    } else {
        9
    };
    let room = data_codewords - combined_data.len();
    let terminator = if room < terminator_size {
        room
    } else {
        terminator_size
    };
    push_zeros(&mut combined_data, terminator);
    if version <= 40 {
        let fill = (8 - combined_data.len() % 8) % 8;
        push_zeros(&mut combined_data, fill);
        let remaining_bytes = (data_codewords - combined_data.len()) / 8;
        push_pad_codewords(&mut combined_data, remaining_bytes);
    } else {
        let rest = data_codewords - combined_data.len();
        push_zeros(&mut combined_data, rest);
    }
    combined_data
}

/// Fills the data bits of a symbol up to its capacity.
///
/// Fails with "Invalid version" where the version and level do not exist,
/// and with "Data too large" where the data exceeds the capacity.
pub fn build_combined_data(data: Vec<bool>, version: usize, error_correction: &ErrorCorrection) -> (result:
    Result<Vec<bool>, QRError>)
    ensures
        match result {
            Ok(bits) => {
                &&& data_codeword_capacity(version as int, *error_correction) > 0
                &&& data@.len() <= data_codeword_capacity(version as int, *error_correction)
                &&& bits@ == assembled(
                    data@,
                    version as int,
                    data_codeword_capacity(version as int, *error_correction),
                )
                &&& bits@.len() == data_codeword_capacity(version as int, *error_correction)
            },
            Err(e) => if data_codeword_capacity(version as int, *error_correction) == 0 {
                e@ == "Invalid version"@
            } else {
                &&& data@.len() > data_codeword_capacity(version as int, *error_correction)
                &&& e@ == "Data too large"@
            },
        },
{
    reveal(data_codeword_capacity);
    if version < 1 || version > 44 {
        return Err(QRError::new("Invalid version"));
    }
    let data_codewords = get_available_data_size(version, error_correction);
    if data_codewords == 0 {
        return Err(QRError::new("Invalid version"));
    }
    if data.len() > data_codewords {
        return Err(QRError::new("Data too large"));
    }
    Ok(fill_to_capacity(data, version, data_codewords))
}

/// Whether a symbol of the given version can hold a segment of the given
/// mode.
pub fn is_mode_supported(version: usize, mode: &Mode) -> (supported: bool)
    ensures
        supported == mode_supported(version as int, *mode),
{
    match mode {
        Mode::Numeric => 1 <= version && version <= 44,
        Mode::Alphanumeric => (1 <= version && version <= 40) || (42 <= version && version <= 44),
        Mode::Byte => (1 <= version && version <= 40) || (43 <= version && version <= 44),
        Mode::Kanji => (1 <= version && version <= 40) || (43 <= version && version <= 44),
        Mode::ECI(_) => 1 <= version && version <= 40,
    }
}

/// Whether a payload fits its mode.
pub fn is_segment_valid(mode: &Mode, bytes: &[u8]) -> (valid: bool)
    ensures
        valid == segment_valid(*mode, bytes@),
{
    let len = bytes.len();
    match mode {
        Mode::Numeric => {
            let mut i: usize = 0;
            while i < len
                invariant
                    i <= len,
                    len == bytes.len(),
                    *mode is Numeric,
                    forall|k: int| 0 <= k < i ==> is_digit(#[trigger] bytes@[k]),
                decreases len - i,
            {
                if !(48 <= bytes[i] && bytes[i] <= 57) {
                    assert(!is_digit(bytes@[i as int]));
                    return false;
                }
                i += 1;
            }
            true
        },
        Mode::Alphanumeric => {
            let mut i: usize = 0;
            while i < len
                invariant
                    i <= len,
                    len == bytes.len(),
                    *mode is Alphanumeric,
                    forall|k: int| 0 <= k < i ==> is_alphanumeric(#[trigger] bytes@[k]),
                decreases len - i,
            {
                let c = bytes[i];
                let known = (48 <= c && c <= 57) || (65 <= c && c <= 90) || c == 32 || c == 36 || c
                    == 37 || c == 42 || c == 43 || c == 45 || c == 46 || c == 47 || c == 58;
                if !known {
                    assert(!is_alphanumeric(bytes@[i as int]));
                    return false;
                }
                i += 1;
            }
            true
        },
        Mode::Byte => true,
        Mode::Kanji => {
            if len % 2 != 0 {
                return false;
            }
            let mut k: usize = 0;
            while k < len / 2
                invariant
                    k <= len / 2,
                    len == bytes.len(),
                    len % 2 == 0,
                    *mode is Kanji,
                    forall|j: int| 0 <= j < k ==> #[trigger] kanji_pair_at(bytes@, j),
                decreases len / 2 - k,
            {
                let value: usize = bytes[2 * k] as usize * 256 + bytes[2 * k + 1] as usize;
                let known = (0x8140 <= value && value <= 0x9FFC) || (0xE040 <= value && value
                    <= 0xEBBF);
                if !known {
                    assert(!kanji_pair_at(bytes@, k as int));
                    return false;
                }
                assert(kanji_pair_at(bytes@, k as int));
                k += 1;
            }
            true
        },
        Mode::ECI(_) => true,
    }
}

} // verus!
