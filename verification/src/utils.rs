//! Bits, bytes and the merging of segments.

use crate::constants::DATA_CODEWORDS;
use crate::enums::{ErrorCorrection, Mode};
use vstd::prelude::*;

verus! {

/// The data capacity, in bits, of a symbol of the given version and level;
/// zero where the combination does not exist.
#[verifier::opaque]
pub open spec fn data_codeword_capacity(version: int, level: ErrorCorrection) -> nat {
    if 1 <= version <= 44 {
        DATA_CODEWORDS[version - 1][level.index() as int] as nat
    } else {
        0
    }
}

/// Looks the data capacity up.
pub fn get_available_data_size(version: usize, error_correction: &ErrorCorrection) -> (bits: usize)
    requires
        1 <= version <= 44,
    ensures
        bits == data_codeword_capacity(version as int, *error_correction),
        bits <= 23648,
        1 <= version <= 40 ==> bits % 8 == 0 && bits >= 72,
{
    reveal(data_codeword_capacity);
    DATA_CODEWORDS[version - 1][error_correction.to_value()]
}

/// The `width` low binary digits of `value`, most significant first.
pub open spec fn bits_of(value: nat, width: nat) -> Seq<bool>
    decreases width,
{
    if width == 0 {
        Seq::empty()
    } else {
        bits_of(value / 2, (width - 1) as nat).push(value % 2 == 1)
    }
}

/// The number that a sequence of binary digits, most significant first,
/// stands for.
pub open spec fn value_of(bits: Seq<bool>) -> nat
    decreases bits.len(),
{
    if bits.len() == 0 {
        0
    } else {
        2 * value_of(bits.drop_last()) + if bits.last() {
            1nat
        } else {
            0nat
        }
    }
}

/// A run of `n` light bits.
pub open spec fn zeros(n: nat) -> Seq<bool> {
    Seq::new(n, |i: int| false)
}

/// A number written in `width` binary digits has `width` digits.
pub proof fn lemma_bits_of_len(value: nat, width: nat)
    ensures
        bits_of(value, width).len() == width,
    decreases width,
{
    if width > 0 {
        lemma_bits_of_len(value / 2, (width - 1) as nat);
    }
}

/// Appends the `width` low binary digits of `value`, most significant first.
pub fn push_bits(out: &mut Vec<bool>, value: usize, width: usize)
    ensures
        final(out)@ == old(out)@ + bits_of(value as nat, width as nat),
{
    let start = out.len();
    let mut i: usize = 0;
    while i < width
        invariant
            i <= width,
            out@.len() == start + i,
            out@.take(start as int) == old(out)@,
            start == old(out)@.len(),
        decreases width - i,
    {
        out.push(false);
        i += 1;
        assert(out@.take(start as int) =~= old(out)@);
    }
    proof {
        lemma_bits_of_len(value as nat, width as nat);
    }
    let ghost want = bits_of(value as nat, width as nat);
    let mut rest: usize = value;
    let mut k: usize = width;
    while k > 0
        invariant
            k <= width,
            start == old(out)@.len(),
            out.len() == start + width,
            out@.take(start as int) == old(out)@,
            want == bits_of(value as nat, width as nat),
            want.len() == width,
            want.take(k as int) == bits_of(rest as nat, k as nat),
            forall|j: int| k <= j < width ==> out@[start + j] == want[j],
        decreases k,
    {
        proof {
            lemma_bits_of_len((rest / 2) as nat, (k - 1) as nat);
            assert(want.take(k as int)[k - 1] == (rest % 2 == 1));
            assert(want.take(k - 1) =~= want.take(k as int).drop_last());
            assert(want.take(k as int).drop_last() =~= bits_of((rest / 2) as nat, (k - 1) as nat));
        }
        k -= 1;
        out.set(start + k, rest % 2 == 1);
        rest = rest / 2;
        assert(out@.take(start as int) =~= old(out)@);
    }
    assert(out@ =~= old(out)@ + want);
}

/// Appends `count` light bits.
pub fn push_zeros(out: &mut Vec<bool>, count: usize)
    ensures
        final(out)@ == old(out)@ + zeros(count as nat),
{
    let mut i: usize = 0;
    while i < count
        invariant
            i <= count,
            out@ == old(out)@ + zeros(i as nat),
        decreases count - i,
    {
        out.push(false);
        i += 1;
        assert(out@ =~= old(out)@ + zeros(i as nat));
    }
}

/// Appends a copy of `bits`.
pub fn push_all(out: &mut Vec<bool>, bits: &Vec<bool>)
    ensures
        final(out)@ == old(out)@ + bits@,
{
    let mut i: usize = 0;
    while i < bits.len()
        invariant
            i <= bits.len(),
            out@ == old(out)@ + bits@.take(i as int),
        decreases bits.len() - i,
    {
        out.push(bits[i]);
        i += 1;
        assert(out@ =~= old(out)@ + bits@.take(i as int));
    }
    assert(bits@.take(bits.len() as int) =~= bits@);
}

/// The whole bytes of a bit sequence: byte `k` is read from the bits `8k`
/// to `8k + 7`; bits after the last whole byte are left out.
pub open spec fn bytes_of(bits: Seq<bool>) -> Seq<u8> {
    Seq::new(bits.len() / 8, |k: int| value_of(bits.subrange(8 * k, 8 * k + 8)) as u8)
}

/// A sequence of eight binary digits stands for a number below 256.
pub proof fn lemma_value_of_bound(bits: Seq<bool>)
    ensures
        value_of(bits) < vstd::arithmetic::power2::pow2(bits.len()),
    decreases bits.len(),
{
    if bits.len() == 0 {
        vstd::arithmetic::power2::lemma2_to64();
    } else {
        lemma_value_of_bound(bits.drop_last());
        vstd::arithmetic::power2::lemma_pow2_unfold(bits.len());
    }
}

/// Packs bits into bytes, most significant bit first.
pub fn bits_to_bytes(data: &[bool]) -> (bytes: Vec<u8>)
    ensures
        bytes@ == bytes_of(data@),
{
    let count = data.len() / 8;
    let mut bytes: Vec<u8> = Vec::new();
    let mut k: usize = 0;
    while k < count
        invariant
            k <= count,
            count == data.len() / 8,
            bytes@.len() == k,
            forall|j: int| 0 <= j < k ==> bytes@[j] == bytes_of(data@)[j],
        decreases count - k,
    {
        let mut byte: u8 = 0;
        let mut i: usize = 0;
        let ghost chunk = data@.subrange(8 * k, 8 * k + 8);
        assert(value_of(chunk.take(0)) == 0);
        while i < 8
            invariant
                i <= 8,
                k < count,
                count == data.len() / 8,
                chunk == data@.subrange(8 * k, 8 * k + 8),
                byte == value_of(chunk.take(i as int)),
            decreases 8 - i,
        {
            proof {
                vstd::arithmetic::power2::lemma2_to64();
                lemma_value_of_bound(chunk.take(i as int));
                assert(chunk.take(i + 1).drop_last() =~= chunk.take(i as int));
                assert(chunk.take(i + 1).last() == data@[8 * k + i]);
            }
            let bit: u8 = if data[8 * k + i] {
                1
            } else {
                0
            };
            byte = 2 * byte + bit;
            i += 1;
        }
        assert(chunk.take(8) =~= chunk);
        bytes.push(byte);
        k += 1;
    }
    assert(bytes@ =~= bytes_of(data@));
    bytes
}

/// The number of payload bits that `count` characters take in a mode. A
/// Kanji character counts as its two bytes, so `count` is a number of bytes
/// there.
pub open spec fn payload_bits(mode: Mode, count: nat) -> nat {
    match mode {
        Mode::Numeric => if count % 3 == 0 {
            count / 3 * 10
        } else if count % 3 == 1 {
            count / 3 * 10 + 4
        } else {
            count / 3 * 10 + 7
        },
        Mode::Alphanumeric => if count % 2 == 0 {
            count / 2 * 11
        } else {
            count / 2 * 11 + 6
        },
        Mode::Byte => count * 8,
        Mode::Kanji => count * 13,
        Mode::ECI(_) => 0,
    }
}

/// Computes the number of payload bits of `bytes` characters in a mode.
pub fn num_of_bits(mode: &Mode, bytes: usize) -> (bits: usize)
    requires
        bytes <= usize::MAX / 13,
    ensures
        bits == payload_bits(*mode, bytes as nat),
{
    match mode {
        Mode::Numeric => {
            let rest = bytes % 3;
            if rest == 0 {
                bytes / 3 * 10
            } else if rest == 1 {
                bytes / 3 * 10 + 4
            } else {
                bytes / 3 * 10 + 7
            }
        },
        Mode::Alphanumeric => {
            if bytes % 2 == 0 {
                bytes / 2 * 11
            } else {
                bytes / 2 * 11 + 6
            }
        },
        Mode::Byte => bytes * 8,
        Mode::Kanji => bytes * 13,
        Mode::ECI(_) => 0,
    }
}

/// Appends a copy of `bytes`.
pub fn push_bytes(out: &mut Vec<u8>, bytes: &Vec<u8>)
    ensures
        final(out)@ == old(out)@ + bytes@,
{
    let mut i: usize = 0;
    assert(out@ =~= old(out)@ + bytes@.take(0));
    while i < bytes.len()
        invariant
            i <= bytes.len(),
            out@ == old(out)@ + bytes@.take(i as int),
        decreases bytes.len() - i,
    {
        out.push(bytes[i]);
        i += 1;
        assert(out@ =~= old(out)@ + bytes@.take(i as int));
    }
    assert(bytes@.take(bytes.len() as int) =~= bytes@);
}

/// The state of the merging of segments: the segments that are complete,
/// and the mode and the payload of the segment that is still growing.
pub struct Merge {
    pub done: Seq<(Mode, Seq<u8>)>,
    pub mode: Mode,
    pub data: Seq<u8>,
}

impl Merge {
    /// The complete segments, and the growing one if it holds any data.
    pub open spec fn closed(self) -> Seq<(Mode, Seq<u8>)> {
        if self.data.len() > 0 {
            self.done.push((self.mode, self.data))
        } else {
            self.done
        }
    }
}

/// The merging state after one more segment: a segment of the mode of the
/// growing segment is added to it; another segment closes the growing
/// segment and takes its place. Two ECI segments count as of one mode.
pub open spec fn merge_step(m: Merge, mode: Mode, data: Seq<u8>) -> Merge {
    if mode.index() == m.mode.index() {
        Merge { done: m.done, mode: m.mode, data: m.data + data }
    } else {
        Merge { done: m.closed(), mode, data }
    }
}

/// The merging state after all the segments; at the start an empty segment
/// of byte mode is growing.
pub open spec fn merged(segments: Seq<(Mode, Seq<u8>)>) -> Merge
    decreases segments.len(),
{
    if segments.len() == 0 {
        Merge { done: Seq::empty(), mode: Mode::Byte, data: Seq::empty() }
    } else {
        merge_step(merged(segments.drop_last()), segments.last().0, segments.last().1)
    }
}

/// The segments with neighbours of one mode merged into one segment.
/// Segments that are empty when they are closed, as every ECI segment is,
/// are left out.
pub open spec fn optimized(segments: Seq<(Mode, Seq<u8>)>) -> Seq<(Mode, Seq<u8>)> {
    merged(segments).closed()
}

/// The segments of a list: each mode with its payload.
pub open spec fn segments_of(list: Seq<(Mode, Vec<u8>)>) -> Seq<(Mode, Seq<u8>)> {
    Seq::new(list.len(), |i: int| (list[i].0, list[i].1@))
}

/// Merges neighbouring segments of one mode.
pub fn optimize_segments(segments: &Vec<(Mode, Vec<u8>)>) -> (result: Vec<(Mode, Vec<u8>)>)
    ensures
        segments_of(result@) == optimized(segments_of(segments@)),
{
    let ghost all = segments_of(segments@);
    let mut optimized_segments: Vec<(Mode, Vec<u8>)> = Vec::new();
    let mut current_mode = Mode::Byte;
    let mut current_data: Vec<u8> = Vec::new();
    let mut i: usize = 0;
    assert(all.take(0) =~= Seq::<(Mode, Seq<u8>)>::empty());
    assert(segments_of(optimized_segments@) =~= Seq::<(Mode, Seq<u8>)>::empty());
    while i < segments.len()
        invariant
            i <= segments.len(),
            all == segments_of(segments@),
            (Merge { done: segments_of(optimized_segments@), mode: current_mode, data: current_data@ })
                == merged(all.take(i as int)),
        decreases segments.len() - i,
    {
        proof {
            assert(all[i as int] == (segments@[i as int].0, segments@[i as int].1@));
            assert(all.take(i + 1).drop_last() =~= all.take(i as int));
            assert(all.take(i + 1).last() == all[i as int]);
        }
        let ghost before = segments_of(optimized_segments@);
        if segments[i].0.to_value() == current_mode.to_value() {
            push_bytes(&mut current_data, &segments[i].1);
        } else {
            if current_data.len() > 0 {
                optimized_segments.push((current_mode, current_data));
                assert(segments_of(optimized_segments@) =~= before.push(
                    (current_mode, current_data@),
                ));
            }
            current_mode = segments[i].0.clone();
            current_data = Vec::new();
            push_bytes(&mut current_data, &segments[i].1);
            assert(current_data@ =~= segments@[i as int].1@);
        }
        i += 1;
    }
    assert(all.take(segments.len() as int) =~= all);
    let ghost before = segments_of(optimized_segments@);
    if current_data.len() > 0 {
        optimized_segments.push((current_mode, current_data));
        assert(segments_of(optimized_segments@) =~= before.push((current_mode, current_data@)));
    }
    optimized_segments
}

} // verus!
