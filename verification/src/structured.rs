//! Structured append: one sequence of segments spread over several symbols.

use crate::encode::{count_bits, count_value, encode_segment, header, payload, segment_valid};
use crate::enums::{ErrorCorrection, Mode, Version};
use crate::error::QRError;
use crate::qrcode::{complete, QRCode};
use crate::symbol::{build_from_bits, check_segments, segments_supported, segments_valid, symbol_of_bits};
use crate::utils::{
    bits_of, data_codeword_capacity, get_available_data_size, lemma_bits_of_len, num_of_bits,
    payload_bits, push_all, push_bits, push_bytes, segments_of,
};
use vstd::prelude::*;

verus! {

/// The number of bytes that are kept together when a payload is split: the
/// bytes of one character in Kanji mode, up to three digits, up to two
/// alphanumeric characters, one byte.
pub open spec fn word_size(mode: Mode) -> int {
    match mode {
        Mode::Kanji => 2,
        Mode::Numeric => 3,
        Mode::Alphanumeric => 2,
        Mode::Byte => 1,
        Mode::ECI(_) => 1,
    }
}

/// A payload split in two, and the bits that the left part takes together
/// with its header.
pub struct Split {
    pub left: Seq<u8>,
    pub right: Seq<u8>,
    pub size: nat,
}

/// The split after the words from byte `at` on: each word goes to the left
/// part if the left part stays within `max_size` bits with it, and to the
/// right part otherwise. A Kanji character counts 26 bits here.
pub open spec fn split_from(mode: Mode, data: Seq<u8>, at: int, s: Split, max_size: nat) -> Split
    decreases data.len() - at,
{
    if at < 0 || at >= data.len() {
        s
    } else {
        let end = if at + word_size(mode) <= data.len() {
            at + word_size(mode)
        } else {
            data.len() as int
        };
        let word = data.subrange(at, end);
        let bits = payload_bits(mode, word.len());
        let next = if s.size + bits <= max_size {
            Split { left: s.left + word, right: s.right, size: s.size + bits }
        } else {
            Split { left: s.left, right: s.right + word, size: s.size }
        };
        split_from(mode, data, end, next, max_size)
    }
}

/// The split of a payload whose header takes `head` bits.
pub open spec fn split_payload(mode: Mode, data: Seq<u8>, head: nat, max_size: nat) -> Split {
    split_from(mode, data, 0, Split { left: Seq::empty(), right: Seq::empty(), size: head }, max_size)
}

/// The state of the chunking: the chunks that are closed, the bits of the
/// chunk that is open, and the header of the last ECI segment, with which
/// every later chunk begins.
pub struct Chunking {
    pub chunks: Seq<Seq<bool>>,
    pub current: Seq<bool>,
    pub eci: Seq<bool>,
}

impl Chunking {
    /// The open chunk is closed and a new one opened.
    pub open spec fn closed(self) -> Chunking {
        Chunking { chunks: self.chunks.push(self.current), current: self.eci, eci: self.eci }
    }

    /// All the chunks; the open one counts if it holds any bit.
    pub open spec fn all(self) -> Seq<Seq<bool>> {
        if self.current.len() > 0 {
            self.chunks.push(self.current)
        } else {
            self.chunks
        }
    }
}

/// The chunking after a segment. If the header does not leave a bit of room
/// in the open chunk, the chunk is closed first. If the segment does not fit
/// the open chunk, its payload is split: the left part goes into the open
/// chunk as a segment of its own, the chunk is closed, and the right part
/// is placed in the same way. Otherwise the segment joins the open chunk.
pub open spec fn with_segment(c: Chunking, version: int, mode: Mode, data: Seq<u8>, max_size: nat) -> Chunking
    decreases data.len(), (if c.current.len() + header(version, mode, data).len() >= max_size {
        1nat
    } else {
        0nat
    }),
{
    let head = header(version, mode, data);
    let body = payload(mode, data);
    if c.current.len() + head.len() >= max_size {
        if c.closed().current.len() + head.len() < max_size {
            with_segment(c.closed(), version, mode, data, max_size)
        } else {
            c.closed()
        }
    } else if c.current.len() + head.len() + body.len() > max_size {
        let s = split_payload(mode, data, head.len(), max_size);
        let filled = Chunking {
            chunks: c.chunks,
            current: c.current + header(version, mode, s.left) + payload(mode, s.left),
            eci: c.eci,
        };
        if s.right.len() < data.len() {
            with_segment(filled.closed(), version, mode, s.right, max_size)
        } else {
            filled.closed()
        }
    } else {
        Chunking { chunks: c.chunks, current: c.current + head + body, eci: c.eci }
    }
}

/// The chunking after all the segments. An ECI segment joins no chunk; its
/// header is kept for the chunks that are opened after it.
pub open spec fn chunking(segments: Seq<(Mode, Seq<u8>)>, version: int, max_size: nat) -> Chunking
    decreases segments.len(),
{
    if segments.len() == 0 {
        Chunking { chunks: Seq::empty(), current: Seq::empty(), eci: Seq::empty() }
    } else {
        let c = chunking(segments.drop_last(), version, max_size);
        match segments.last().0 {
            Mode::ECI(_) => Chunking {
                chunks: c.chunks,
                current: c.current,
                eci: header(version, segments.last().0, segments.last().1),
            },
            _ => with_segment(c, version, segments.last().0, segments.last().1, max_size),
        }
    }
}

/// The bits of each of the symbols over which the segments are spread,
/// without the header of the symbol.
pub open spec fn chunks_of(segments: Seq<(Mode, Seq<u8>)>, version: int, max_size: nat) -> Seq<Seq<bool>> {
    chunking(segments, version, max_size).all()
}

/// The parity of bytes: all of them combined with exclusive or.
pub open spec fn bytes_parity(bytes: Seq<u8>) -> u8
    decreases bytes.len(),
{
    if bytes.len() == 0 {
        0
    } else {
        bytes_parity(bytes.drop_last()) ^ bytes.last()
    }
}

/// The parity of the payload bytes of all segments but ECI segments.
pub open spec fn parity_of(segments: Seq<(Mode, Seq<u8>)>) -> u8
    decreases segments.len(),
{
    if segments.len() == 0 {
        0
    } else {
        match segments.last().0 {
            Mode::ECI(_) => parity_of(segments.drop_last()),
            _ => parity_of(segments.drop_last()) ^ bytes_parity(segments.last().1),
        }
    }
}

/// The twenty header bits of one of several symbols: the mode indicator
/// 0011, the index of the symbol and the number of symbols in four bits
/// each, and the parity in eight bits.
pub open spec fn append_header(index: nat, total: nat, parity: u8) -> Seq<bool> {
    seq![false, false, true, true] + bits_of(index, 4) + bits_of(total, 4) + bits_of(parity as nat, 8)
}

/// The rows of a vector of bit vectors.
pub open spec fn bit_rows(v: Seq<Vec<bool>>) -> Seq<Seq<bool>> {
    Seq::new(v.len(), |i: int| v[i]@)
}

/// The decimal digits of a number.
pub open spec fn decimal(n: nat) -> Seq<char>
    decreases n,
{
    if n < 10 {
        seq![((48 + n) as u8) as char]
    } else {
        decimal(n / 10).push(((48 + n % 10) as u8) as char)
    }
}

/// The message of the failure of one symbol among several.
pub open spec fn chunk_message(message: Seq<char>, index: nat) -> Seq<char> {
    message + " for chunk "@ + decimal(index)
        + ", split the data into smaller chunks using QRBuilder::add_segment"@
}

/// The index of the first chunk from `from` on that, with its header, does
/// not fit the capacity.
pub open spec fn first_overfull(chunks: Seq<Seq<bool>>, capacity: nat, from: int) -> Option<int>
    decreases chunks.len() - from,
{
    if from < 0 || from >= chunks.len() {
        None
    } else if 20 + chunks[from].len() > capacity {
        Some(from)
    } else {
        first_overfull(chunks, capacity, from + 1)
    }
}

/// Why the segments cannot be spread over symbols of the version and level,
/// if they cannot.
pub open spec fn append_failure(version: Version, level: ErrorCorrection, segments: Seq<(Mode, Seq<u8>)>) -> Option<
    Seq<char>,
> {
    match version {
        Version::M(_) => Some("Structured append is not supported for micro QR codes"@),
        Version::V(v) => if v < 1 || v > 40 {
            Some("Invalid version"@)
        } else if segments.len() == 0 {
            Some("No segments provided"@)
        } else if !segments_valid(segments) {
            Some("Invalid data"@)
        } else {
            let capacity = data_codeword_capacity(v as int, level);
            match first_overfull(chunks_of(segments, v as int, (capacity - 20) as nat), capacity, 0) {
                Some(index) => Some(chunk_message("Data too large"@, index as nat)),
                None => None,
            }
        },
    }
}

/// Whether a result is what spreading the segments over symbols of a
/// version and level gives: the symbols, each with its header before its
/// chunk, whole and with every module set; or the message of the failure.
pub open spec fn appended(
    result: Result<Vec<QRCode>, QRError>,
    version: Version,
    level: ErrorCorrection,
    segments: Seq<(Mode, Seq<u8>)>,
) -> bool {
    match result {
        Ok(codes) => {
            let number = version.number() as int;
            let chunks = chunks_of(
                segments,
                number,
                (data_codeword_capacity(number, level) - 20) as nat,
            );
            &&& append_failure(version, level, segments) is None
            &&& codes@.len() == chunks.len()
            &&& forall|i: int|
                0 <= i < codes@.len() ==> {
                    &&& (#[trigger] codes@[i]).wf()
                    &&& codes@[i]@ == symbol_of_bits(
                        number,
                        level,
                        append_header(i as nat, chunks.len(), parity_of(segments)) + chunks[i],
                    )
                    &&& complete(codes@[i]@)
                }
        },
        Err(e) => append_failure(version, level, segments) == Some(e@),
    }
}

/// Whether all bytes are digits.
pub open spec fn all_digits(bytes: Seq<u8>) -> bool {
    forall|i: int| 0 <= i < bytes.len() ==> crate::encode::is_digit(#[trigger] bytes[i])
}

/// Splitting loses no byte and adds none; if a word of 26 bits fits beside
/// what the left part holds at first, the left part grows; and the parts of
/// digits are digits.
pub proof fn lemma_split_from(mode: Mode, data: Seq<u8>, at: int, s: Split, max_size: nat)
    requires
        0 <= at <= data.len(),
    ensures
        split_from(mode, data, at, s, max_size).left.len() + split_from(
            mode,
            data,
            at,
            s,
            max_size,
        ).right.len() == s.left.len() + s.right.len() + data.len() - at,
        split_from(mode, data, at, s, max_size).left.len() >= s.left.len(),
        at < data.len() && s.size + 26 <= max_size ==> split_from(
            mode,
            data,
            at,
            s,
            max_size,
        ).left.len() > s.left.len(),
        all_digits(data) && all_digits(s.left) && all_digits(s.right) ==> all_digits(
            split_from(mode, data, at, s, max_size).left,
        ) && all_digits(split_from(mode, data, at, s, max_size).right),
    decreases data.len() - at,
{
    if at < data.len() {
        let end = if at + word_size(mode) <= data.len() {
            at + word_size(mode)
        } else {
            data.len() as int
        };
        let word = data.subrange(at, end);
        let bits = payload_bits(mode, word.len());
        let next = if s.size + bits <= max_size {
            Split { left: s.left + word, right: s.right, size: s.size + bits }
        } else {
            Split { left: s.left, right: s.right + word, size: s.size }
        };
        lemma_split_from(mode, data, end, next, max_size);
        if all_digits(data) && all_digits(s.left) && all_digits(s.right) {
            assert(all_digits(word)) by {
                assert forall|i: int| 0 <= i < word.len() implies crate::encode::is_digit(
                    #[trigger] word[i],
                ) by {
                    assert(word[i] == data[at + i]);
                }
            }
            assert(all_digits(next.left));
            assert(all_digits(next.right));
        }
    }
}

/// The length of a header: mode indicator and character count.
pub proof fn lemma_header_len(version: int, mode: Mode, data: Seq<u8>)
    requires
        1 <= version <= 40,
    ensures
        header(version, mode, data).len() == 4 + count_bits(version, mode),
        header(version, mode, data).len() <= 28,
        !(mode is ECI) ==> header(version, mode, data).len() <= 20,
{
    lemma_bits_of_len(count_value(mode, data), count_bits(version, mode));
}

/// Splits a payload whose header takes `head` bits.
pub fn split_segment(mode: &Mode, data: &Vec<u8>, head: usize, max_size: usize) -> (parts: (Vec<u8>, Vec<u8>))
    requires
        head <= 28,
        max_size <= 23648,
    ensures
        parts.0@ == split_payload(*mode, data@, head as nat, max_size as nat).left,
        parts.1@ == split_payload(*mode, data@, head as nat, max_size as nat).right,
{
    let chunk_size: usize = match mode {
        Mode::Kanji => 2,
        Mode::Numeric => 3,
        Mode::Alphanumeric => 2,
        Mode::Byte => 1,
        Mode::ECI(_) => 1,
    };
    let mut left_data: Vec<u8> = Vec::new();
    let mut right_data: Vec<u8> = Vec::new();
    let mut left_size: usize = head;
    let mut at: usize = 0;
    while at < data.len()
        invariant
            at <= data.len(),
            chunk_size == word_size(*mode),
            left_size <= max_size + 28,
            max_size <= 23648,
            split_from(
                *mode,
                data@,
                at as int,
                Split { left: left_data@, right: right_data@, size: left_size as nat },
                max_size as nat,
            ) == split_payload(*mode, data@, head as nat, max_size as nat),
        decreases data.len() - at,
    {
        let end = if data.len() - at >= chunk_size {
            at + chunk_size
        } else {
            data.len()
        };
        let bits = num_of_bits(mode, end - at);
        let ghost word = data@.subrange(at as int, end as int);
        let ghost left_before = left_data@;
        let ghost right_before = right_data@;
        let fits = left_size + bits <= max_size;
        let mut i: usize = at;
        assert(word.take(0) =~= Seq::<u8>::empty());
        assert(left_data@ =~= left_before + word.take(0));
        assert(right_data@ =~= right_before + word.take(0));
        while i < end
            invariant
                at <= i <= end <= data.len(),
                word == data@.subrange(at as int, end as int),
                fits ==> left_data@ == left_before + word.take(i - at) && right_data@ == right_before,
                !fits ==> right_data@ == right_before + word.take(i - at) && left_data@
                    == left_before,
            decreases end - i,
        {
            if fits {
                left_data.push(data[i]);
                assert(left_data@ =~= left_before + word.take(i + 1 - at));
            } else {
                right_data.push(data[i]);
                assert(right_data@ =~= right_before + word.take(i + 1 - at));
            }
            i += 1;
        }
        assert(word.take(end - at) =~= word);
        if fits {
            left_size += bits;
        }
        at = end;
    }
    (left_data, right_data)
}

/// The chunking that the vectors of a state hold.
pub open spec fn state_of(chunks: Vec<Vec<bool>>, current: Vec<bool>, eci: Vec<bool>) -> Chunking {
    Chunking { chunks: bit_rows(chunks@), current: current@, eci: eci@ }
}

/// Spreads the segments over chunks of at most `max_size` bits, as far as
/// splitting the payloads allows.
pub fn split_into_chunks(version: usize, segments: &[(Mode, Vec<u8>)], max_size: usize) -> (chunks: Vec<
    Vec<bool>,
>)
    requires
        1 <= version <= 40,
        segments_valid(segments_of(segments@)),
        52 <= max_size <= 23648,
    ensures
        bit_rows(chunks@) == chunks_of(segments_of(segments@), version as int, max_size as nat),
{
    let ghost all = segments_of(segments@);
    let mut chunks: Vec<Vec<bool>> = Vec::new();
    let mut current_chunk: Vec<bool> = Vec::new();
    let mut eci: Vec<bool> = Vec::new();
    let mut i: usize = 0;
    proof {
        assert(all.take(0) =~= Seq::<(Mode, Seq<u8>)>::empty());
        assert(bit_rows(chunks@) =~= Seq::<Seq<bool>>::empty());
    }
    while i < segments.len()
        invariant
            i <= segments.len(),
            all == segments_of(segments@),
            segments_valid(all),
            1 <= version <= 40,
            52 <= max_size <= 23648,
            eci@.len() <= 28,
            current_chunk@.len() <= max_size,
            state_of(chunks, current_chunk, eci) == chunking(
                all.take(i as int),
                version as int,
                max_size as nat,
            ),
        decreases segments.len() - i,
    {
        proof {
            assert(all[i as int] == (segments@[i as int].0, segments@[i as int].1@));
            assert(all.take(i + 1).drop_last() =~= all.take(i as int));
            assert(all.take(i + 1).last() == all[i as int]);
            assert(segment_valid(all[i as int].0, all[i as int].1));
            lemma_header_len(version as int, segments@[i as int].0, segments@[i as int].1@);
        }
        let is_eci = match &segments[i].0 {
            Mode::ECI(_) => true,
            _ => false,
        };
        if is_eci {
            let (mode_b, _) = encode_segment(version, &segments[i].0, segments[i].1.as_slice());
            eci = mode_b;
        } else {
            let mode = segments[i].0.clone();
            let mut rest: Vec<u8> = Vec::new();
            push_bytes(&mut rest, &segments[i].1);
            assert(rest@ =~= segments@[i as int].1@);
            let ghost data = rest@;
            let ghost entry = state_of(chunks, current_chunk, eci);
            let ghost head_len = 4 + count_bits(version as int, mode);
            let mut done = false;
            while !done
                invariant
                    1 <= version <= 40,
                    52 <= max_size <= 23648,
                    eci@.len() <= 28,
                    current_chunk@.len() <= max_size,
                    !(mode is ECI),
                    head_len == 4 + count_bits(version as int, mode),
                    head_len <= 20,
                    mode is Numeric ==> all_digits(rest@),
                    done ==> state_of(chunks, current_chunk, eci) == with_segment(
                        entry,
                        version as int,
                        mode,
                        data,
                        max_size as nat,
                    ),
                    !done ==> with_segment(
                        state_of(chunks, current_chunk, eci),
                        version as int,
                        mode,
                        rest@,
                        max_size as nat,
                    ) == with_segment(entry, version as int, mode, data, max_size as nat),
                decreases
                        (if done {
                            0nat
                        } else {
                            1nat
                        }),
                        rest@.len(),
                        (if current_chunk@.len() + head_len >= max_size {
                            1nat
                        } else {
                            0nat
                        }),
            {
                proof {
                    lemma_header_len(version as int, mode, rest@);
                }
                let ghost before = state_of(chunks, current_chunk, eci);
                let (mode_b, data_b) = encode_segment(version, &mode, rest.as_slice());
                if current_chunk.len() + mode_b.len() >= max_size {
                    let mut fresh: Vec<bool> = Vec::new();
                    push_all(&mut fresh, &eci);
                    std::mem::swap(&mut current_chunk, &mut fresh);
                    chunks.push(fresh);
                    proof {
                        assert(current_chunk@ =~= eci@);
                        assert(bit_rows(chunks@) =~= before.chunks.push(before.current));
                        assert(state_of(chunks, current_chunk, eci) == before.closed());
                    }
                } else if data_b.len() > max_size - current_chunk.len() - mode_b.len() {
                    proof {
                        lemma_split_from(
                            mode,
                            rest@,
                            0,
                            Split { left: Seq::empty(), right: Seq::empty(), size: mode_b@.len() },
                            max_size as nat,
                        );
                        assert(rest@.len() > 0) by {
                            if rest@.len() == 0 {
                                assert(payload(mode, rest@).len() == 0);
                            }
                        }
                    }
                    let (left_data, right_data) = split_segment(&mode, &rest, mode_b.len(), max_size);
                    proof {
                        lemma_header_len(version as int, mode, left_data@);
                    }
                    let (left_mode, left_bits) = encode_segment(version, &mode, left_data.as_slice());
                    push_all(&mut current_chunk, &left_mode);
                    push_all(&mut current_chunk, &left_bits);
                    let ghost filled = state_of(chunks, current_chunk, eci);
                    let mut fresh: Vec<bool> = Vec::new();
                    push_all(&mut fresh, &eci);
                    std::mem::swap(&mut current_chunk, &mut fresh);
                    chunks.push(fresh);
                    proof {
                        assert(current_chunk@ =~= eci@);
                        assert(bit_rows(chunks@) =~= filled.chunks.push(filled.current));
                        assert(state_of(chunks, current_chunk, eci) == filled.closed());
                    }
                    rest = right_data;
                } else {
                    push_all(&mut current_chunk, &mode_b);
                    push_all(&mut current_chunk, &data_b);
                    done = true;
                }
            }
        }
        i += 1;
    }
    proof {
        assert(all.take(segments.len() as int) =~= all);
    }
    let ghost last = state_of(chunks, current_chunk, eci);
    if current_chunk.len() > 0 {
        chunks.push(current_chunk);
        assert(bit_rows(chunks@) =~= last.chunks.push(last.current));
    }
    chunks
}

/// The parity of the payload bytes of all segments but ECI segments.
pub fn parity(segments: &[(Mode, Vec<u8>)]) -> (result: u8)
    ensures
        result == parity_of(segments_of(segments@)),
{
    let ghost all = segments_of(segments@);
    let mut result: u8 = 0;
    let mut i: usize = 0;
    assert(all.take(0) =~= Seq::<(Mode, Seq<u8>)>::empty());
    while i < segments.len()
        invariant
            i <= segments.len(),
            all == segments_of(segments@),
            result == parity_of(all.take(i as int)),
        decreases segments.len() - i,
    {
        proof {
            assert(all[i as int] == (segments@[i as int].0, segments@[i as int].1@));
            assert(all.take(i + 1).drop_last() =~= all.take(i as int));
            assert(all.take(i + 1).last() == all[i as int]);
        }
        let is_eci = match &segments[i].0 {
            Mode::ECI(_) => true,
            _ => false,
        };
        if !is_eci {
            let bytes = &segments[i].1;
            let mut of_segment: u8 = 0;
            let mut k: usize = 0;
            assert(bytes@.take(0) =~= Seq::<u8>::empty());
            while k < bytes.len()
                invariant
                    k <= bytes.len(),
                    of_segment == bytes_parity(bytes@.take(k as int)),
                decreases bytes.len() - k,
            {
                assert(bytes@.take(k + 1).drop_last() =~= bytes@.take(k as int));
                of_segment = of_segment ^ bytes[k];
                k += 1;
            }
            assert(bytes@.take(bytes.len() as int) =~= bytes@);
            result = result ^ of_segment;
        }
        i += 1;
    }
    assert(all.take(segments.len() as int) =~= all);
    result
}

/// The header bits of one of several symbols.
pub fn structured_append_header(index: usize, total: usize, parity: u8) -> (bits: Vec<bool>)
    ensures
        bits@ == append_header(index as nat, total as nat, parity),
        bits@.len() == 20,
{
    let mut bits: Vec<bool> = vec![false, false, true, true];
    assert(bits@ =~= seq![false, false, true, true]);
    push_bits(&mut bits, index, 4);
    push_bits(&mut bits, total, 4);
    push_bits(&mut bits, parity as usize, 8);
    proof {
        lemma_bits_of_len(index as nat, 4);
        lemma_bits_of_len(total as nat, 4);
        lemma_bits_of_len(parity as nat, 8);
    }
    bits
}

/// The error of one symbol among several, by `format!`.
///
/// Not proved; rests on std: `{}` writes a string as it is and an unsigned
/// number in decimal digits.
#[verifier::external_body]
fn chunk_error(error: &QRError, index: usize) -> (result: QRError)
    ensures
        result@ == chunk_message(error@, index as nat),
{
    QRError::new(
        &format!(
            "{} for chunk {}, split the data into smaller chunks using QRBuilder::add_segment",
            error.message(),
            index
        ),
    )
}

impl QRCode {
    /// Spreads the segments over several symbols of one version and level.
    /// Each symbol begins with a header that tells its place among the
    /// symbols and the parity of the data.
    ///
    /// Fails with the message that `append_failure` gives.
    pub fn build_with_structual_append(
        version: Version,
        error_correction: ErrorCorrection,
        segments: &[(Mode, Vec<u8>)],
    ) -> (result: Result<Vec<QRCode>, QRError>)
        ensures
            appended(result, version, error_correction, segments_of(segments@)),
    {
        let number: usize = match version {
            Version::V(v) => {
                if v < 1 || v > 40 {
                    return Err(QRError::new("Invalid version"));
                }
                v
            },
            Version::M(_) => {
                return Err(QRError::new("Structured append is not supported for micro QR codes"));
            },
        };
        if segments.len() == 0 {
            return Err(QRError::new("No segments provided"));
        }
        match check_segments(number, segments) {
            Ok(_) => {},
            Err(e) => {
                proof {
                    assert(segments_supported(number as int, segments_of(segments@)));
                }
                return Err(e);
            },
        }
        let capacity = get_available_data_size(number, &error_correction);
        let max_size = capacity - 20;
        let parity = parity(segments);
        let chunks = split_into_chunks(number, segments, max_size);
        let ghost rows = bit_rows(chunks@);
        let mut qr_codes: Vec<QRCode> = Vec::new();
        let mut index: usize = 0;
        while index < chunks.len()
            invariant
                index <= chunks.len(),
                1 <= number <= 40,
                version == Version::V(number),
                segments@.len() > 0,
                segments_valid(segments_of(segments@)),
                rows == bit_rows(chunks@),
                rows == chunks_of(
                    segments_of(segments@),
                    number as int,
                    (data_codeword_capacity(number as int, error_correction) - 20) as nat,
                ),
                capacity == data_codeword_capacity(number as int, error_correction),
                capacity >= 72,
                qr_codes@.len() == index,
                first_overfull(rows, capacity as nat, 0) == first_overfull(
                    rows,
                    capacity as nat,
                    index as int,
                ),
                forall|i: int|
                    0 <= i < index ==> {
                        &&& (#[trigger] qr_codes@[i]).wf()
                        &&& qr_codes@[i]@ == symbol_of_bits(
                            number as int,
                            error_correction,
                            append_header(i as nat, rows.len(), parity) + rows[i],
                        )
                        &&& complete(qr_codes@[i]@)
                    },
            decreases chunks.len() - index,
        {
            let mut combined_data = structured_append_header(index, chunks.len(), parity);
            push_all(&mut combined_data, &chunks[index]);
            assert(rows[index as int] == chunks@[index as int]@);
            assert(combined_data@.len() == 20 + rows[index as int].len());
            match build_from_bits(number, &error_correction, combined_data) {
                Ok(matrix) => {
                    qr_codes.push(matrix);
                },
                Err(e) => {
                    assert(first_overfull(rows, capacity as nat, index as int) == Some(index as int));
                    return Err(chunk_error(&e, index));
                },
            }
            index += 1;
        }
        Ok(qr_codes)
    }
}

} // verus!
