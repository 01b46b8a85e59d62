//! Interleaving of data and error correction blocks into the bit stream of a
//! symbol.

use crate::constants::REMAINING_BITS;
use crate::correction::rows;
use crate::encode::{byte_bits, get_data};
use crate::enums::Mode;
use crate::utils::{push_all, push_zeros, zeros};
use vstd::prelude::*;

verus! {

/// The length of the longest block.
pub open spec fn longest(blocks: Seq<Seq<u8>>) -> nat
    decreases blocks.len(),
{
    if blocks.len() == 0 {
        0
    } else {
        let rest = longest(blocks.drop_last());
        if blocks.last().len() > rest {
            blocks.last().len()
        } else {
            rest
        }
    }
}

/// The codewords that the round robin has taken when it stands before
/// codeword `i` of block `b`: all codewords with an index below `i`, and the
/// codewords `i` of the blocks before `b`. Codewords come in the order of
/// their index and then of their block; a block that has ended is passed
/// over.
pub open spec fn round_robin(blocks: Seq<Seq<u8>>, i: nat, b: nat) -> Seq<u8>
    decreases i, b,
{
    if b == 0 {
        if i == 0 {
            Seq::empty()
        } else {
            round_robin(blocks, (i - 1) as nat, blocks.len())
        }
    } else {
        let before = round_robin(blocks, i, (b - 1) as nat);
        if b <= blocks.len() && i < blocks[b - 1].len() {
            before.push(blocks[b - 1][i as int])
        } else {
            before
        }
    }
}

/// The codewords of all blocks in round robin order.
pub open spec fn interleaved(blocks: Seq<Seq<u8>>) -> Seq<u8> {
    round_robin(blocks, longest(blocks), 0)
}

/// The number of remainder bits of a version; zero for versions that do not
/// exist.
#[verifier::opaque]
pub open spec fn remainder_bits(version: int) -> nat {
    if 1 <= version <= 44 {
        REMAINING_BITS[version - 1] as nat
    } else {
        0
    }
}

/// The data bits that go into the symbol: eight for each codeword, but only
/// the four high bits of the last codeword in M1 and M3, whose last data
/// codeword is half as long.
pub open spec fn data_bits(codewords: Seq<u8>, version: int) -> Seq<bool> {
    let bits = byte_bits(codewords);
    if (version == 41 || version == 43) && bits.len() >= 4 {
        bits.take(bits.len() - 4)
    } else {
        bits
    }
}

/// The bit stream of a symbol: the interleaved data codewords, the
/// interleaved error correction codewords, and the remainder bits.
pub open spec fn interleave_spec(blocks: Seq<Seq<u8>>, ec_blocks: Seq<Seq<u8>>, version: int) -> Seq<
    bool,
> {
    data_bits(interleaved(blocks), version) + byte_bits(interleaved(ec_blocks)) + zeros(
        remainder_bits(version),
    )
}

/// No block is longer than the longest.
pub proof fn lemma_longest_bound(blocks: Seq<Seq<u8>>, b: int)
    requires
        0 <= b < blocks.len(),
    ensures
        blocks[b].len() <= longest(blocks),
    decreases blocks.len(),
{
    if b < blocks.len() - 1 {
        lemma_longest_bound(blocks.drop_last(), b);
    }
}

/// The round robin only ever appends: what it has taken at one point is the
/// beginning of what it has taken at any later point.
pub proof fn lemma_round_robin_grows(blocks: Seq<Seq<u8>>, i1: nat, b1: nat, i2: nat, b2: nat)
    requires
        i1 < i2 || (i1 == i2 && b1 <= b2),
        b1 <= blocks.len(),
    ensures
        round_robin(blocks, i1, b1).len() <= round_robin(blocks, i2, b2).len(),
        forall|k: int|
            0 <= k < round_robin(blocks, i1, b1).len() ==> round_robin(blocks, i2, b2)[k]
                == round_robin(blocks, i1, b1)[k],
    decreases i2, b2,
{
    if i1 == i2 && b1 == b2 {
    } else if b2 == 0 {
        lemma_round_robin_grows(blocks, i1, b1, (i2 - 1) as nat, blocks.len());
    } else {
        lemma_round_robin_grows(blocks, i1, b1, i2, (b2 - 1) as nat);
    }
}

/// Where a codeword lands: codeword `i` of block `b` stands in the
/// interleaved sequence after exactly the codewords that the round robin
/// has taken before it.
pub proof fn lemma_interleaved_position(blocks: Seq<Seq<u8>>, b: nat, i: nat)
    requires
        b < blocks.len(),
        i < blocks[b as int].len(),
    ensures
        round_robin(blocks, i, b).len() < interleaved(blocks).len(),
        interleaved(blocks)[round_robin(blocks, i, b).len() as int] == blocks[b as int][i as int],
{
    lemma_longest_bound(blocks, b as int);
    let taken = round_robin(blocks, i, b + 1);
    assert(taken == round_robin(blocks, i, b).push(blocks[b as int][i as int]));
    lemma_round_robin_grows(blocks, i, b + 1, longest(blocks), 0);
    assert(interleaved(blocks)[taken.len() - 1] == taken[taken.len() - 1]);
}

/// The order of the interleaved codewords: a codeword with a lower index in
/// its block comes before every codeword with a higher index, and among
/// codewords with the same index the lower block comes first. A block
/// that is shorter than another has no codeword at the higher indices
/// and so drops out.
pub proof fn lemma_interleaved_order(blocks: Seq<Seq<u8>>, b1: nat, i1: nat, b2: nat, i2: nat)
    requires
        b1 < blocks.len(),
        b2 < blocks.len(),
        i1 < blocks[b1 as int].len(),
        i2 < blocks[b2 as int].len(),
        i1 < i2 || (i1 == i2 && b1 < b2),
    ensures
        round_robin(blocks, i1, b1).len() < round_robin(blocks, i2, b2).len(),
{
    assert(round_robin(blocks, i1, b1 + 1) == round_robin(blocks, i1, b1).push(
        blocks[b1 as int][i1 as int],
    ));
    lemma_round_robin_grows(blocks, i1, b1 + 1, i2, b2);
}

/// Interleaves the codewords of the blocks in round robin order.
pub fn interleave_blocks(blocks: &Vec<Vec<u8>>) -> (result: Vec<u8>)
    ensures
        result@ == interleaved(rows(blocks@)),
{
    let ghost all = rows(blocks@);
    let mut max_length: usize = 0;
    let mut b: usize = 0;
    assert(all.take(0) =~= Seq::<Seq<u8>>::empty());
    while b < blocks.len()
        invariant
            b <= blocks.len(),
            all == rows(blocks@),
            max_length == longest(all.take(b as int)),
        decreases blocks.len() - b,
    {
        assert(all.take(b + 1).drop_last() =~= all.take(b as int));
        assert(all.take(b + 1).last() == blocks@[b as int]@);
        if blocks[b].len() > max_length {
            max_length = blocks[b].len();
        }
        b += 1;
    }
    assert(all.take(blocks.len() as int) =~= all);
    let mut result: Vec<u8> = Vec::new();
    let mut i: usize = 0;
    while i < max_length
        invariant
            i <= max_length,
            all == rows(blocks@),
            result@ == round_robin(all, i as nat, 0),
        decreases max_length - i,
    {
        let mut k: usize = 0;
        while k < blocks.len()
            invariant
                k <= blocks.len(),
                i < max_length,
                all == rows(blocks@),
                result@ == round_robin(all, i as nat, k as nat),
            decreases blocks.len() - k,
        {
            if i < blocks[k].len() {
                result.push(blocks[k][i]);
            }
            k += 1;
        }
        i += 1;
    }
    result
}

/// The remainder bits of a version.
pub fn get_remainder_bits(version: usize) -> (bits: Vec<bool>)
    requires
        1 <= version <= 44,
    ensures
        bits@ == zeros(remainder_bits(version as int)),
        bits@.len() <= 7,
{
    reveal(remainder_bits);
    let remaining = REMAINING_BITS[version - 1];
    let mut bits: Vec<bool> = Vec::new();
    push_zeros(&mut bits, remaining);
    assert(bits@ =~= zeros(remaining as nat));
    bits
}

/// Builds the bit stream of a symbol from its data blocks and its error
/// correction blocks.
pub fn interleave(blocks: Vec<Vec<u8>>, ec_blocks: Vec<Vec<u8>>, version: usize) -> (result: Vec<bool>)
    requires
        1 <= version <= 44,
    ensures
        result@ == interleave_spec(rows(blocks@), rows(ec_blocks@), version as int),
{
    let interleave_ec = interleave_blocks(&ec_blocks);
    let interleave_data = interleave_blocks(&blocks);
    let mut result = get_data(interleave_data.as_slice(), &Mode::Byte);
    if (version == 41 || version == 43) && result.len() >= 4 {
        result.truncate(result.len() - 4);
    }
    assert(result@ =~= data_bits(interleave_data@, version as int));
    let ec_bits = get_data(interleave_ec.as_slice(), &Mode::Byte);
    push_all(&mut result, &ec_bits);
    let remainder_bits = get_remainder_bits(version);
    push_all(&mut result, &remainder_bits);
    result
}

} // verus!
