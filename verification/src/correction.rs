//! Reed-Solomon error correction: block layout, generator polynomials and the
//! division that yields the error correction codewords.

use crate::constants::{BLOCK_LOOKUP, EC_CODEWORDS};
use crate::enums::ErrorCorrection;
use crate::galois::{antilog, multiply, product, reverse_lookup};
use crate::utils::value_of;
use rayon::iter::{IntoParallelRefIterator, ParallelIterator};
use vstd::prelude::*;

verus! {

/// The number of error correction codewords that each block of a symbol
/// gets; zero where the version and level do not exist.
#[verifier::opaque]
pub open spec fn ec_codeword_count(version: int, level: ErrorCorrection) -> nat {
    if 1 <= version <= 44 {
        EC_CODEWORDS[version - 1][level.index() as int] as nat
    } else {
        0
    }
}

/// How the data codewords of a symbol are cut into blocks.
pub struct BlockLayout {
    /// Number of blocks in the first group.
    pub group1_count: nat,
    /// Data codewords in each block of the first group.
    pub group1_size: nat,
    /// Number of blocks in the second group.
    pub group2_count: nat,
    /// Data codewords in each block of the second group.
    pub group2_size: nat,
}

impl BlockLayout {
    /// Number of blocks in both groups.
    pub open spec fn blocks(&self) -> nat {
        self.group1_count + self.group2_count
    }

    /// Number of data codewords in all blocks.
    pub open spec fn codewords(&self) -> nat {
        self.group1_count * self.group1_size + self.group2_count * self.group2_size
    }

    /// Index of the first codeword of block `b`.
    pub open spec fn start(&self, b: int) -> int {
        if b <= self.group1_count {
            b * self.group1_size
        } else {
            self.group1_count * self.group1_size + (b - self.group1_count) * self.group2_size
        }
    }

    /// Number of codewords in block `b`.
    pub open spec fn size(&self, b: int) -> int {
        if b < self.group1_count {
            self.group1_size as int
        } else {
            self.group2_size as int
        }
    }
}

/// The block layout of a version (1 to 44) and level.
#[verifier::opaque]
pub open spec fn block_layout(version: int, level: ErrorCorrection) -> BlockLayout {
    let row = BLOCK_LOOKUP[version - 1][level.index() as int];
    BlockLayout {
        group1_count: row[0] as nat,
        group1_size: row[1] as nat,
        group2_count: row[2] as nat,
        group2_size: row[3] as nat,
    }
}

/// The rows of a vector of byte vectors.
pub open spec fn rows(v: Seq<Vec<u8>>) -> Seq<Seq<u8>> {
    Seq::new(v.len(), |i: int| v[i]@)
}

/// Codeword `k` of a bit stream: the bits `8k` to `8k + 7`, most significant
/// first, with light bits where the stream has ended.
pub open spec fn codeword_at(bits: Seq<bool>, k: int) -> u8 {
    value_of(
        Seq::new(
            8,
            |j: int|
                if 8 * k + j < bits.len() {
                    bits[8 * k + j]
                } else {
                    false
                },
        ),
    ) as u8
}

/// The codewords of block `b` of a bit stream in the given layout.
pub open spec fn block_of(bits: Seq<bool>, layout: BlockLayout, b: int) -> Seq<u8> {
    Seq::new(layout.size(b) as nat, |i: int| codeword_at(bits, layout.start(b) + i))
}

/// The data blocks of a bit stream in the given layout.
pub open spec fn blocks_of(bits: Seq<bool>, layout: BlockLayout) -> Seq<Seq<u8>> {
    Seq::new(layout.blocks(), |b: int| block_of(bits, layout, b))
}

/// The product of a polynomial and `x + root`. Coefficients stand with the
/// highest power first.
pub open spec fn times_root(p: Seq<u8>, root: u8) -> Seq<u8> {
    Seq::new(
        p.len() + 1,
        |j: int|
            if j == 0 {
                p[0]
            } else if j == p.len() {
                product(p[j - 1], root)
            } else {
                p[j] ^ product(p[j - 1], root)
            },
    )
}

/// The generator polynomial for `n` error correction codewords: the product
/// of `x + alpha^i` for `i` below `n`, with `n + 1` coefficients, the first
/// of them one.
pub open spec fn generator(n: nat) -> Seq<u8>
    decreases n,
{
    if n == 0 {
        seq![1u8]
    } else {
        times_root(generator((n - 1) as nat), antilog(n - 1))
    }
}

/// One step of the division by a polynomial with leading coefficient one:
/// the divisor, scaled by the leading coefficient of the dividend, is taken
/// off, and the leading term, now zero, is dropped.
pub open spec fn divide_step(dividend: Seq<u8>, divisor: Seq<u8>) -> Seq<u8> {
    Seq::new(
        (dividend.len() - 1) as nat,
        |i: int|
            if i + 1 < divisor.len() {
                dividend[i + 1] ^ product(divisor[i + 1], dividend[0])
            } else {
                dividend[i + 1]
            },
    )
}

/// What is left of the dividend after the given number of division steps.
pub open spec fn divide(dividend: Seq<u8>, divisor: Seq<u8>, steps: nat) -> Seq<u8>
    decreases steps,
{
    if steps == 0 {
        dividend
    } else {
        divide(divide_step(dividend, divisor), divisor, (steps - 1) as nat)
    }
}

/// The error correction codewords of a data block for a given generator:
/// the remainder of the block, raised by the degree of the generator, after
/// one division step for each data codeword.
pub open spec fn remainder(data: Seq<u8>, divisor: Seq<u8>) -> Seq<u8> {
    divide(data + Seq::new((divisor.len() - 1) as nat, |i: int| 0u8), divisor, data.len())
}

/// The error correction codewords of a data block, `n` of them.
pub open spec fn ec_block(data: Seq<u8>, n: nat) -> Seq<u8> {
    remainder(data, generator(n))
}

/// Looks up the number of error correction codewords per block.
pub fn ec_codewords(version: usize, error_correction: &ErrorCorrection) -> (count: usize)
    requires
        1 <= version <= 44,
    ensures
        count == ec_codeword_count(version as int, *error_correction),
        count <= 30,
{
    reveal(ec_codeword_count);
    EC_CODEWORDS[version - 1][error_correction.to_value()]
}

/// Multiplies a polynomial by `x + alpha^alpha_power`.
pub fn multiply_polynomial(polynomial: &Vec<u8>, alpha_power: u8) -> (result: Vec<u8>)
    requires
        polynomial@.len() >= 1,
    ensures
        result@ == times_root(polynomial@, antilog(alpha_power as int)),
{
    let root = reverse_lookup(alpha_power);
    let len = polynomial.len();
    let mut result: Vec<u8> = Vec::new();
    result.push(polynomial[0]);
    let mut j: usize = 1;
    while j < len
        invariant
            1 <= j <= len,
            len == polynomial@.len(),
            result@.len() == j,
            forall|k: int| 0 <= k < j ==> result@[k] == times_root(polynomial@, root)[k],
        decreases len - j,
    {
        result.push(polynomial[j] ^ multiply(polynomial[j - 1], root));
        j += 1;
    }
    result.push(multiply(polynomial[len - 1], root));
    assert(result@ =~= times_root(polynomial@, root));
    result
}

/// Builds the generator polynomial for `ec_codewords` error correction
/// codewords.
pub fn generate_generator_polynomial(ec_codewords: usize) -> (polynomial: Vec<u8>)
    requires
        ec_codewords <= 255,
    ensures
        polynomial@ == generator(ec_codewords as nat),
        polynomial@.len() == ec_codewords + 1,
{
    let mut polynomial: Vec<u8> = Vec::new();
    polynomial.push(1);
    assert(polynomial@ =~= generator(0));
    let mut i: usize = 0;
    while i < ec_codewords
        invariant
            i <= ec_codewords <= 255,
            polynomial@ == generator(i as nat),
            polynomial@.len() == i + 1,
        decreases ec_codewords - i,
    {
        polynomial = multiply_polynomial(&polynomial, i as u8);
        i += 1;
    }
    polynomial
}

/// One step of the division, in place: `polynomial` holds the dividend from
/// index `at` on, and afterwards what is left of it from index `at + 1` on.
pub fn partn(polynomial: &mut Vec<u8>, generator: &Vec<u8>, at: usize)
    requires
        at < old(polynomial)@.len(),
    ensures
        final(polynomial)@.len() == old(polynomial)@.len(),
        final(polynomial)@.skip(at + 1) == divide_step(old(polynomial)@.skip(at as int), generator@),
{
    let lead = polynomial[at];
    let len = polynomial.len();
    let mut i: usize = 1;
    while i < generator.len() && i < len - at
        invariant
            1 <= i,
            i == 1 || i <= generator@.len(),
            at < len,
            len == polynomial@.len(),
            len == old(polynomial)@.len(),
            lead == old(polynomial)@[at as int],
            forall|k: int|
                at < k < at + i && k < len ==> #[trigger] polynomial@[k] == old(polynomial)@[k]
                    ^ product(generator@[k - at], lead),
            forall|k: int| at + i <= k < len ==> #[trigger] polynomial@[k] == old(polynomial)@[k],
        decreases generator.len() - i,
    {
        let value = polynomial[at + i] ^ multiply(generator[i], lead);
        polynomial.set(at + i, value);
        i += 1;
    }
    assert forall|j: int| 0 <= j < len - at - 1 implies polynomial@.skip(at + 1)[j] == divide_step(
        old(polynomial)@.skip(at as int),
        generator@,
    )[j] by {
        assert(polynomial@.skip(at + 1)[j] == polynomial@[at + 1 + j]);
        assert(old(polynomial)@.skip(at as int)[j + 1] == old(polynomial)@[at + 1 + j]);
    }
    assert(polynomial@.skip(at + 1) =~= divide_step(old(polynomial)@.skip(at as int), generator@));
}

/// Computes the error correction codewords of a data block: the block is
/// raised by the degree of the generator and divided by it.
pub fn part0(generator: &Vec<u8>, data: &Vec<u8>) -> (codewords: Vec<u8>)
    requires
        generator@.len() >= 1,
    ensures
        codewords@ == remainder(data@, generator@),
        codewords@.len() == generator@.len() - 1,
{
    let n = generator.len() - 1;
    let mut polynomial: Vec<u8> = Vec::new();
    let mut i: usize = 0;
    while i < data.len()
        invariant
            i <= data.len(),
            polynomial@ == data@.take(i as int),
        decreases data.len() - i,
    {
        polynomial.push(data[i]);
        i += 1;
        assert(polynomial@ =~= data@.take(i as int));
    }
    i = 0;
    while i < n
        invariant
            i <= n,
            polynomial@ == data@ + Seq::new(i as nat, |k: int| 0u8),
        decreases n - i,
    {
        polynomial.push(0);
        i += 1;
        assert(polynomial@ =~= data@ + Seq::new(i as nat, |k: int| 0u8));
    }
    let ghost start = polynomial@;
    let mut step: usize = 0;
    assert(polynomial@.skip(0) =~= polynomial@);
    while step < data.len()
        invariant
            step <= data.len(),
            n == generator@.len() - 1,
            polynomial@.len() == data@.len() + n,
            start == data@ + Seq::new(n as nat, |k: int| 0u8),
            divide(polynomial@.skip(step as int), generator@, (data@.len() - step) as nat)
                == remainder(data@, generator@),
        decreases data.len() - step,
    {
        partn(&mut polynomial, generator, step);
        step += 1;
    }
    let mut codewords: Vec<u8> = Vec::new();
    i = 0;
    while i < n
        invariant
            i <= n,
            polynomial.len() == data.len() + n,
            codewords@ == polynomial@.skip(data@.len() as int).take(i as int),
        decreases n - i,
    {
        codewords.push(polynomial[data.len() + i]);
        i += 1;
        assert(codewords@ =~= polynomial@.skip(data@.len() as int).take(i as int));
    }
    assert(codewords@ =~= polynomial@.skip(data@.len() as int));
    codewords
}

/// Reads codeword `k` of a bit stream.
fn read_codeword(bits: &Vec<bool>, k: usize) -> (codeword: u8)
    requires
        k <= usize::MAX / 8 - 1,
    ensures
        codeword == codeword_at(bits@, k as int),
{
    let ghost chunk = Seq::new(
        8,
        |j: int|
            if 8 * k + j < bits@.len() {
                bits@[8 * k + j]
            } else {
                false
            },
    );
    let mut codeword: u8 = 0;
    let mut j: usize = 0;
    assert(value_of(chunk.take(0)) == 0);
    while j < 8
        invariant
            j <= 8,
            k <= usize::MAX / 8 - 1,
            chunk == Seq::new(
                8,
                |j: int|
                    if 8 * k + j < bits@.len() {
                        bits@[8 * k + j]
                    } else {
                        false
                    },
            ),
            codeword == value_of(chunk.take(j as int)),
        decreases 8 - j,
    {
        proof {
            vstd::arithmetic::power2::lemma2_to64();
            crate::utils::lemma_value_of_bound(chunk.take(j as int));
            assert(chunk.take(j + 1).drop_last() =~= chunk.take(j as int));
        }
        let bit: u8 = if 8 * k + j < bits.len() && bits[8 * k + j] {
            1
        } else {
            0
        };
        codeword = 2 * codeword + bit;
        j += 1;
    }
    assert(chunk.take(8) =~= chunk);
    codeword
}

/// Reads `size` codewords of a bit stream, from codeword `start` on.
fn read_block(bits: &Vec<bool>, start: usize, size: usize) -> (block: Vec<u8>)
    requires
        start + size <= usize::MAX / 8 - 1,
    ensures
        block@ == Seq::new(size as nat, |i: int| codeword_at(bits@, start + i)),
{
    let mut block: Vec<u8> = Vec::new();
    let mut i: usize = 0;
    while i < size
        invariant
            i <= size,
            start + size <= usize::MAX / 8 - 1,
            block@ == Seq::new(i as nat, |i: int| codeword_at(bits@, start + i)),
        decreases size - i,
    {
        block.push(read_codeword(bits, start + i));
        i += 1;
        assert(block@ =~= Seq::new(i as nat, |i: int| codeword_at(bits@, start + i)));
    }
    block
}

/// Cuts the codewords of a bit stream into the data blocks of a symbol.
pub fn split_into_blocks(combined_data: &Vec<bool>, version: usize, error_correction: &ErrorCorrection) -> (blocks:
    Vec<Vec<u8>>)
    requires
        1 <= version <= 44,
    ensures
        rows(blocks@) == blocks_of(combined_data@, block_layout(version as int, *error_correction)),
{
    reveal(block_layout);
    let correction_level = error_correction.to_value();
    let block_lookup = BLOCK_LOOKUP[version - 1][correction_level];
    let group1_blocks = block_lookup[0];
    let group1_amount = block_lookup[1];
    let group2_blocks = block_lookup[2];
    let group2_amount = block_lookup[3];
    assert(group1_blocks <= 128 && group1_amount <= 128 && group2_blocks <= 128 && group2_amount
        <= 128);
    let ghost layout = block_layout(version as int, *error_correction);
    let mut blocks: Vec<Vec<u8>> = Vec::new();
    let mut offset: usize = 0;
    let mut b: usize = 0;
    while b < group1_blocks
        invariant
            b <= group1_blocks <= 128,
            group1_amount <= 128,
            layout.group1_count == group1_blocks,
            layout.group1_size == group1_amount,
            offset == b * group1_amount,
            blocks@.len() == b,
            forall|k: int| 0 <= k < b ==> (#[trigger] blocks@[k])@ == block_of(combined_data@, layout, k),
        decreases group1_blocks - b,
    {
        assert(b * group1_amount <= 128 * 128 && (b + 1) * group1_amount == b * group1_amount
            + group1_amount) by (nonlinear_arith)
            requires
                b < 128,
                group1_amount <= 128,
        ;
        let block = read_block(combined_data, offset, group1_amount);
        assert(layout.start(b as int) == offset);
        assert(layout.size(b as int) == group1_amount);
        assert(block@ =~= block_of(combined_data@, layout, b as int));
        blocks.push(block);
        offset += group1_amount;
        b += 1;
    }
    assert(group1_blocks * group1_amount <= 128 * 128) by (nonlinear_arith)
        requires
            group1_blocks <= 128,
            group1_amount <= 128,
    ;
    let first = offset;
    let mut c: usize = 0;
    while c < group2_blocks
        invariant
            c <= group2_blocks <= 128,
            group2_amount <= 128,
            first <= 128 * 128,
            layout.group1_count == group1_blocks,
            layout.group1_size == group1_amount,
            layout.group2_count == group2_blocks,
            layout.group2_size == group2_amount,
            first == group1_blocks * group1_amount,
            offset == first + c * group2_amount,
            blocks@.len() == group1_blocks + c,
            forall|k: int|
                0 <= k < group1_blocks + c ==> (#[trigger] blocks@[k])@ == block_of(
                    combined_data@,
                    layout,
                    k,
                ),
        decreases group2_blocks - c,
    {
        assert(c * group2_amount <= 128 * 128 && (c + 1) * group2_amount == c * group2_amount
            + group2_amount) by (nonlinear_arith)
            requires
                c < 128,
                group2_amount <= 128,
        ;
        let block = read_block(combined_data, offset, group2_amount);
        assert(layout.start(group1_blocks + c) == offset) by {
            if c == 0 {
                assert(layout.start(group1_blocks as int) == group1_blocks * group1_amount);
            } else {
                assert(layout.start(group1_blocks + c) == layout.group1_count * layout.group1_size + (
                group1_blocks + c - layout.group1_count) * layout.group2_size);
            }
        }
        assert(layout.size(group1_blocks + c) == group2_amount);
        assert(block@ =~= block_of(combined_data@, layout, group1_blocks + c));
        blocks.push(block);
        offset += group2_amount;
        c += 1;
    }
    assert(rows(blocks@) =~= blocks_of(combined_data@, layout));
    blocks
}

/// Computes the error correction codewords of every block with `part0`,
/// handing the blocks to rayon's `par_iter`, `map` and `collect`.
///
/// Not proved; rests on rayon: element `i` of what `collect` returns is
/// what the closure returns for element `i` of the vector.
#[verifier::external_body]
fn par_part0(generator: &Vec<u8>, blocks: &Vec<Vec<u8>>) -> (ec_blocks: Vec<Vec<u8>>)
    requires
        generator@.len() >= 1,
    ensures
        ec_blocks@.len() == blocks@.len(),
        forall|i: int|
            0 <= i < blocks@.len() ==> (#[trigger] ec_blocks@[i])@ == remainder(
                blocks@[i]@,
                generator@,
            ),
{
    blocks.par_iter().map(|block| part0(generator, block)).collect()
}

/// Cuts the data into blocks and computes the error correction codewords of
/// each block.
pub fn correction(version: usize, error_correction: &ErrorCorrection, combined_data: Vec<bool>) -> (result: (
    Vec<Vec<u8>>,
    Vec<Vec<u8>>,
))
    requires
        1 <= version <= 44,
    ensures
        rows(result.0@) == blocks_of(combined_data@, block_layout(version as int, *error_correction)),
        result.1@.len() == result.0@.len(),
        forall|i: int|
            0 <= i < result.0@.len() ==> (#[trigger] result.1@[i])@ == ec_block(
                result.0@[i]@,
                ec_codeword_count(version as int, *error_correction),
            ),
{
    let blocks = split_into_blocks(&combined_data, version, error_correction);
    let ec_codewords = ec_codewords(version, error_correction);
    let generator = generate_generator_polynomial(ec_codewords);
    let ec_blocks = par_part0(&generator, &blocks);
    (blocks, ec_blocks)
}

} // verus!
