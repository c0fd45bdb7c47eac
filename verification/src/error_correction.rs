//! Error-correction levels and Reed-Solomon coding over GF(256).

use vstd::prelude::*;
use vstd::string::StringExecFns;
use crate::bits::{bit_seq, bytes_bits, bytes_to_bitvec, QREncodedData};
use crate::text::str_eq;
use crate::version::VersionEclData;
use crate::Error;

verus! {

/// One of the four redundancy tiers; selects which capacity column of the
/// version table applies.
#[derive(Clone, Copy, Debug, PartialEq, Eq, Structural)]
pub enum ErrorCorrectionLevel {
    Low,
    Medium,
    Quartile,
    High,
}

/// Which level a user-facing token selects; tokens are exact and
/// case-sensitive.
pub open spec fn spec_ecl_from_token(s: Seq<char>) -> Option<ErrorCorrectionLevel> {
    if s == "low"@ {
        Some(ErrorCorrectionLevel::Low)
    } else if s == "medium"@ {
        Some(ErrorCorrectionLevel::Medium)
    } else if s == "quartile"@ {
        Some(ErrorCorrectionLevel::Quartile)
    } else if s == "high"@ {
        Some(ErrorCorrectionLevel::High)
    } else {
        None
    }
}

impl ErrorCorrectionLevel {
    /// Parses the error-correction-level token; any other token is a
    /// configuration error whose message names the rejected token.
    pub fn from_token(s: &str) -> (r: Result<ErrorCorrectionLevel, Error>)
        ensures
            match spec_ecl_from_token(s@) {
                Some(l) => r == Ok::<ErrorCorrectionLevel, Error>(l),
                None => r is Err && (r->Err_0)@ == "Unknown error correction level "@ + s@
                    + " (options are low, medium, quartile, high)"@,
            },
    {
        if str_eq(s, "low") {
            Ok(ErrorCorrectionLevel::Low)
        } else if str_eq(s, "medium") {
            Ok(ErrorCorrectionLevel::Medium)
        } else if str_eq(s, "quartile") {
            Ok(ErrorCorrectionLevel::Quartile)
        } else if str_eq(s, "high") {
            Ok(ErrorCorrectionLevel::High)
        } else {
            Err(
                "Unknown error correction level ".to_owned().concat(s).concat(
                    " (options are low, medium, quartile, high)",
                ),
            )
        }
    }
}

impl core::str::FromStr for ErrorCorrectionLevel {
    type Err = Error;

    fn from_str(s: &str) -> Result<ErrorCorrectionLevel, Error> {
        ErrorCorrectionLevel::from_token(s)
    }
}

/// One double-and-reduce step of carry-less multiplication in GF(256)
/// with reduction polynomial x^8 + x^4 + x^3 + x^2 + 1: the accumulator is
/// doubled and reduced, then the multiplicand is added when bit `i` of `y`
/// is set.
pub open spec fn gf256_step(z: u16, x: u8, y: u8, i: u16) -> u16 {
    let doubled = if (z >> 7) & 1 == 1 {
        (z << 1) ^ 0x11Du16
    } else {
        z << 1
    };
    if ((y as u16) >> i) & 1 == 1 {
        doubled ^ (x as u16)
    } else {
        doubled
    }
}

/// The accumulator after consuming the `n` highest bits of `y`.
pub open spec fn gf256_partial(x: u8, y: u8, n: nat) -> u16
    decreases n,
{
    if n == 0 {
        0u16
    } else {
        gf256_step(gf256_partial(x, y, (n - 1) as nat), x, y, (8 - n) as u16)
    }
}

/// The product of two field elements of GF(256).
pub open spec fn spec_gf256_multiply(x: u8, y: u8) -> u8 {
    gf256_partial(x, y, 8) as u8
}

/// Multiplies two field elements of GF(256) by double-and-reduce over the
/// eight bits of `y`.
pub fn gf256_multiply(x: u8, y: u8) -> (r: u8)
    ensures
        r == spec_gf256_multiply(x, y),
{
    let mut z: u16 = 0;
    let mut n: usize = 0;
    while n < 8
        invariant
            n <= 8,
            z == gf256_partial(x, y, n as nat),
            z < 256,
        decreases 8 - n,
    {
        let doubled: u16 = if (z >> 7) & 1 == 1 {
            (z << 1) ^ 0x11Du16
        } else {
            z << 1
        };
        proof {
            assert(doubled < 256) by (bit_vector)
                requires
                    z < 256,
                    doubled == (if (z >> 7) & 1u16 == 1 {
                        (z << 1) ^ 0x11Du16
                    } else {
                        z << 1
                    }),
            ;
        }
        let i: u16 = (7 - n) as u16;
        let z2: u16 = if ((y as u16) >> i) & 1 == 1 {
            doubled ^ (x as u16)
        } else {
            doubled
        };
        proof {
            assert(z2 < 256) by (bit_vector)
                requires
                    doubled < 256,
                    z2 == doubled || z2 == doubled ^ (x as u16),
            ;
        }
        z = z2;
        n += 1;
    }
    z as u8
}

/// The generator row after one multiplication round: each coefficient is
/// multiplied by the current power of the primitive element and the next
/// coefficient is added.
pub open spec fn spec_poly_step(g: Seq<u8>, m: u8) -> Seq<u8> {
    Seq::new(
        g.len(),
        |j: int|
            spec_gf256_multiply(g[j], m) ^ (if j + 1 < g.len() {
                g[j + 1]
            } else {
                0u8
            }),
    )
}

/// The generator row after `k` more rounds, the multiplicand doubling in
/// the field each round.
pub open spec fn spec_gen_iter(g: Seq<u8>, m: u8, k: nat) -> Seq<u8>
    decreases k,
{
    if k == 0 {
        g
    } else {
        spec_gen_iter(spec_poly_step(g, m), spec_gf256_multiply(m, 2), (k - 1) as nat)
    }
}

/// The starting generator row: a one in the last place.
pub open spec fn spec_gen_initial(count: nat) -> Seq<u8> {
    Seq::new(
        count,
        |j: int|
            if j == count - 1 {
                1u8
            } else {
                0u8
            },
    )
}

/// The `count` low-order coefficients of the degree-`count`
/// Reed-Solomon generator polynomial, highest degree first; the leading
/// coefficient is one and is left implicit.
pub open spec fn spec_generator_polynomial(count: nat) -> Seq<u8> {
    spec_gen_iter(spec_gen_initial(count), 1u8, count)
}

/// Builds the Reed-Solomon generator polynomial of the given degree by
/// iteratively multiplying in the roots, the successive powers of the
/// primitive element two.
pub fn generator_polynomial(count: usize) -> (r: Vec<u8>)
    requires
        1 <= count <= 256,
    ensures
        r@ == spec_generator_polynomial(count as nat),
        r@.len() == count,
{
    let mut generator: Vec<u8> = Vec::new();
    let mut j: usize = 0;
    while j < count - 1
        invariant
            j <= count - 1,
            count <= 256,
            generator@ =~= spec_gen_initial(count as nat).take(j as int),
        decreases count - 1 - j,
    {
        generator.push(0);
        proof {
            assert(generator@ =~= spec_gen_initial(count as nat).take(j + 1));
        }
        j += 1;
    }
    generator.push(1);
    proof {
        assert(generator@ =~= spec_gen_initial(count as nat));
    }
    let mut multiplicand: u8 = 1;
    let mut k: usize = 0;
    while k < count
        invariant
            k <= count,
            count <= 256,
            generator@.len() == count,
            spec_gen_iter(generator@, multiplicand, (count - k) as nat) == spec_generator_polynomial(
                count as nat,
            ),
        decreases count - k,
    {
        let mut new_row: Vec<u8> = Vec::new();
        let mut j2: usize = 0;
        while j2 < count
            invariant
                j2 <= count,
                count <= 256,
                generator@.len() == count,
                new_row@ =~= spec_poly_step(generator@, multiplicand).take(j2 as int),
            decreases count - j2,
        {
            let next: u8 = if j2 + 1 < count {
                generator[j2 + 1]
            } else {
                0
            };
            new_row.push(gf256_multiply(generator[j2], multiplicand) ^ next);
            proof {
                assert(new_row@ =~= spec_poly_step(generator@, multiplicand).take(j2 + 1));
            }
            j2 += 1;
        }
        proof {
            assert(new_row@ =~= spec_poly_step(generator@, multiplicand));
        }
        generator = new_row;
        multiplicand = gf256_multiply(multiplicand, 2);
        k += 1;
    }
    generator
}

/// The remainder register after absorbing one data codeword: the register
/// shifts left and the generator scaled by the leading term is added.
pub open spec fn spec_ec_step(reg: Seq<u8>, gen: Seq<u8>, cw: u8) -> Seq<u8> {
    let curr = cw ^ reg[0];
    Seq::new(
        reg.len(),
        |i: int|
            (if i + 1 < reg.len() {
                reg[i + 1]
            } else {
                0u8
            }) ^ spec_gf256_multiply(gen[i], curr),
    )
}

/// The remainder register after absorbing the first `k` codewords of the
/// block, starting from the all-zero register.
pub open spec fn spec_ec_after(block: Seq<u8>, gen: Seq<u8>, k: nat) -> Seq<u8>
    decreases k,
{
    if k == 0 {
        Seq::new(gen.len(), |i: int| 0u8)
    } else {
        spec_ec_step(spec_ec_after(block, gen, (k - 1) as nat), gen, block[k - 1])
    }
}

/// The error-correction codewords of a block: the remainder of the
/// systematic Reed-Solomon division of the block by the generator.
pub open spec fn spec_compute_ec(block: Seq<u8>, gen: Seq<u8>) -> Seq<u8> {
    spec_ec_after(block, gen, block.len())
}

/// Computes the error-correction codewords of one block by Reed-Solomon
/// polynomial division over GF(256).
pub fn compute_ec_codewords(block: &Vec<u8>, generator: &Vec<u8>) -> (r: Vec<u8>)
    requires
        generator@.len() >= 1,
    ensures
        r@ == spec_compute_ec(block@, generator@),
        r@.len() == generator@.len(),
{
    let n = generator.len();
    let mut ec_codewords: Vec<u8> = Vec::new();
    let mut i: usize = 0;
    while i < n
        invariant
            i <= n,
            n == generator@.len(),
            ec_codewords@ =~= spec_ec_after(block@, generator@, 0).take(i as int),
        decreases n - i,
    {
        ec_codewords.push(0);
        proof {
            assert(ec_codewords@ =~= spec_ec_after(block@, generator@, 0).take(i + 1));
        }
        i += 1;
    }
    proof {
        assert(ec_codewords@ =~= spec_ec_after(block@, generator@, 0));
    }
    let mut k: usize = 0;
    while k < block.len()
        invariant
            k <= block@.len(),
            n == generator@.len(),
            n >= 1,
            ec_codewords@.len() == n,
            ec_codewords@ == spec_ec_after(block@, generator@, k as nat),
        decreases block@.len() - k,
    {
        let curr: u8 = block[k] ^ ec_codewords[0];
        let mut new_reg: Vec<u8> = Vec::new();
        let mut j: usize = 0;
        while j < n
            invariant
                j <= n,
                n == generator@.len(),
                n >= 1,
                ec_codewords@.len() == n,
                curr == block@[k as int] ^ ec_codewords@[0],
                new_reg@ =~= spec_ec_step(ec_codewords@, generator@, block@[k as int]).take(
                    j as int,
                ),
            decreases n - j,
        {
            let shifted: u8 = if j + 1 < n {
                ec_codewords[j + 1]
            } else {
                0
            };
            new_reg.push(shifted ^ gf256_multiply(generator[j], curr));
            proof {
                assert(new_reg@ =~= spec_ec_step(ec_codewords@, generator@, block@[k as int]).take(
                    j + 1,
                ));
            }
            j += 1;
        }
        proof {
            assert(new_reg@ =~= spec_ec_step(ec_codewords@, generator@, block@[k as int]));
        }
        ec_codewords = new_reg;
        k += 1;
    }
    ec_codewords
}


/// The views of a vector of blocks.
pub open spec fn blocks_view(g: Seq<Vec<u8>>) -> Seq<Seq<u8>> {
    Seq::new(g.len(), |i: int| g[i]@)
}

/// `count` consecutive slices of `cpb` codewords each, starting at
/// `start`.
pub open spec fn spec_block_group(cw: Seq<u8>, start: int, count: int, cpb: int) -> Seq<Seq<u8>> {
    Seq::new(count as nat, |i: int| cw.subrange(start + i * cpb, start + (i + 1) * cpb))
}

/// The error-correction block of each data block in a group.
pub open spec fn spec_ec_group(blocks: Seq<Seq<u8>>, gen: Seq<u8>) -> Seq<Seq<u8>> {
    Seq::new(blocks.len(), |i: int| spec_compute_ec(blocks[i], gen))
}

/// Codeword `idx` of every block that is long enough, in block order.
pub open spec fn spec_row(blocks: Seq<Seq<u8>>, idx: int) -> Seq<u8>
    decreases blocks.len(),
{
    if blocks.len() == 0 {
        Seq::empty()
    } else {
        (if blocks[0].len() > idx {
            seq![blocks[0][idx]]
        } else {
            Seq::empty()
        }) + spec_row(blocks.drop_first(), idx)
    }
}

/// The first `rounds` interleaving rows concatenated: row `idx` holds
/// codeword `idx` of every block still long enough.
pub open spec fn spec_interleave(blocks: Seq<Seq<u8>>, rounds: nat) -> Seq<u8>
    decreases rounds,
{
    if rounds == 0 {
        Seq::empty()
    } else {
        spec_interleave(blocks, (rounds - 1) as nat) + spec_row(blocks, rounds - 1)
    }
}

pub proof fn lemma_row_append(a: Seq<Seq<u8>>, b: Seq<Seq<u8>>, idx: int)
    ensures
        spec_row(a + b, idx) == spec_row(a, idx) + spec_row(b, idx),
    decreases a.len(),
{
    if a.len() == 0 {
        assert(a + b =~= b);
        assert(spec_row(a, idx) =~= Seq::<u8>::empty());
        assert(spec_row(a + b, idx) =~= spec_row(a, idx) + spec_row(b, idx));
    } else {
        assert((a + b).drop_first() =~= a.drop_first() + b);
        lemma_row_append(a.drop_first(), b, idx);
        assert((a + b)[0] == a[0]);
        assert(spec_row(a + b, idx) =~= spec_row(a, idx) + spec_row(b, idx));
    }
}

pub proof fn lemma_row_take_one(s: Seq<Seq<u8>>, j: int, idx: int)
    requires
        0 <= j < s.len(),
        0 <= idx,
    ensures
        spec_row(s.take(j + 1), idx) == spec_row(s.take(j), idx) + (if s[j].len() > idx {
            seq![s[j][idx]]
        } else {
            Seq::<u8>::empty()
        }),
    decreases s.len(),
{
    let single = seq![s[j]];
    assert(s.take(j + 1) =~= s.take(j) + single);
    lemma_row_append(s.take(j), single, idx);
    assert(single[0] == s[j]);
    assert(single.drop_first() =~= Seq::<Seq<u8>>::empty());
    assert(spec_row(Seq::<Seq<u8>>::empty(), idx) =~= Seq::<u8>::empty());
    assert(spec_row(single, idx) =~= (if s[j].len() > idx {
        seq![s[j][idx]]
    } else {
        Seq::<u8>::empty()
    }));
}

/// Two runs of uniformly sized blocks: `b1` blocks of `c1` codewords
/// followed by `b2` blocks of `c2`.
pub open spec fn uniform_shape(blocks: Seq<Seq<u8>>, b1: int, c1: int, b2: int, c2: int) -> bool {
    &&& blocks.len() == b1 + b2
    &&& b1 >= 0
    &&& b2 >= 0
    &&& c1 >= 0
    &&& c2 >= 0
    &&& forall|i: int| 0 <= i < b1 ==> (#[trigger] blocks[i]).len() == c1
    &&& forall|i: int| b1 <= i < b1 + b2 ==> (#[trigger] blocks[i]).len() == c2
}

pub proof fn lemma_row_len(blocks: Seq<Seq<u8>>, idx: int, b1: int, c1: int, b2: int, c2: int)
    requires
        uniform_shape(blocks, b1, c1, b2, c2),
        idx >= 0,
    ensures
        spec_row(blocks, idx).len() == (if idx < c1 {
            b1
        } else {
            0
        }) + (if idx < c2 {
            b2
        } else {
            0
        }),
    decreases blocks.len(),
{
    if b1 > 0 {
        assert(uniform_shape(blocks.drop_first(), b1 - 1, c1, b2, c2)) by {
            assert(forall|i: int| 0 <= i < b1 - 1 ==> (#[trigger] blocks.drop_first()[i]).len()
                == c1);
            assert(forall|i: int|
                b1 - 1 <= i < b1 - 1 + b2 ==> (#[trigger] blocks.drop_first()[i]).len() == c2);
        }
        lemma_row_len(blocks.drop_first(), idx, b1 - 1, c1, b2, c2);
    } else if b2 > 0 {
        assert(uniform_shape(blocks.drop_first(), 0, c1, b2 - 1, c2)) by {
            assert(forall|i: int| 0 <= i < b2 - 1 ==> (#[trigger] blocks.drop_first()[i]).len()
                == c2);
        }
        lemma_row_len(blocks.drop_first(), idx, 0, c1, b2 - 1, c2);
    }
}

/// The smaller of two integers.
pub open spec fn min_int(a: int, b: int) -> int {
    if a <= b {
        a
    } else {
        b
    }
}

/// How long an interleaving of uniformly shaped blocks is: each block
/// contributes one codeword per round until it runs out.
pub proof fn lemma_interleave_len(
    blocks: Seq<Seq<u8>>,
    k: nat,
    b1: int,
    c1: int,
    b2: int,
    c2: int,
)
    requires
        uniform_shape(blocks, b1, c1, b2, c2),
    ensures
        spec_interleave(blocks, k).len() == min_int(k as int, c1) * b1 + min_int(k as int, c2)
            * b2,
    decreases k,
{
    if k == 0 {
        assert(0 * b1 == 0) by (nonlinear_arith);
        assert(0 * b2 == 0) by (nonlinear_arith);
    } else {
        lemma_interleave_len(blocks, (k - 1) as nat, b1, c1, b2, c2);
        lemma_row_len(blocks, k - 1, b1, c1, b2, c2);
        let m1 = min_int(k - 1, c1);
        let m2 = min_int(k - 1, c2);
        assert((m1 + 1) * b1 == m1 * b1 + b1) by (nonlinear_arith);
        assert((m2 + 1) * b2 == m2 * b2 + b2) by (nonlinear_arith);
    }
}

/// Data codewords split into the version's block groups, with the
/// error-correction codewords of every block.
#[derive(Debug, PartialEq)]
pub struct GroupedCodewords {
    pub version_data: VersionEclData,
    pub group1_data: Vec<Vec<u8>>,
    pub group2_data: Option<Vec<Vec<u8>>>,
    pub group1_ec: Vec<Vec<u8>>,
    pub group2_ec: Option<Vec<Vec<u8>>>,
}

/// The first block group the capacity record describes.
pub open spec fn spec_group1_blocks(cw: Seq<u8>, vd: VersionEclData) -> Seq<Seq<u8>> {
    spec_block_group(cw, 0, vd.group1.blocks as int, vd.group1.codewords as int)
}

/// The second block group the capacity record describes, which starts
/// right after the first group's codewords; empty when the record has
/// none.
pub open spec fn spec_group2_blocks(cw: Seq<u8>, vd: VersionEclData) -> Seq<Seq<u8>> {
    match vd.group2 {
        Some(g) => spec_block_group(
            cw,
            vd.group1.blocks * vd.group1.codewords,
            g.blocks as int,
            g.codewords as int,
        ),
        None => Seq::<Seq<u8>>::empty(),
    }
}

/// Both data block groups, group 1 first.
pub open spec fn spec_all_data_blocks(cw: Seq<u8>, vd: VersionEclData) -> Seq<Seq<u8>> {
    spec_group1_blocks(cw, vd) + spec_group2_blocks(cw, vd)
}

/// The error-correction block of every data block, in block order.
pub open spec fn spec_all_ec_blocks(cw: Seq<u8>, vd: VersionEclData) -> Seq<Seq<u8>> {
    spec_ec_group(
        spec_all_data_blocks(cw, vd),
        spec_generator_polynomial(vd.ec_codewords_per_block as nat),
    )
}

pub proof fn lemma_ec_group_append(a: Seq<Seq<u8>>, b: Seq<Seq<u8>>, gen: Seq<u8>)
    ensures
        spec_ec_group(a + b, gen) == spec_ec_group(a, gen) + spec_ec_group(b, gen),
{
    assert(spec_ec_group(a + b, gen) =~= spec_ec_group(a, gen) + spec_ec_group(b, gen));
}

impl GroupedCodewords {
    /// Consecutive fixed-size slices of the codewords: `block_count` blocks
    /// of `codewords_per_block` each, starting at `start`.
    pub fn block_group(
        codewords: &Vec<u8>,
        start: usize,
        block_count: usize,
        codewords_per_block: usize,
    ) -> (r: Vec<Vec<u8>>)
        requires
            start + block_count * codewords_per_block <= codewords@.len(),
        ensures
            blocks_view(r@) == spec_block_group(
                codewords@,
                start as int,
                block_count as int,
                codewords_per_block as int,
            ),
            r@.len() == block_count,
            forall|i: int| 0 <= i < block_count ==> (#[trigger] r@[i])@.len() == codewords_per_block,
    {
        let clen = codewords.len();
        let mut out: Vec<Vec<u8>> = Vec::new();
        let mut b: usize = 0;
        while b < block_count
            invariant
                b <= block_count,
                clen == codewords@.len(),
                start + block_count * codewords_per_block <= clen,
                out@.len() == b,
                blocks_view(out@) =~= spec_block_group(
                    codewords@,
                    start as int,
                    block_count as int,
                    codewords_per_block as int,
                ).take(b as int),
                forall|i: int|
                    0 <= i < b ==> (#[trigger] out@[i])@.len() == codewords_per_block,
            decreases block_count - b,
        {
            proof {
                assert((b + 1) * codewords_per_block <= block_count * codewords_per_block)
                    by (nonlinear_arith)
                    requires
                        b + 1 <= block_count,
                        codewords_per_block >= 0,
                ;
                assert(b * codewords_per_block >= 0) by (nonlinear_arith)
                    requires
                        b >= 0,
                        codewords_per_block >= 0,
                ;
                assert((b + 1) * codewords_per_block == b * codewords_per_block
                    + codewords_per_block) by (nonlinear_arith);
            }
            let base: usize = start + b * codewords_per_block;
            let mut block: Vec<u8> = Vec::new();
            let mut c: usize = 0;
            while c < codewords_per_block
                invariant
                    c <= codewords_per_block,
                    base == start + b * codewords_per_block,
                    clen == codewords@.len(),
                    base + codewords_per_block <= clen,
                    block@ =~= codewords@.subrange(base as int, base + c),
                decreases codewords_per_block - c,
            {
                block.push(codewords[base + c]);
                proof {
                    assert(block@ =~= codewords@.subrange(base as int, base + c + 1));
                }
                c += 1;
            }
            out.push(block);
            proof {
                assert(blocks_view(out@) =~= spec_block_group(
                    codewords@,
                    start as int,
                    block_count as int,
                    codewords_per_block as int,
                ).take(b + 1));
            }
            b += 1;
        }
        proof {
            assert(spec_block_group(
                codewords@,
                start as int,
                block_count as int,
                codewords_per_block as int,
            ).take(block_count as int) =~= spec_block_group(
                codewords@,
                start as int,
                block_count as int,
                codewords_per_block as int,
            ));
        }
        out
    }

    /// Applies the generator uniformly to each block in a group.
    pub fn compute_ec_for_group(data: &Vec<Vec<u8>>, generator_polynomial: &Vec<u8>) -> (r: Vec<
        Vec<u8>,
    >)
        requires
            generator_polynomial@.len() >= 1,
        ensures
            blocks_view(r@) == spec_ec_group(blocks_view(data@), generator_polynomial@),
            r@.len() == data@.len(),
            forall|i: int|
                0 <= i < r@.len() ==> (#[trigger] r@[i])@.len() == generator_polynomial@.len(),
    {
        let mut out: Vec<Vec<u8>> = Vec::new();
        let mut i: usize = 0;
        while i < data.len()
            invariant
                i <= data@.len(),
                generator_polynomial@.len() >= 1,
                out@.len() == i,
                blocks_view(out@) =~= spec_ec_group(blocks_view(data@), generator_polynomial@).take(
                    i as int,
                ),
                forall|j: int|
                    0 <= j < i ==> (#[trigger] out@[j])@.len() == generator_polynomial@.len(),
            decreases data@.len() - i,
        {
            let ec = compute_ec_codewords(&data[i], generator_polynomial);
            out.push(ec);
            proof {
                assert(blocks_view(out@) =~= spec_ec_group(
                    blocks_view(data@),
                    generator_polynomial@,
                ).take(i + 1));
            }
            i += 1;
        }
        proof {
            assert(spec_ec_group(blocks_view(data@), generator_polynomial@).take(data@.len() as int)
                =~= spec_ec_group(blocks_view(data@), generator_polynomial@));
        }
        out
    }

    /// The views of both data groups' blocks, group 1 first.
    pub open spec fn spec_data_blocks(self) -> Seq<Seq<u8>> {
        blocks_view(self.group1_data@) + match self.group2_data {
            Some(g) => blocks_view(g@),
            None => Seq::<Seq<u8>>::empty(),
        }
    }

    /// The views of both error-correction groups' blocks, group 1 first.
    pub open spec fn spec_ec_blocks(self) -> Seq<Seq<u8>> {
        blocks_view(self.group1_ec@) + match self.group2_ec {
            Some(g) => blocks_view(g@),
            None => Seq::<Seq<u8>>::empty(),
        }
    }

    /// The grouped codewords match their capacity record: each group has
    /// the record's number of blocks, each data block its group's length,
    /// and each block one error-correction block of the record's length.
    pub open spec fn wf(self) -> bool {
        let vd = self.version_data;
        &&& vd.wf()
        &&& self.group1_data@.len() == vd.group1.blocks
        &&& forall|i: int|
            0 <= i < self.group1_data@.len() ==> (#[trigger] self.group1_data@[i])@.len()
                == vd.group1.codewords
        &&& self.group1_ec@.len() == vd.group1.blocks
        &&& forall|i: int|
            0 <= i < self.group1_ec@.len() ==> (#[trigger] self.group1_ec@[i])@.len()
                == vd.ec_codewords_per_block
        &&& match (self.group2_data, vd.group2) {
            (Some(g), Some(vg)) => g@.len() == vg.blocks && forall|i: int|
                0 <= i < g@.len() ==> (#[trigger] g@[i])@.len() == vg.codewords,
            (None, None) => true,
            _ => false,
        }
        &&& match (self.group2_ec, vd.group2) {
            (Some(g), Some(vg)) => g@.len() == vg.blocks && forall|i: int|
                0 <= i < g@.len() ==> (#[trigger] g@[i])@.len() == vd.ec_codewords_per_block,
            (None, None) => true,
            _ => false,
        }
    }

    /// Splits the data codewords into the record's block groups and
    /// computes each block's error-correction codewords.
    pub fn new(codewords: Vec<u8>, version_data: VersionEclData) -> (r: GroupedCodewords)
        requires
            version_data.wf(),
            codewords@.len() == version_data.data_codewords,
        ensures
            r.wf(),
            r.version_data == version_data,
            r.spec_data_blocks() == spec_all_data_blocks(codewords@, version_data),
            r.spec_ec_blocks() == spec_all_ec_blocks(codewords@, version_data),
    {
        let b1: usize = version_data.group1.blocks as usize;
        let c1: usize = version_data.group1.codewords as usize;
        proof {
            assert(version_data.spec_group2_codewords() >= 0) by {
                match version_data.group2 {
                    Some(g) => {
                        assert(g.blocks * g.codewords >= 0) by (nonlinear_arith);
                    },
                    None => {},
                }
            }
        }
        let group1_data = Self::block_group(&codewords, 0, b1, c1);
        let group2_data = match version_data.group2 {
            Some(grp) => Some(
                Self::block_group(&codewords, b1 * c1, grp.blocks as usize, grp.codewords as usize),
            ),
            None => None,
        };
        let generator = generator_polynomial(version_data.ec_codewords_per_block as usize);
        let group1_ec = Self::compute_ec_for_group(&group1_data, &generator);
        let group2_ec = match &group2_data {
            Some(d) => Some(Self::compute_ec_for_group(d, &generator)),
            None => None,
        };
        let r = GroupedCodewords { version_data, group1_data, group2_data, group1_ec, group2_ec };
        proof {
            assert(r.spec_data_blocks() =~= spec_all_data_blocks(codewords@, version_data));
            lemma_ec_group_append(
                spec_group1_blocks(codewords@, version_data),
                spec_group2_blocks(codewords@, version_data),
                spec_generator_polynomial(version_data.ec_codewords_per_block as nat),
            );
            assert(r.spec_ec_blocks() =~= spec_all_ec_blocks(codewords@, version_data));
        }
        r
    }

    /// Emits codeword `idx` of every data block in block order, rounds of
    /// increasing `idx`, skipping blocks that have run out; the result
    /// holds exactly the record's data codewords.
    pub fn interleaved_data_codewords(&self) -> (r: Vec<u8>)
        requires
            self.wf(),
        ensures
            r@ == spec_interleave(
                self.spec_data_blocks(),
                self.version_data.spec_max_codewords_per_block() as nat,
            ),
            r@.len() == self.version_data.data_codewords,
    {
        let ghost all = self.spec_data_blocks();
        let max = self.version_data.max_codewords_per_group();
        let mut data: Vec<u8> = Vec::new();
        let mut idx: usize = 0;
        while idx < max
            invariant
                idx <= max,
                self.wf(),
                max == self.version_data.spec_max_codewords_per_block(),
                all == self.spec_data_blocks(),
                data@ == spec_interleave(all, idx as nat),
            decreases max - idx,
        {
            let mut b: usize = 0;
            let g1_len = self.group1_data.len();
            while b < g1_len
                invariant
                    b <= g1_len,
                    idx < max,
                    self.wf(),
                    g1_len == self.group1_data@.len(),
                    max == self.version_data.spec_max_codewords_per_block(),
                    all == self.spec_data_blocks(),
                    data@ == spec_interleave(all, idx as nat) + spec_row(
                        all.take(b as int),
                        idx as int,
                    ),
                decreases g1_len - b,
            {
                proof {
                    assert(all[b as int] == self.group1_data@[b as int]@);
                    lemma_row_take_one(all, b as int, idx as int);
                }
                if idx < self.group1_data[b].len() {
                    data.push(self.group1_data[b][idx]);
                }
                b += 1;
            }
            match &self.group2_data {
                Some(g2) => {
                    let ghost b1 = self.group1_data@.len() as int;
                    let mut b2: usize = 0;
                    let g2_len = g2.len();
                    while b2 < g2_len
                        invariant
                            b2 <= g2_len,
                            idx < max,
                            self.wf(),
                            self.group2_data == Some(*g2),
                            b1 == self.group1_data@.len(),
                            g2_len == g2@.len(),
                            max == self.version_data.spec_max_codewords_per_block(),
                            all == self.spec_data_blocks(),
                            data@ == spec_interleave(all, idx as nat) + spec_row(
                                all.take(b1 + b2),
                                idx as int,
                            ),
                        decreases g2_len - b2,
                    {
                        proof {
                            assert(all[b1 + b2] == g2@[b2 as int]@);
                            lemma_row_take_one(all, b1 + b2, idx as int);
                            assert(g2@[b2 as int]@.len() > idx);
                        }
                        data.push(g2[b2][idx]);
                        b2 += 1;
                    }
                    proof {
                        assert(all.take(b1 + g2@.len() as int) =~= all);
                    }
                },
                None => {
                    proof {
                        assert(all.take(self.group1_data@.len() as int) =~= all);
                    }
                },
            }
            idx += 1;
        }
        proof {
            let vd = self.version_data;
            let b1i = vd.group1.blocks as int;
            let c1i = vd.group1.codewords as int;
            match vd.group2 {
                Some(g) => {
                    let b2i = g.blocks as int;
                    let c2i = g.codewords as int;
                    assert(uniform_shape(all, b1i, c1i, b2i, c2i));
                    lemma_interleave_len(all, max as nat, b1i, c1i, b2i, c2i);
                    assert(c1i * b1i == b1i * c1i) by (nonlinear_arith);
                    assert(c2i * b2i == b2i * c2i) by (nonlinear_arith);
                },
                None => {
                    assert(uniform_shape(all, b1i, c1i, 0, 0));
                    lemma_interleave_len(all, max as nat, b1i, c1i, 0, 0);
                    assert(c1i * b1i == b1i * c1i) by (nonlinear_arith);
                    assert(min_int(max as int, 0) * 0 == 0) by (nonlinear_arith);
                },
            }
        }
        data
    }

    /// Emits codeword `idx` of every error-correction block in block
    /// order, rounds of increasing `idx`; all blocks have equal length, so
    /// no block runs out early, and the result holds exactly the record's
    /// error-correction codewords.
    pub fn interleaved_ec_codewords(&self) -> (r: Vec<u8>)
        requires
            self.wf(),
        ensures
            r@ == spec_interleave(
                self.spec_ec_blocks(),
                self.version_data.ec_codewords_per_block as nat,
            ),
            r@.len() == self.version_data.spec_total_ec_codewords(),
    {
        let ghost all = self.spec_ec_blocks();
        let rounds: usize = self.version_data.ec_codewords_per_block as usize;
        let mut ec_codewords: Vec<u8> = Vec::new();
        let mut idx: usize = 0;
        while idx < rounds
            invariant
                idx <= rounds,
                self.wf(),
                rounds == self.version_data.ec_codewords_per_block,
                all == self.spec_ec_blocks(),
                ec_codewords@ == spec_interleave(all, idx as nat),
            decreases rounds - idx,
        {
            let mut b: usize = 0;
            let g1_len = self.group1_ec.len();
            while b < g1_len
                invariant
                    b <= g1_len,
                    idx < rounds,
                    self.wf(),
                    g1_len == self.group1_ec@.len(),
                    rounds == self.version_data.ec_codewords_per_block,
                    all == self.spec_ec_blocks(),
                    ec_codewords@ == spec_interleave(all, idx as nat) + spec_row(
                        all.take(b as int),
                        idx as int,
                    ),
                decreases g1_len - b,
            {
                proof {
                    assert(all[b as int] == self.group1_ec@[b as int]@);
                    lemma_row_take_one(all, b as int, idx as int);
                    assert(self.group1_ec@[b as int]@.len() > idx);
                }
                ec_codewords.push(self.group1_ec[b][idx]);
                b += 1;
            }
            match &self.group2_ec {
                Some(g2) => {
                    let ghost b1 = self.group1_ec@.len() as int;
                    let mut b2: usize = 0;
                    let g2_len = g2.len();
                    while b2 < g2_len
                        invariant
                            b2 <= g2_len,
                            idx < rounds,
                            self.wf(),
                            self.group2_ec == Some(*g2),
                            b1 == self.group1_ec@.len(),
                            g2_len == g2@.len(),
                            rounds == self.version_data.ec_codewords_per_block,
                            all == self.spec_ec_blocks(),
                            ec_codewords@ == spec_interleave(all, idx as nat) + spec_row(
                                all.take(b1 + b2),
                                idx as int,
                            ),
                        decreases g2_len - b2,
                    {
                        proof {
                            assert(all[b1 + b2] == g2@[b2 as int]@);
                            lemma_row_take_one(all, b1 + b2, idx as int);
                            assert(g2@[b2 as int]@.len() > idx);
                        }
                        ec_codewords.push(g2[b2][idx]);
                        b2 += 1;
                    }
                    proof {
                        assert(all.take(b1 + g2@.len() as int) =~= all);
                    }
                },
                None => {
                    proof {
                        assert(all.take(self.group1_ec@.len() as int) =~= all);
                    }
                },
            }
            idx += 1;
        }
        proof {
            let vd = self.version_data;
            let tb = vd.spec_total_blocks();
            let eci = vd.ec_codewords_per_block as int;
            assert(uniform_shape(all, tb, eci, 0, 0)) by {
                assert(all.len() == tb);
                assert(forall|i: int| 0 <= i < tb ==> (#[trigger] all[i]).len() == eci);
            }
            lemma_interleave_len(all, rounds as nat, tb, eci, 0, 0);
            assert(eci * tb == tb * eci) by (nonlinear_arith);
            assert(min_int(rounds as int, 0) * 0 == 0) by (nonlinear_arith);
        }
        ec_codewords
    }

    /// Serializes the interleaved data codewords followed by the
    /// interleaved error-correction codewords, each codeword most
    /// significant bit first.
    pub fn bitstream(&self) -> (r: QREncodedData)
        requires
            self.wf(),
        ensures
            bit_seq(r) == bytes_bits(
                spec_interleave(
                    self.spec_data_blocks(),
                    self.version_data.spec_max_codewords_per_block() as nat,
                ) + spec_interleave(
                    self.spec_ec_blocks(),
                    self.version_data.ec_codewords_per_block as nat,
                ),
            ),
    {
        let mut data = self.interleaved_data_codewords();
        let mut ec = self.interleaved_ec_codewords();
        proof {
            let vd = self.version_data;
            assert(vd.ec_codewords_per_block as int * vd.spec_total_blocks() <= 30 * 81)
                by (nonlinear_arith)
                requires
                    0 <= vd.ec_codewords_per_block <= 30,
                    0 <= vd.spec_total_blocks() <= 81,
            ;
        }
        data.append(&mut ec);
        bytes_to_bitvec(data)
    }
}

/// The bit serialization of the codewords after grouping, Reed-Solomon
/// coding and interleaving under the capacity record.
pub open spec fn spec_bitstream_with_ec(cw: Seq<u8>, vd: VersionEclData) -> Seq<bool> {
    bytes_bits(
        spec_interleave(
            spec_all_data_blocks(cw, vd),
            vd.spec_max_codewords_per_block() as nat,
        ) + spec_interleave(spec_all_ec_blocks(cw, vd), vd.ec_codewords_per_block as nat),
    )
}

/// Groups the data codewords, computes every block's error-correction
/// codewords, and serializes the interleaved transmission order.
pub fn bitstream_with_ec(data_codewords: Vec<u8>, ecl_data: VersionEclData) -> (r: QREncodedData)
    requires
        ecl_data.wf(),
        data_codewords@.len() == ecl_data.data_codewords,
    ensures
        bit_seq(r) == spec_bitstream_with_ec(data_codewords@, ecl_data),
{
    let ghost cw = data_codewords@;
    let grouped = GroupedCodewords::new(data_codewords, ecl_data);
    grouped.bitstream()
}

} // verus!
