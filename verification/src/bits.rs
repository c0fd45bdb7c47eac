//! Bit-sequence carrier for the encoder pipeline.
//!
//! The packed bitstream is held in a `bitvec` bit vector; the handful of
//! operations the pipeline needs are declared here with their contracts,
//! stated over the abstract contents `bit_seq`.

use vstd::prelude::*;

verus! {

/// A packed bit buffer, backed by a `bitvec` bit vector. Verus sees the
/// buffer only through `bit_seq` and the operations below.
#[verifier::external_body]
pub struct QREncodedData {
    bits: bitvec::vec::BitVec<bitvec::order::Lsb0, u8>,
}

/// The bits held by a buffer, first-pushed first.
pub uninterp spec fn bit_seq(v: QREncodedData) -> Seq<bool>;

/// Relies on bitvec's `BitVec::new`: an empty bit vector.
#[verifier::external_body]
pub fn bits_new() -> (r: QREncodedData)
    ensures
        bit_seq(r) == Seq::<bool>::empty(),
{
    QREncodedData { bits: bitvec::vec::BitVec::new() }
}

/// Relies on bitvec's `BitVec::push`: appends one bit at the back.
/// `push` panics only when the length reaches the maximum region size,
/// far above the bound required here.
#[verifier::external_body]
pub fn bits_push(v: &mut QREncodedData, b: bool)
    requires
        bit_seq(*old(v)).len() < 0x1000_0000,
    ensures
        bit_seq(*final(v)) == bit_seq(*old(v)).push(b),
{
    v.bits.push(b)
}

/// Relies on bitvec's `BitSlice::len`: the number of bits held.
#[verifier::external_body]
pub fn bits_len(v: &QREncodedData) -> (r: usize)
    ensures
        r == bit_seq(*v).len(),
{
    v.bits.len()
}

/// Relies on bitvec's `BitSlice` indexing: the bit at the given position.
#[verifier::external_body]
pub fn bits_get(v: &QREncodedData, i: usize) -> (r: bool)
    requires
        i < bit_seq(*v).len(),
    ensures
        r == bit_seq(*v)[i as int],
{
    v.bits[i]
}

/// Relies on bitvec's `BitVec::append`: moves every bit of `other` to the
/// back of `v`, leaving `other` empty.
#[verifier::external_body]
pub fn bits_append(v: &mut QREncodedData, other: &mut QREncodedData)
    requires
        bit_seq(*old(v)).len() + bit_seq(*old(other)).len() < 0x1000_0000,
    ensures
        bit_seq(*final(v)) == bit_seq(*old(v)) + bit_seq(*old(other)),
        bit_seq(*final(other)) == Seq::<bool>::empty(),
{
    v.bits.append(&mut other.bits)
}

/// Reads a bit buffer out into a vector of booleans, in bit order.
pub fn bits_bools(v: &QREncodedData) -> (r: Vec<bool>)
    ensures
        r@ == bit_seq(*v),
{
    let len = bits_len(v);
    let mut out: Vec<bool> = Vec::new();
    let mut i: usize = 0;
    while i < len
        invariant
            i <= len,
            len == bit_seq(*v).len(),
            out@ == bit_seq(*v).take(i as int),
        decreases len - i,
    {
        out.push(bits_get(v, i));
        proof {
            assert(out@ =~= bit_seq(*v).take(i + 1));
        }
        i += 1;
    }
    proof {
        assert(bit_seq(*v).take(len as int) =~= bit_seq(*v));
    }
    out
}

/// The `width` low-order bits of `value`, most significant first.
pub open spec fn value_bits(value: u16, width: nat) -> Seq<bool> {
    Seq::new(width, |i: int| (value >> ((width - 1 - i) as u16)) & 1 == 1)
}

/// The eight bits of a byte, most significant first.
pub open spec fn byte_bits(b: u8) -> Seq<bool> {
    value_bits(b as u16, 8)
}

/// The bytes' bits concatenated, each byte most significant bit first.
pub open spec fn bytes_bits(s: Seq<u8>) -> Seq<bool>
    decreases s.len(),
{
    if s.len() == 0 {
        Seq::empty()
    } else {
        byte_bits(s[0]) + bytes_bits(s.drop_first())
    }
}

pub proof fn lemma_bytes_bits_push(s: Seq<u8>, b: u8)
    ensures
        bytes_bits(s.push(b)) == bytes_bits(s) + byte_bits(b),
    decreases s.len(),
{
    if s.len() == 0 {
        assert(s.push(b).drop_first() =~= Seq::<u8>::empty());
        assert(s.push(b)[0] == b);
        assert(bytes_bits(Seq::<u8>::empty()) =~= Seq::<bool>::empty());
        assert(bytes_bits(s.push(b)) =~= bytes_bits(s) + byte_bits(b));
    } else {
        assert(s.push(b).drop_first() =~= s.drop_first().push(b));
        lemma_bytes_bits_push(s.drop_first(), b);
        assert(bytes_bits(s.push(b)) =~= bytes_bits(s) + byte_bits(b));
    }
}

pub proof fn lemma_bytes_bits_len(s: Seq<u8>)
    ensures
        bytes_bits(s).len() == 8 * s.len(),
    decreases s.len(),
{
    if s.len() > 0 {
        lemma_bytes_bits_len(s.drop_first());
    }
}

/// Appends the `count_bits` low-order bits of `value` to `data`, most
/// significant first.
pub fn insert_into_data(data: &mut QREncodedData, value: u16, count_bits: usize)
    requires
        count_bits <= 16,
        bit_seq(*old(data)).len() + count_bits < 0x1000_0000,
    ensures
        bit_seq(*final(data)) == bit_seq(*old(data)) + value_bits(value, count_bits as nat),
{
    let mut i: usize = 0;
    while i < count_bits
        invariant
            i <= count_bits,
            count_bits <= 16,
            bit_seq(*old(data)).len() + count_bits < 0x1000_0000,
            bit_seq(*data) == bit_seq(*old(data)) + value_bits(value, count_bits as nat).take(
                i as int,
            ),
        decreases count_bits - i,
    {
        let shift: u16 = (count_bits - 1 - i) as u16;
        let bit = ((value >> shift) & 1) == 1;
        bits_push(data, bit);
        proof {
            assert(bit_seq(*data) =~= bit_seq(*old(data)) + value_bits(
                value,
                count_bits as nat,
            ).take(i + 1));
        }
        i += 1;
    }
    proof {
        assert(value_bits(value, count_bits as nat).take(count_bits as int) =~= value_bits(
            value,
            count_bits as nat,
        ));
    }
}

/// Packs a byte sequence into a bit buffer, each byte most significant
/// bit first.
pub fn bytes_to_bitvec(data: Vec<u8>) -> (r: QREncodedData)
    requires
        data@.len() < 0x100_0000,
    ensures
        bit_seq(r) == bytes_bits(data@),
{
    let mut out = bits_new();
    let mut i: usize = 0;
    while i < data.len()
        invariant
            i <= data@.len(),
            data@.len() < 0x100_0000,
            bit_seq(out) == bytes_bits(data@.take(i as int)),
        decreases data@.len() - i,
    {
        proof {
            lemma_bytes_bits_len(data@.take(i as int));
            lemma_bytes_bits_push(data@.take(i as int), data@[i as int]);
            assert(data@.take(i as int).push(data@[i as int]) =~= data@.take(i + 1));
        }
        insert_into_data(&mut out, data[i] as u16, 8);
        i += 1;
    }
    proof {
        assert(data@.take(data@.len() as int) =~= data@);
    }
    out
}

} // verus!
