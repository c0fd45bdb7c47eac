//! Encoding-mode selection and bitstream assembly.
//!
//! The input is packed under the narrowest applicable mode, framed with
//! the mode indicator and character-count indicator, terminated, and
//! padded to the version's exact data-codeword capacity.

use vstd::prelude::*;
use vstd::string::StrSliceExecFns;
use vstd::string::StringSliceAdditionalSpecFns;
use vstd::utf8::encode_scalar;
use vstd::utf8::encode_utf8;
use crate::bits::{
    bit_seq, bits_append, bits_get, bits_len, bits_new, bits_push, byte_bits, bytes_bits, bytes_to_bitvec,
    insert_into_data, value_bits, QREncodedData,
};
use crate::error_correction::min_int;
use crate::error_correction::ErrorCorrectionLevel;
use crate::text::str_chars;
use crate::version::Version;
use crate::Error;

verus! {

/// Longest input, in UTF-8 bytes, that the encoder accepts; anything
/// longer cannot fit any version and is rejected before encoding.
pub const MAX_INPUT_BYTES: usize = 0x4000;

/// A decimal digit.
pub open spec fn spec_is_digit(c: char) -> bool {
    48 <= c as u32 <= 57
}

/// The value of a character in the 45-symbol alphanumeric set, or none
/// when the character is outside it.
pub open spec fn spec_alnum_value(c: char) -> Option<u16> {
    let u = c as u32;
    if 48 <= u <= 57 {
        Some((u - 48) as u16)
    } else if 65 <= u <= 90 {
        Some((u - 55) as u16)
    } else if u == 32 {
        Some(36u16)
    } else if u == 36 {
        Some(37u16)
    } else if u == 37 {
        Some(38u16)
    } else if u == 42 {
        Some(39u16)
    } else if u == 43 {
        Some(40u16)
    } else if u == 45 {
        Some(41u16)
    } else if u == 46 {
        Some(42u16)
    } else if u == 47 {
        Some(43u16)
    } else if u == 58 {
        Some(44u16)
    } else {
        None
    }
}

/// The alphanumeric code of a character, zero outside the set.
pub open spec fn spec_alnum_code(c: char) -> u16 {
    match spec_alnum_value(c) {
        Some(v) => v,
        None => 0u16,
    }
}

pub open spec fn spec_all_numeric(s: Seq<char>) -> bool {
    forall|i: int| 0 <= i < s.len() ==> spec_is_digit(#[trigger] s[i])
}

pub open spec fn spec_all_alnum(s: Seq<char>) -> bool {
    forall|i: int| 0 <= i < s.len() ==> (#[trigger] spec_alnum_value(s[i])) is Some
}

/// The encoding modes. Kanji mode is present in the standard but not
/// supported here.
#[derive(Clone, Copy, Debug, PartialEq, Eq, Structural)]
pub enum QREncoding {
    Numeric,
    Alphanumeric,
    Bytes,
    Kanji,
}

/// The first mode in priority order Numeric > Alphanumeric > Byte that
/// stays valid for the entire string; a single disqualifying character
/// downgrades the whole input.
pub open spec fn spec_choose_encoding(s: Seq<char>) -> QREncoding {
    if spec_all_numeric(s) {
        QREncoding::Numeric
    } else if spec_all_alnum(s) {
        QREncoding::Alphanumeric
    } else {
        QREncoding::Bytes
    }
}

/// The value of a character in the alphanumeric set.
pub fn alphanumeric_char_value(character: &char) -> (r: Option<u16>)
    ensures
        r == spec_alnum_value(*character),
{
    match character {
        '0' => Some(0),
        '1' => Some(1),
        '2' => Some(2),
        '3' => Some(3),
        '4' => Some(4),
        '5' => Some(5),
        '6' => Some(6),
        '7' => Some(7),
        '8' => Some(8),
        '9' => Some(9),
        'A' => Some(10),
        'B' => Some(11),
        'C' => Some(12),
        'D' => Some(13),
        'E' => Some(14),
        'F' => Some(15),
        'G' => Some(16),
        'H' => Some(17),
        'I' => Some(18),
        'J' => Some(19),
        'K' => Some(20),
        'L' => Some(21),
        'M' => Some(22),
        'N' => Some(23),
        'O' => Some(24),
        'P' => Some(25),
        'Q' => Some(26),
        'R' => Some(27),
        'S' => Some(28),
        'T' => Some(29),
        'U' => Some(30),
        'V' => Some(31),
        'W' => Some(32),
        'X' => Some(33),
        'Y' => Some(34),
        'Z' => Some(35),
        ' ' => Some(36),
        '$' => Some(37),
        '%' => Some(38),
        '*' => Some(39),
        '+' => Some(40),
        '-' => Some(41),
        '.' => Some(42),
        '/' => Some(43),
        ':' => Some(44),
        _ => None,
    }
}

/// Whether a mode accepts a character.
pub open spec fn spec_allows_char(e: QREncoding, c: char) -> bool {
    match e {
        QREncoding::Numeric => spec_is_digit(c),
        QREncoding::Alphanumeric => spec_alnum_value(c) is Some,
        QREncoding::Bytes => true,
        QREncoding::Kanji => false,
    }
}

/// The character-count indicator width of a mode, by version tier.
pub open spec fn spec_cc_bits(e: QREncoding, vnum: int) -> int {
    let widths: (int, int, int) = match e {
        QREncoding::Numeric => (10, 12, 14),
        QREncoding::Alphanumeric => (9, 11, 13),
        QREncoding::Bytes => (8, 16, 16),
        QREncoding::Kanji => (8, 10, 12),
    };
    if vnum <= 9 {
        widths.0
    } else if vnum <= 26 {
        widths.1
    } else {
        widths.2
    }
}

/// The four mode-indicator values.
pub open spec fn spec_mode_value(e: QREncoding) -> u16 {
    match e {
        QREncoding::Numeric => 1u16,
        QREncoding::Alphanumeric => 2u16,
        QREncoding::Bytes => 4u16,
        QREncoding::Kanji => 8u16,
    }
}

/// The four-bit mode indicator.
pub open spec fn spec_mode_bits(e: QREncoding) -> Seq<bool> {
    value_bits(spec_mode_value(e), 4)
}

impl QREncoding {
    pub fn allows_char(&self, character: &char) -> (r: bool)
        requires
            !(*self is Kanji),
        ensures
            r == spec_allows_char(*self, *character),
    {
        match self {
            QREncoding::Numeric => {
                let u = *character as u32;
                48 <= u && u <= 57
            },
            QREncoding::Alphanumeric => alphanumeric_char_value(character).is_some(),
            QREncoding::Bytes => true,
            QREncoding::Kanji => false,
        }
    }

    /// The character-count indicator width at a version.
    pub fn character_count_bits(&self, version_num: u8) -> (r: usize)
        requires
            1 <= version_num <= 40,
        ensures
            r == spec_cc_bits(*self, version_num as int),
    {
        let widths: (usize, usize, usize) = match self {
            QREncoding::Numeric => (10, 12, 14),
            QREncoding::Alphanumeric => (9, 11, 13),
            QREncoding::Bytes => (8, 16, 16),
            QREncoding::Kanji => (8, 10, 12),
        };
        if version_num <= 9 {
            widths.0
        } else if version_num <= 26 {
            widths.1
        } else {
            widths.2
        }
    }

    /// The four-bit mode indicator.
    pub fn mode(&self) -> (r: QREncodedData)
        requires
            !(*self is Kanji),
        ensures
            bit_seq(r) == spec_mode_bits(*self),
    {
        let value: u16 = match self {
            QREncoding::Numeric => 1,
            QREncoding::Alphanumeric => 2,
            QREncoding::Bytes => 4,
            QREncoding::Kanji => 8,
        };
        let mut out = bits_new();
        insert_into_data(&mut out, value, 4);
        out
    }

    /// Packs the input under this mode.
    pub fn encode(&self, data: &str) -> (r: QREncodedData)
        requires
            !(*self is Kanji),
            *self is Numeric ==> spec_all_numeric(data@),
            *self is Alphanumeric ==> spec_all_alnum(data@),
            data.spec_bytes().len() <= MAX_INPUT_BYTES,
        ensures
            bit_seq(r) == spec_packed_bits(*self, data),
            bit_seq(r).len() <= 8 * data.spec_bytes().len(),
    {
        proof {
            lemma_utf8_len_bounds(data@);
        }
        match self {
            QREncoding::Numeric => encode_numeric(data),
            QREncoding::Alphanumeric => encode_alphanumeric(data),
            QREncoding::Bytes => encode_bytes(data),
            QREncoding::Kanji => bits_new(),
        }
    }
}

/// The packed data bits of the input under a mode.
pub open spec fn spec_packed_bits(e: QREncoding, data: &str) -> Seq<bool> {
    match e {
        QREncoding::Numeric => spec_numeric_bits(data@),
        QREncoding::Alphanumeric => spec_alnum_bits(data@),
        QREncoding::Bytes => bytes_bits(spec_encoded_bytes(data)),
        QREncoding::Kanji => Seq::<bool>::empty(),
    }
}

/// Selects the encoding based on the input data.
pub fn choose_encoding(data: &str) -> (r: QREncoding)
    ensures
        r == spec_choose_encoding(data@),
{
    let chars = str_chars(data);
    let mut can_be_numeric = true;
    let mut can_be_alphanumeric = true;
    let len = chars.len();
    let mut i: usize = 0;
    while i < len
        invariant
            i <= len,
            len == data@.len(),
            chars@ == data@,
            can_be_numeric == spec_all_numeric(data@.take(i as int)),
            can_be_alphanumeric == spec_all_alnum(data@.take(i as int)),
        decreases len - i,
    {
        let c = chars[i];
        if can_be_numeric && !QREncoding::Numeric.allows_char(&c) {
            can_be_numeric = false;
        }
        if can_be_alphanumeric && !QREncoding::Alphanumeric.allows_char(&c) {
            can_be_alphanumeric = false;
        }
        proof {
            assert(data@.take(i + 1).drop_last() =~= data@.take(i as int));
            assert(data@.take(i + 1).last() == data@[i as int]);
            if spec_all_numeric(data@.take(i as int)) && spec_is_digit(data@[i as int]) {
                assert forall|j: int| 0 <= j < i + 1 implies spec_is_digit(
                    #[trigger] data@.take(i + 1)[j],
                ) by {
                    if j < i {
                        assert(data@.take(i + 1)[j] == data@.take(i as int)[j]);
                    }
                }
            }
            if !spec_is_digit(data@[i as int]) {
                assert(!spec_is_digit(data@.take(i + 1)[i as int]));
            }
            if spec_all_alnum(data@.take(i as int)) && spec_alnum_value(data@[i as int]) is Some {
                assert forall|j: int| 0 <= j < i + 1 implies (#[trigger] spec_alnum_value(
                    data@.take(i + 1)[j],
                )) is Some by {
                    if j < i {
                        assert(data@.take(i + 1)[j] == data@.take(i as int)[j]);
                    }
                }
            }
            if !(spec_alnum_value(data@[i as int]) is Some) {
                assert(!(spec_alnum_value(data@.take(i + 1)[i as int]) is Some));
            }
        }
        i += 1;
    }
    proof {
        assert(data@.take(len as int) =~= data@);
    }
    if can_be_numeric {
        QREncoding::Numeric
    } else if can_be_alphanumeric {
        QREncoding::Alphanumeric
    } else {
        QREncoding::Bytes
    }
}

/// A string of decimal digits alone is always encoded in numeric mode.
pub proof fn lemma_digit_strings_choose_numeric(s: Seq<char>)
    requires
        spec_all_numeric(s),
    ensures
        spec_choose_encoding(s) == QREncoding::Numeric,
{
}

/// A single character outside both the digit set and the alphanumeric
/// set downgrades the whole string to byte mode, wherever it stands.
pub proof fn lemma_disqualifying_char_downgrades(before: Seq<char>, c: char, after: Seq<char>)
    requires
        !spec_is_digit(c),
        spec_alnum_value(c) is None,
    ensures
        spec_choose_encoding(before + seq![c] + after) == QREncoding::Bytes,
{
    let s = before + seq![c] + after;
    assert(s[before.len() as int] == c);
    assert(!spec_all_numeric(s));
    assert(!spec_all_alnum(s));
}

/// The numeric value of a digit string.
pub open spec fn spec_digits_value(s: Seq<char>) -> int
    decreases s.len(),
{
    if s.len() == 0 {
        0
    } else {
        spec_digits_value(s.drop_last()) * 10 + (s.last() as u32 - 48)
    }
}

/// Numeric-mode packing: groups of three digits in ten bits, a final
/// pair in seven, a final single digit in four.
pub open spec fn spec_numeric_bits(s: Seq<char>) -> Seq<bool>
    decreases s.len(),
{
    if s.len() >= 3 {
        value_bits(spec_digits_value(s.take(3)) as u16, 10) + spec_numeric_bits(s.skip(3))
    } else if s.len() == 2 {
        value_bits(spec_digits_value(s) as u16, 7)
    } else if s.len() == 1 {
        value_bits(spec_digits_value(s) as u16, 4)
    } else {
        Seq::<bool>::empty()
    }
}

/// Alphanumeric-mode packing: pairs in eleven bits as `first * 45 +
/// second`, a lone trailing character in six bits.
pub open spec fn spec_alnum_bits(s: Seq<char>) -> Seq<bool>
    decreases s.len(),
{
    if s.len() >= 2 {
        value_bits((spec_alnum_code(s[0]) * 45 + spec_alnum_code(s[1])) as u16, 11)
            + spec_alnum_bits(s.skip(2))
    } else if s.len() == 1 {
        value_bits(spec_alnum_code(s[0]), 6)
    } else {
        Seq::<bool>::empty()
    }
}

/// Every character is a Latin-1 code point.
pub open spec fn spec_fits_latin1(s: Seq<char>) -> bool {
    forall|i: int| 0 <= i < s.len() ==> (#[trigger] s[i]) as u32 <= 255
}

/// Byte-mode payload: the strict Latin-1 bytes when every character
/// fits, else the UTF-8 bytes of the string.
pub open spec fn spec_encoded_bytes(data: &str) -> Seq<u8> {
    if spec_fits_latin1(data@) {
        Seq::new(data@.len(), |i: int| (data@[i] as u32) as u8)
    } else {
        data.spec_bytes()
    }
}

/// UTF-8 takes between one and four bytes per character.
pub proof fn lemma_utf8_len_bounds(s: Seq<char>)
    ensures
        s.len() <= encode_utf8(s).len() <= 4 * s.len(),
    decreases s.len(),
{
    if s.len() > 0 {
        lemma_utf8_len_bounds(s.drop_first());
        assert(1 <= encode_scalar(s[0] as u32).len() <= 4);
    }
}

/// ASCII characters take exactly one UTF-8 byte each.
pub proof fn lemma_utf8_len_ascii(s: Seq<char>)
    requires
        forall|i: int| 0 <= i < s.len() ==> (#[trigger] s[i]) as u32 <= 127,
    ensures
        encode_utf8(s).len() == s.len(),
    decreases s.len(),
{
    if s.len() > 0 {
        assert(forall|i: int|
            0 <= i < s.drop_first().len() ==> (#[trigger] s.drop_first()[i]) as u32 <= 127);
        lemma_utf8_len_ascii(s.drop_first());
        assert(encode_scalar(s[0] as u32).len() == 1);
    }
}

/// Every decimal digit is ASCII.
pub proof fn lemma_numeric_is_ascii(s: Seq<char>)
    requires
        spec_all_numeric(s),
    ensures
        forall|i: int| 0 <= i < s.len() ==> (#[trigger] s[i]) as u32 <= 127,
{
    assert forall|i: int| 0 <= i < s.len() implies (#[trigger] s[i]) as u32 <= 127 by {
        assert(spec_is_digit(s[i]));
    }
}

/// Every character of the alphanumeric set is ASCII.
pub proof fn lemma_alnum_is_ascii(s: Seq<char>)
    requires
        spec_all_alnum(s),
    ensures
        forall|i: int| 0 <= i < s.len() ==> (#[trigger] s[i]) as u32 <= 127,
{
    assert forall|i: int| 0 <= i < s.len() implies (#[trigger] s[i]) as u32 <= 127 by {
        assert(spec_alnum_value(s[i]) is Some);
    }
}

/// Latin-1 code points take at most two UTF-8 bytes each.
pub proof fn lemma_utf8_len_latin1(s: Seq<char>)
    requires
        spec_fits_latin1(s),
    ensures
        encode_utf8(s).len() <= 2 * s.len(),
    decreases s.len(),
{
    if s.len() > 0 {
        assert(spec_fits_latin1(s.drop_first())) by {
            assert(forall|i: int|
                0 <= i < s.drop_first().len() ==> (#[trigger] s.drop_first()[i]) as u32 <= 255);
        }
        lemma_utf8_len_latin1(s.drop_first());
        assert(s[0] as u32 <= 255);
        assert(encode_scalar(s[0] as u32).len() <= 2);
    }
}

/// Packed numeric bits take between three and four bits per digit.
pub proof fn lemma_numeric_bits_len(s: Seq<char>)
    ensures
        3 * s.len() <= spec_numeric_bits(s).len() <= 4 * s.len(),
    decreases s.len(),
{
    if s.len() >= 3 {
        lemma_numeric_bits_len(s.skip(3));
    }
}

/// Packed alphanumeric bits take between three and six bits per
/// character.
pub proof fn lemma_alnum_bits_len(s: Seq<char>)
    ensures
        3 * s.len() <= spec_alnum_bits(s).len() <= 6 * s.len(),
    decreases s.len(),
{
    if s.len() >= 2 {
        lemma_alnum_bits_len(s.skip(2));
    }
}

/// Performs encoding in Numeric mode: each full group of three digits
/// packs its value in ten bits; a trailing pair in seven; a trailing
/// digit in four.
pub fn encode_numeric(data: &str) -> (r: QREncodedData)
    requires
        spec_all_numeric(data@),
        data@.len() <= MAX_INPUT_BYTES,
    ensures
        bit_seq(r) == spec_numeric_bits(data@),
        bit_seq(r).len() <= 4 * data@.len(),
{
    let s = str_chars(data);
    let len = s.len();
    let mut out = bits_new();
    proof {
        assert(data@.skip(0) =~= data@);
        assert(bit_seq(out) + spec_numeric_bits(data@) =~= spec_numeric_bits(data@));
    }
    let mut i: usize = 0;
    while i + 3 <= len
        invariant
            i <= len,
            len == data@.len() <= MAX_INPUT_BYTES,
            s@ == data@,
            spec_all_numeric(data@),
            bit_seq(out).len() <= 4 * i,
            bit_seq(out) + spec_numeric_bits(data@.skip(i as int)) == spec_numeric_bits(data@),
        decreases len - i,
    {
        let d0 = s[i] as u32;
        let d1 = s[i + 1] as u32;
        let d2 = s[i + 2] as u32;
        proof {
            assert(spec_is_digit(data@[i as int]));
            assert(spec_is_digit(data@[i + 1]));
            assert(spec_is_digit(data@[i + 2]));
        }
        let value: u16 = ((d0 - 48) * 100 + (d1 - 48) * 10 + (d2 - 48)) as u16;
        proof {
            let tail = data@.skip(i as int);
            let g3 = data@.subrange(i as int, i + 3);
            let g2 = data@.subrange(i as int, i + 2);
            let g1 = data@.subrange(i as int, i + 1);
            let g0 = data@.subrange(i as int, i as int);
            assert(tail.take(3) =~= g3);
            assert(tail.skip(3) =~= data@.skip(i + 3));
            assert(g3.drop_last() =~= g2);
            assert(g3.last() == data@[i + 2]);
            assert(g2.drop_last() =~= g1);
            assert(g2.last() == data@[i + 1]);
            assert(g1.drop_last() =~= g0);
            assert(g1.last() == data@[i as int]);
            assert(spec_digits_value(g0) == 0);
            assert(spec_digits_value(g1) == d0 - 48);
            assert(spec_digits_value(g2) == (d0 - 48) * 10 + (d1 - 48));
            assert(spec_digits_value(g3) == ((d0 - 48) * 10 + (d1 - 48)) * 10 + (d2 - 48));
            assert(value == spec_digits_value(g3) as u16);
        }
        insert_into_data(&mut out, value, 10);
        proof {
            let tail = data@.skip(i as int);
            assert(spec_numeric_bits(tail) == value_bits(value, 10) + spec_numeric_bits(
                data@.skip(i + 3),
            ));
            assert(bit_seq(out) + spec_numeric_bits(data@.skip(i + 3)) =~= spec_numeric_bits(
                data@,
            ));
        }
        i += 3;
    }
    if i + 2 == len {
        let d0 = s[i] as u32;
        let d1 = s[i + 1] as u32;
        proof {
            assert(spec_is_digit(data@[i as int]));
            assert(spec_is_digit(data@[i + 1]));
        }
        let value: u16 = ((d0 - 48) * 10 + (d1 - 48)) as u16;
        proof {
            let tail = data@.skip(i as int);
            let g1 = data@.subrange(i as int, i + 1);
            let g0 = data@.subrange(i as int, i as int);
            assert(tail.drop_last() =~= g1);
            assert(tail.last() == data@[i + 1]);
            assert(g1.drop_last() =~= g0);
            assert(g1.last() == data@[i as int]);
            assert(spec_digits_value(g0) == 0);
            assert(spec_digits_value(g1) == d0 - 48);
            assert(spec_digits_value(tail) == (d0 - 48) * 10 + (d1 - 48));
        }
        insert_into_data(&mut out, value, 7);
        proof {
            assert(bit_seq(out) =~= spec_numeric_bits(data@));
        }
    } else if i + 1 == len {
        let d0 = s[i] as u32;
        proof {
            assert(spec_is_digit(data@[i as int]));
        }
        let value: u16 = (d0 - 48) as u16;
        proof {
            let tail = data@.skip(i as int);
            let g0 = data@.subrange(i as int, i as int);
            assert(tail.drop_last() =~= g0);
            assert(tail.last() == data@[i as int]);
            assert(spec_digits_value(g0) == 0);
            assert(spec_digits_value(tail) == d0 - 48);
        }
        insert_into_data(&mut out, value, 4);
        proof {
            assert(bit_seq(out) =~= spec_numeric_bits(data@));
        }
    } else {
        proof {
            assert(data@.skip(i as int).len() == 0);
            assert(bit_seq(out) =~= spec_numeric_bits(data@));
        }
    }
    proof {
        lemma_numeric_bits_len(data@);
    }
    out
}

/// Performs encoding in Alphanumeric mode: pairs pack `first * 45 +
/// second` in eleven bits; a lone trailing character its code in six.
pub fn encode_alphanumeric(data: &str) -> (r: QREncodedData)
    requires
        spec_all_alnum(data@),
        data@.len() <= MAX_INPUT_BYTES,
    ensures
        bit_seq(r) == spec_alnum_bits(data@),
        bit_seq(r).len() <= 6 * data@.len(),
{
    let s = str_chars(data);
    let len = s.len();
    let mut out = bits_new();
    proof {
        assert(data@.skip(0) =~= data@);
        assert(bit_seq(out) + spec_alnum_bits(data@) =~= spec_alnum_bits(data@));
    }
    let mut i: usize = 0;
    while i + 2 <= len
        invariant
            i <= len,
            len == data@.len() <= MAX_INPUT_BYTES,
            s@ == data@,
            spec_all_alnum(data@),
            bit_seq(out).len() <= 6 * i,
            bit_seq(out) + spec_alnum_bits(data@.skip(i as int)) == spec_alnum_bits(data@),
        decreases len - i,
    {
        proof {
            assert(spec_alnum_value(data@[i as int]) is Some);
            assert(spec_alnum_value(data@[i + 1]) is Some);
        }
        let v0: u16 = match alphanumeric_char_value(&s[i]) {
            Some(v) => v,
            None => 0,
        };
        let v1: u16 = match alphanumeric_char_value(&s[i + 1]) {
            Some(v) => v,
            None => 0,
        };
        let value: u16 = v0 * 45 + v1;
        insert_into_data(&mut out, value, 11);
        proof {
            let tail = data@.skip(i as int);
            assert(tail[0] == data@[i as int]);
            assert(tail[1] == data@[i + 1]);
            assert(tail.skip(2) =~= data@.skip(i + 2));
            assert(spec_alnum_bits(tail) == value_bits(value, 11) + spec_alnum_bits(
                data@.skip(i + 2),
            ));
            assert(bit_seq(out) + spec_alnum_bits(data@.skip(i + 2)) =~= spec_alnum_bits(data@));
        }
        i += 2;
    }
    if i < len {
        proof {
            assert(spec_alnum_value(data@[i as int]) is Some);
        }
        let v0: u16 = match alphanumeric_char_value(&s[i]) {
            Some(v) => v,
            None => 0,
        };
        insert_into_data(&mut out, v0, 6);
        proof {
            let tail = data@.skip(i as int);
            assert(tail[0] == data@[i as int]);
            assert(bit_seq(out) =~= spec_alnum_bits(data@));
        }
    } else {
        proof {
            assert(data@.skip(i as int).len() == 0);
            assert(bit_seq(out) =~= spec_alnum_bits(data@));
        }
    }
    proof {
        lemma_alnum_bits_len(data@);
    }
    out
}

/// Relies on encoding's ISO-8859-1 encoder with the strict trap: Latin-1
/// is the identity on code points up to 255, and the strict trap fails
/// exactly when some character is outside that range.
#[verifier::external_body]
fn latin1_encode(data: &str) -> (r: Option<Vec<u8>>)
    ensures
        match r {
            Some(bytes) => spec_fits_latin1(data@) && bytes@.len() == data@.len() && forall|
                i: int,
            |
                0 <= i < data@.len() ==> (#[trigger] bytes@[i]) == (data@[i] as u32) as u8,
            None => !spec_fits_latin1(data@),
        },
{
    match encoding::Encoding::encode(
        encoding::all::ISO_8859_1,
        data,
        encoding::EncoderTrap::Strict,
    ) {
        Ok(bytes) => Some(bytes),
        Err(_) => None,
    }
}

/// Relies on encoding's UTF-8 encoder with the replace trap: a Rust
/// string slice is already valid UTF-8, so the encoder copies its bytes
/// and never fails.
#[verifier::external_body]
fn utf8_encode(data: &str) -> (r: Vec<u8>)
    ensures
        r@ == data.spec_bytes(),
{
    encoding::Encoding::encode(encoding::all::UTF_8, data, encoding::EncoderTrap::Replace)
        .unwrap()
}

/// Performs encoding in Bytes mode: strict Latin-1 when every character
/// fits, else UTF-8; each byte is emitted most significant bit first.
pub fn encode_bytes(data: &str) -> (r: QREncodedData)
    requires
        data.spec_bytes().len() <= MAX_INPUT_BYTES,
    ensures
        bit_seq(r) == bytes_bits(spec_encoded_bytes(data)),
        bit_seq(r).len() <= 8 * data.spec_bytes().len(),
{
    proof {
        lemma_utf8_len_bounds(data@);
        crate::bits::lemma_bytes_bits_len(spec_encoded_bytes(data));
    }
    match latin1_encode(data) {
        Some(bytes) => {
            proof {
                assert(bytes@ =~= spec_encoded_bytes(data));
            }
            bytes_to_bitvec(bytes)
        },
        None => {
            let bytes = utf8_encode(data);
            bytes_to_bitvec(bytes)
        },
    }
}

/// Mode indicator, character-count indicator, then the packed data.
pub open spec fn spec_body_bits(e: QREncoding, count: u16, packed: Seq<bool>, vnum: int) -> Seq<
    bool,
> {
    spec_mode_bits(e) + value_bits(count, spec_cc_bits(e, vnum) as nat) + packed
}

/// `n` zero bits.
pub open spec fn spec_zeros(n: int) -> Seq<bool> {
    Seq::new(
        if n >= 0 {
            n as nat
        } else {
            0
        },
        |i: int| false,
    )
}

/// `n` pad codewords, alternating 0xEC and 0x11.
pub open spec fn spec_pad_bytes(n: int) -> Seq<u8> {
    Seq::new(
        if n >= 0 {
            n as nat
        } else {
            0
        },
        |i: int|
            if i % 2 == 0 {
                0xECu8
            } else {
                0x11u8
            },
    )
}

/// The complete framed bitstream at a version of capacity `cap` data
/// codewords: body, up to four zero terminator bits, zero bits to the
/// byte boundary, then pad codewords to exactly `cap` codewords.
pub open spec fn spec_frame_bits(
    e: QREncoding,
    count: u16,
    packed: Seq<bool>,
    vnum: int,
    cap: int,
) -> Seq<bool> {
    let body = spec_body_bits(e, count, packed, vnum);
    let term = body + spec_zeros(min_int(4, 8 * cap - body.len()));
    let aligned = term + spec_zeros((8 - term.len() as int % 8) % 8);
    aligned + bytes_bits(spec_pad_bytes(cap - aligned.len() as int / 8))
}

/// The value of eight bits starting at `k`, most significant first.
pub open spec fn spec_byte_at(bits: Seq<bool>, k: int) -> u8 {
    ((if bits[k] {
        128int
    } else {
        0int
    }) + (if bits[k + 1] {
        64int
    } else {
        0int
    }) + (if bits[k + 2] {
        32int
    } else {
        0int
    }) + (if bits[k + 3] {
        16int
    } else {
        0int
    }) + (if bits[k + 4] {
        8int
    } else {
        0int
    }) + (if bits[k + 5] {
        4int
    } else {
        0int
    }) + (if bits[k + 6] {
        2int
    } else {
        0int
    }) + (if bits[k + 7] {
        1int
    } else {
        0int
    })) as u8
}

/// The bits regrouped into bytes, most significant bit first.
pub open spec fn spec_bits_to_bytes(bits: Seq<bool>) -> Seq<u8> {
    Seq::new((bits.len() / 8) as nat, |i: int| spec_byte_at(bits, 8 * i))
}

/// Mode indicator width plus character-count indicator width plus the
/// packed data length.
pub open spec fn spec_length_before_terminator(e: QREncoding, plen: int, vnum: int) -> int {
    4 + spec_cc_bits(e, vnum) + plen
}

/// The codewords the framed stream needs before terminator and padding,
/// rounded up to whole codewords.
pub open spec fn spec_codeword_count_before_padding(e: QREncoding, plen: int, vnum: int) -> int {
    (spec_length_before_terminator(e, plen, vnum) + 7) / 8
}

/// The packed input together with its mode and character count, ready to
/// be framed for a chosen version.
pub struct QRBitstreamEncoder {
    pub data: QREncodedData,
    pub encoding: QREncoding,
    pub character_count: u16,
}

impl QRBitstreamEncoder {
    /// The packed data is bounded and the mode is a supported one.
    pub open spec fn wf(self) -> bool {
        &&& bit_seq(self.data).len() <= 0x20000
        &&& !(self.encoding is Kanji)
    }

    /// Chooses the narrowest mode for the input and packs it; the
    /// character count is the input's length in bytes.
    pub fn new(data: &str) -> (r: QRBitstreamEncoder)
        requires
            data.spec_bytes().len() <= MAX_INPUT_BYTES,
        ensures
            r.encoding == spec_choose_encoding(data@),
            bit_seq(r.data) == spec_packed_bits(r.encoding, data),
            r.character_count == data.spec_bytes().len(),
            r.wf(),
    {
        proof {
            lemma_utf8_len_bounds(data@);
        }
        let encoding = choose_encoding(data);
        let encoded_data = encoding.encode(data);
        let character_count = data.len() as u16;
        QRBitstreamEncoder { data: encoded_data, encoding, character_count }
    }

    /// Mode indicator plus character-count indicator plus packed data, in
    /// bits, at a candidate version.
    pub fn bitstream_length_before_terminator(&self, version_num: u8) -> (r: usize)
        requires
            self.wf(),
            1 <= version_num <= 40,
        ensures
            r == spec_length_before_terminator(
                self.encoding,
                bit_seq(self.data).len() as int,
                version_num as int,
            ),
    {
        4 + self.encoding.character_count_bits(version_num) + bits_len(&self.data)
    }

    /// The codewords the stream needs before padding at a candidate
    /// version.
    pub fn codeword_count_before_padding(&self, version_num: u8) -> (r: usize)
        requires
            self.wf(),
            1 <= version_num <= 40,
        ensures
            r == spec_codeword_count_before_padding(
                self.encoding,
                bit_seq(self.data).len() as int,
                version_num as int,
            ),
    {
        (self.bitstream_length_before_terminator(version_num) + (8 - 1)) / 8
    }

    /// Frames the packed data for the chosen version: mode indicator,
    /// character-count indicator, data, up to four terminator bits, zero
    /// bits to the byte boundary, then pad codewords to the version's
    /// exact capacity. Fails only when the body already exceeds that
    /// capacity, which version selection rules out; the packed data is
    /// consumed either way.
    #[verifier::rlimit(100)]
    pub fn bitstream(&mut self, version: &Version, ecl: &ErrorCorrectionLevel) -> (r: Result<
        QREncodedData,
        Error,
    >)
        requires
            old(self).wf(),
            version.wf(),
        ensures
            final(self).wf(),
            final(self).encoding == old(self).encoding,
            final(self).character_count == old(self).character_count,
            bit_seq(final(self).data) == Seq::<bool>::empty(),
            ({
                let cap = version.spec_values_at(*ecl).data_codewords as int;
                let len0 = spec_length_before_terminator(
                    old(self).encoding,
                    bit_seq(old(self).data).len() as int,
                    version.num as int,
                );
                match r {
                    Ok(bs) => len0 <= 8 * cap && bit_seq(bs) == spec_frame_bits(
                        old(self).encoding,
                        old(self).character_count,
                        bit_seq(old(self).data),
                        version.num as int,
                        cap,
                    ) && bit_seq(bs).len() == 8 * cap,
                    Err(_) => len0 > 8 * cap,
                }
            }),
    {
        let ghost packed = bit_seq(old(self).data);
        let ghost vnum = version.num as int;
        let codeword_count = version.codeword_count(ecl);
        proof {
            assert(version.spec_values_at(*ecl).wf());
        }
        let cap8: usize = codeword_count * 8;
        let mut bitstream = bits_new();
        let mut mode = self.encoding.mode();
        bits_append(&mut bitstream, &mut mode);
        let char_count_size = self.encoding.character_count_bits(version.num);
        insert_into_data(&mut bitstream, self.character_count, char_count_size);
        bits_append(&mut bitstream, &mut self.data);
        let ghost body = spec_body_bits(
            old(self).encoding,
            old(self).character_count,
            packed,
            vnum,
        );
        proof {
            assert(bit_seq(bitstream) =~= body);
        }
        let blen = bits_len(&bitstream);
        if blen > cap8 {
            return Err("The framed data does not fit into the chosen version".to_owned());
        }
        // Terminator of up to four zero bits.
        let remaining = cap8 - blen;
        let terminator = if remaining < 4 {
            remaining
        } else {
            4
        };
        let ghost term = body + spec_zeros(min_int(4, 8 * (codeword_count as int) - body.len()));
        let mut pushed: usize = 0;
        while pushed < terminator
            invariant
                pushed <= terminator,
                terminator <= 4,
                blen == body.len(),
                blen + terminator <= cap8,
                cap8 <= 0x8000,
                bit_seq(bitstream) == body + spec_zeros(pushed as int),
            decreases terminator - pushed,
        {
            bits_push(&mut bitstream, false);
            proof {
                assert(bit_seq(bitstream) =~= body + spec_zeros(pushed + 1));
            }
            pushed += 1;
        }
        proof {
            assert(terminator == min_int(4, 8 * (codeword_count as int) - body.len()));
            assert(bit_seq(bitstream) =~= term);
        }
        // Zero bits out to the byte boundary.
        let blen2 = bits_len(&bitstream);
        let ghost aligned = term + spec_zeros((8 - term.len() as int % 8) % 8);
        let align_rem = blen2 % 8;
        if align_rem > 0 {
            let need = 8 - align_rem;
            let mut p2: usize = 0;
            while p2 < need
                invariant
                    p2 <= need,
                    need <= 8,
                    blen2 == term.len(),
                    blen2 + need <= cap8,
                    cap8 <= 0x8000,
                    bit_seq(bitstream) == term + spec_zeros(p2 as int),
                decreases need - p2,
            {
                bits_push(&mut bitstream, false);
                proof {
                    assert(bit_seq(bitstream) =~= term + spec_zeros(p2 + 1));
                }
                p2 += 1;
            }
            proof {
                assert(bit_seq(bitstream) =~= aligned);
            }
        } else {
            proof {
                assert(aligned =~= term + spec_zeros(0));
                assert(bit_seq(bitstream) =~= aligned);
            }
        }
        // Pad codewords 0xEC, 0x11 out to the exact capacity.
        let mut cur = bits_len(&bitstream);
        let mut pad_index: usize = 0;
        proof {
            assert(bit_seq(bitstream) =~= aligned + bytes_bits(spec_pad_bytes(0)));
        }
        while cur < cap8
            invariant
                cur == bit_seq(bitstream).len(),
                cur % 8 == 0,
                cap8 % 8 == 0,
                cur <= cap8,
                cap8 <= 0x8000,
                cur == aligned.len() + 8 * pad_index,
                bit_seq(bitstream) == aligned + bytes_bits(spec_pad_bytes(pad_index as int)),
            decreases cap8 - cur,
        {
            let pad: u16 = if pad_index % 2 == 0 {
                0xEC
            } else {
                0x11
            };
            insert_into_data(&mut bitstream, pad, 8);
            proof {
                crate::bits::lemma_bytes_bits_push(spec_pad_bytes(pad_index as int), pad as u8);
                assert(value_bits(pad, 8) == byte_bits(pad as u8));
                assert(spec_pad_bytes(pad_index as int).push(pad as u8) =~= spec_pad_bytes(
                    pad_index + 1,
                ));
                assert(bit_seq(bitstream) =~= aligned + bytes_bits(spec_pad_bytes(pad_index + 1)));
            }
            cur += 8;
            pad_index += 1;
        }
        proof {
            assert(pad_index == (codeword_count as int) - aligned.len() as int / 8);
            assert(bit_seq(bitstream) =~= spec_frame_bits(
                old(self).encoding,
                old(self).character_count,
                packed,
                vnum,
                codeword_count as int,
            ));
        }
        Ok(bitstream)
    }

    /// The framed bitstream regrouped into data codewords, most
    /// significant bit first; fails exactly when framing does.
    pub fn codewords(&mut self, version: &Version, ecl: &ErrorCorrectionLevel) -> (r: Result<
        Vec<u8>,
        Error,
    >)
        requires
            old(self).wf(),
            version.wf(),
        ensures
            final(self).wf(),
            final(self).encoding == old(self).encoding,
            final(self).character_count == old(self).character_count,
            bit_seq(final(self).data) == Seq::<bool>::empty(),
            ({
                let cap = version.spec_values_at(*ecl).data_codewords as int;
                let len0 = spec_length_before_terminator(
                    old(self).encoding,
                    bit_seq(old(self).data).len() as int,
                    version.num as int,
                );
                match r {
                    Ok(cw) => len0 <= 8 * cap && cw@ == spec_bits_to_bytes(
                        spec_frame_bits(
                            old(self).encoding,
                            old(self).character_count,
                            bit_seq(old(self).data),
                            version.num as int,
                            cap,
                        ),
                    ) && cw@.len() == cap,
                    Err(_) => len0 > 8 * cap,
                }
            }),
    {
        let bs = match self.bitstream(version, ecl) {
            Ok(b) => b,
            Err(e) => {
                return Err(e);
            },
        };
        let total = bits_len(&bs);
        if total % 8 != 0 {
            return Err("The bitstream didn't come out in even bytes!".to_owned());
        }
        if total / 8 != version.codeword_count(ecl) {
            return Err("The bitstream has the wrong number of codewords for the version!".to_owned());
        }
        let count = total / 8;
        let mut out: Vec<u8> = Vec::new();
        let mut i: usize = 0;
        while i < count
            invariant
                i <= count,
                8 * count == bit_seq(bs).len(),
                count <= 0x1000,
                out@ == spec_bits_to_bytes(bit_seq(bs)).take(i as int),
            decreases count - i,
        {
            let base = i * 8;
            let v: u8 = (if bits_get(&bs, base) {
                128
            } else {
                0
            }) + (if bits_get(&bs, base + 1) {
                64
            } else {
                0
            }) + (if bits_get(&bs, base + 2) {
                32
            } else {
                0
            }) + (if bits_get(&bs, base + 3) {
                16
            } else {
                0
            }) + (if bits_get(&bs, base + 4) {
                8
            } else {
                0
            }) + (if bits_get(&bs, base + 5) {
                4
            } else {
                0
            }) + (if bits_get(&bs, base + 6) {
                2
            } else {
                0
            }) + (if bits_get(&bs, base + 7) {
                1
            } else {
                0
            });
            out.push(v);
            proof {
                assert(v == spec_byte_at(bit_seq(bs), 8 * (i as int)));
                assert(out@ =~= spec_bits_to_bytes(bit_seq(bs)).take(i + 1));
            }
            i += 1;
        }
        proof {
            assert(spec_bits_to_bytes(bit_seq(bs)).take(count as int) =~= spec_bits_to_bytes(
                bit_seq(bs),
            ));
        }
        Ok(out)
    }
}

} // verus!
