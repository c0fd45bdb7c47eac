//! Tests of encoding-mode selection and bitstream assembly.

use qrust::bits::{bits_bools, bytes_to_bitvec};
use qrust::encode::{choose_encoding, QRBitstreamEncoder, QREncoding};
use qrust::error_correction::ErrorCorrectionLevel;
use qrust::version::Version;

fn bools(bits: &[u8]) -> Vec<bool> {
    bits.iter().map(|&b| b != 0).collect()
}

#[test]
fn test_choose_encoding() {
    assert_eq!(choose_encoding("0051023159"), QREncoding::Numeric);
    assert_eq!(choose_encoding("0051023159 ASDABGVASXD$-"), QREncoding::Alphanumeric);
    assert_eq!(choose_encoding("00510231 59asfasdASDASFGAQS"), QREncoding::Bytes);
    assert_eq!(choose_encoding("I am the Code"), QREncoding::Bytes);
    assert_eq!(choose_encoding("\u{41f}\u{440}\u{438}\u{432}\u{435}\u{442}, \u{43c}\u{438}\u{440}!"), QREncoding::Bytes);
}

#[test]
fn test_encode_numeric() {
    let data = "12300001010";
    let encoding = choose_encoding(data);
    let encoded = encoding.encode(data);
    let encoded_bits = bits_bools(&encoded);
    assert_eq!(encoded_bits.len(), 37);
    assert_eq!(
        encoded_bits,
        bools(&[
            0, 0, 0, 1, 1, 1, 1, 0, 1, 1, 0, 0, 0, 0, 0, 0, 0, 0, 0, 0, 0, 0, 0, 0, 0, 0, 1, 0, 1, 0,
            0, 0, 0, 1, 0, 1, 0
        ])
    );
}

#[test]
fn test_encode_hello_world() {
    let data = "HELLO WORLD";
    let encoding = choose_encoding(data);
    let encoded = encoding.encode(data);
    let encoded_bits = bits_bools(&encoded);
    assert_eq!(encoded_bits.len(), 61);
    assert_eq!(
        encoded_bits,
        bools(&[
            0, 1, 1, 0, 0, 0, 0, 1, 0, 1, 1, 0, 1, 1, 1, 1, 0, 0, 0, 1, 1, 0, 1, 0, 0, 0, 1, 0, 1, 1,
            1, 0, 0, 1, 0, 1, 1, 0, 1, 1, 1, 0, 0, 0, 1, 0, 0, 1, 1, 0, 1, 0, 1, 0, 0, 0, 0, 1, 1, 0,
            1
        ])
    );
}

#[test]
fn test_encode_byte_iso8859() {
    let data = "Hello, world!";
    let encoding = choose_encoding(data);
    assert_eq!(
        bits_bools(&encoding.encode(data)),
        bits_bools(&bytes_to_bitvec(vec![
            0x48, 0x65, 0x6c, 0x6c, 0x6f, 0x2c, 0x20, 0x77, 0x6f, 0x72, 0x6c, 0x64, 0x21
        ]))
    );
}

#[test]
fn test_encode_byte_utf8() {
    let data = "\u{41f}\u{440}\u{438}\u{432}\u{435}\u{442}, \u{43c}\u{438}\u{440}!";
    let encoding = choose_encoding(data);
    assert_eq!(
        bits_bools(&encoding.encode(data)),
        bits_bools(&bytes_to_bitvec(vec![
            208, 159, 209, 128, 208, 184, 208, 178, 208, 181, 209, 130, 44, 32, 208, 188, 208,
            184, 209, 128, 33
        ]))
    );
}

#[test]
fn test_numeric() {
    let mut encoder = QRBitstreamEncoder::new("12300001010");
    assert_eq!(encoder.bitstream_length_before_terminator(1), 51);
    assert_eq!(encoder.bitstream_length_before_terminator(9), 51);
    assert_eq!(encoder.bitstream_length_before_terminator(10), 53);
    assert_eq!(encoder.bitstream_length_before_terminator(25), 53);
    assert_eq!(encoder.bitstream_length_before_terminator(39), 55);
    assert_eq!(encoder.bitstream_length_before_terminator(40), 55);

    assert_eq!(encoder.codeword_count_before_padding(1), 7);
    assert_eq!(encoder.codeword_count_before_padding(9), 7);
    assert_eq!(encoder.codeword_count_before_padding(10), 7);
    assert_eq!(encoder.codeword_count_before_padding(25), 7);
    assert_eq!(encoder.codeword_count_before_padding(39), 7);
    assert_eq!(encoder.codeword_count_before_padding(40), 7);

    assert_eq!(
        bits_bools(
            &encoder
                .bitstream(&Version::by_num(1), &ErrorCorrectionLevel::Medium)
                .unwrap()
        ),
        bools(&[
            0, 0, 0, 1, 0, 0, 0, 0, 0, 0, 1, 0, 1, 1, 0, 0, 0, 1, 1, 1, 1, 0, 1, 1, 0, 0, 0, 0, 0, 0,
            0, 0, 0, 0, 0, 0, 0, 0, 0, 0, 1, 0, 1, 0, 0, 0, 0, 1, 0, 1, 0, 0, 0, 0, 0, 0, 1, 1, 1, 0,
            1, 1, 0, 0, 0, 0, 0, 1, 0, 0, 0, 1, 1, 1, 1, 0, 1, 1, 0, 0, 0, 0, 0, 1, 0, 0, 0, 1, 1, 1,
            1, 0, 1, 1, 0, 0, 0, 0, 0, 1, 0, 0, 0, 1, 1, 1, 1, 0, 1, 1, 0, 0, 0, 0, 0, 1, 0, 0, 0, 1,
            1, 1, 1, 0, 1, 1, 0, 0
        ])
    );
}

#[test]
fn test_alphanumeric() {
    let mut encoder = QRBitstreamEncoder::new(
        "12300001010AGASSLKDJOAKSJDGPIOIASDFGKJAHSSDGFKJHSDGLKJSHDLJKFHSDFJ  SDKLJFHSLKDJFHSLKDJHFLSDJKHF",
    );

    assert_eq!(encoder.bitstream_length_before_terminator(1), 541);
    assert_eq!(encoder.bitstream_length_before_terminator(9), 541);
    assert_eq!(encoder.bitstream_length_before_terminator(10), 543);
    assert_eq!(encoder.bitstream_length_before_terminator(25), 543);
    assert_eq!(encoder.bitstream_length_before_terminator(39), 545);
    assert_eq!(encoder.bitstream_length_before_terminator(40), 545);

    assert_eq!(encoder.codeword_count_before_padding(1), 68);
    assert_eq!(encoder.codeword_count_before_padding(9), 68);
    assert_eq!(encoder.codeword_count_before_padding(10), 68);
    assert_eq!(encoder.codeword_count_before_padding(25), 68);
    assert_eq!(encoder.codeword_count_before_padding(39), 69);
    assert_eq!(encoder.codeword_count_before_padding(40), 69);

    assert_eq!(
        bits_bools(
            &encoder
                .bitstream(&Version::by_num(5), &ErrorCorrectionLevel::Medium)
                .unwrap()
        ),
        bools(&[
            0, 0, 1, 0, 0, 0, 1, 1, 0, 0, 0, 0, 0, 0, 0, 0, 0, 0, 1, 0, 1, 1, 1, 1, 0, 0, 0, 1, 0, 0,
            0, 0, 1, 1, 1, 0, 0, 0, 0, 0, 0, 0, 0, 0, 0, 0, 0, 0, 0, 0, 0, 0, 0, 0, 0, 0, 1, 0, 0, 0,
            0, 0, 0, 0, 0, 0, 0, 1, 0, 0, 0, 0, 0, 0, 0, 1, 0, 1, 0, 0, 1, 0, 1, 1, 0, 1, 1, 0, 1, 0,
            1, 0, 1, 0, 0, 0, 0, 1, 0, 0, 0, 0, 1, 1, 1, 1, 0, 0, 0, 1, 0, 1, 0, 1, 0, 0, 1, 0, 1, 1,
            1, 0, 0, 1, 0, 0, 0, 1, 0, 0, 0, 0, 1, 0, 0, 1, 1, 1, 0, 1, 0, 0, 0, 0, 0, 0, 1, 1, 0, 1,
            1, 0, 0, 1, 0, 0, 0, 1, 0, 1, 1, 1, 0, 1, 0, 0, 1, 0, 1, 1, 0, 1, 0, 0, 0, 0, 1, 0, 0, 1,
            1, 0, 0, 1, 1, 0, 1, 0, 0, 1, 0, 0, 1, 1, 1, 1, 1, 0, 0, 1, 0, 1, 0, 1, 0, 1, 1, 0, 0, 1,
            1, 0, 1, 1, 1, 0, 0, 1, 0, 1, 1, 1, 0, 0, 1, 1, 1, 0, 1, 0, 0, 1, 1, 1, 0, 1, 0, 0, 0, 0,
            1, 0, 0, 0, 0, 1, 0, 0, 1, 0, 1, 1, 0, 0, 1, 0, 1, 0, 1, 0, 1, 1, 0, 1, 1, 1, 0, 1, 1, 0,
            1, 1, 0, 1, 0, 0, 0, 1, 0, 0, 1, 1, 1, 1, 1, 0, 0, 1, 0, 1, 0, 1, 1, 1, 0, 0, 1, 0, 1, 0,
            1, 1, 1, 0, 0, 1, 0, 1, 1, 1, 1, 0, 0, 1, 1, 1, 1, 1, 1, 0, 1, 0, 1, 0, 0, 1, 0, 1, 1, 1,
            1, 0, 0, 1, 1, 0, 1, 1, 0, 1, 0, 1, 1, 0, 1, 0, 1, 0, 1, 1, 0, 1, 0, 0, 1, 0, 0, 1, 1, 1,
            1, 1, 0, 0, 1, 0, 1, 0, 1, 0, 1, 1, 0, 1, 1, 0, 1, 1, 0, 0, 1, 1, 1, 1, 0, 0, 0, 1, 0, 0,
            1, 1, 1, 1, 1, 0, 0, 1, 0, 1, 1, 1, 0, 0, 1, 1, 0, 0, 1, 0, 1, 1, 0, 1, 1, 0, 0, 1, 1, 0,
            0, 1, 1, 0, 0, 0, 1, 1, 0, 0, 1, 0, 1, 1, 1, 1, 0, 0, 0, 1, 0, 1, 0, 1, 0, 0, 1, 0, 1, 1,
            1, 0, 0, 0, 1, 0, 1, 0, 1, 1, 0, 1, 0, 0, 1, 0, 1, 0, 0, 0, 0, 0, 0, 0, 1, 0, 1, 1, 1, 0,
            0, 1, 0, 0, 0, 1, 0, 1, 1, 0, 1, 1, 0, 1, 0, 0, 0, 0, 1, 0, 1, 0, 1, 1, 1, 0, 0, 0, 1, 0,
            0, 1, 1, 1, 1, 1, 0, 0, 1, 0, 1, 1, 0, 1, 1, 0, 1, 0, 1, 1, 0, 1, 1, 0, 0, 0, 0, 1, 1, 0,
            0, 0, 0, 0, 0, 0, 0, 0, 0, 0, 0, 0, 1, 1, 1, 0, 1, 1, 0, 0, 0, 0, 0, 1, 0, 0, 0, 1, 1, 1,
            1, 0, 1, 1, 0, 0, 0, 0, 0, 1, 0, 0, 0, 1, 1, 1, 1, 0, 1, 1, 0, 0, 0, 0, 0, 1, 0, 0, 0, 1,
            1, 1, 1, 0, 1, 1, 0, 0, 0, 0, 0, 1, 0, 0, 0, 1, 1, 1, 1, 0, 1, 1, 0, 0, 0, 0, 0, 1, 0, 0,
            0, 1, 1, 1, 1, 0, 1, 1, 0, 0, 0, 0, 0, 1, 0, 0, 0, 1, 1, 1, 1, 0, 1, 1, 0, 0, 0, 0, 0, 1,
            0, 0, 0, 1, 1, 1, 1, 0, 1, 1, 0, 0, 0, 0, 0, 1, 0, 0, 0, 1, 1, 1, 1, 0, 1, 1, 0, 0
        ])
    );
}

#[test]
fn test_bytes() {
    let encoder = QRBitstreamEncoder::new(
        "Golden ratio \u{3c6} = 1.6180339887498948482045868343656381177203091798057628621354486227052604628189024497072072041893911374......"
    );
    assert_eq!(encoder.bitstream_length_before_terminator(1), 1020);
    assert_eq!(encoder.bitstream_length_before_terminator(9), 1020);
    assert_eq!(encoder.bitstream_length_before_terminator(10), 1028);
    assert_eq!(encoder.bitstream_length_before_terminator(25), 1028);
    assert_eq!(encoder.bitstream_length_before_terminator(39), 1028);
    assert_eq!(encoder.bitstream_length_before_terminator(40), 1028);

    assert_eq!(encoder.codeword_count_before_padding(1), 128);
    assert_eq!(encoder.codeword_count_before_padding(9), 128);
    assert_eq!(encoder.codeword_count_before_padding(10), 129);
    assert_eq!(encoder.codeword_count_before_padding(25), 129);
    assert_eq!(encoder.codeword_count_before_padding(39), 129);
    assert_eq!(encoder.codeword_count_before_padding(40), 129);
}

#[test]
fn test_bytes_bitstream() {
    let mut encoder = QRBitstreamEncoder::new("a\u{409}\u{c707}\u{1f631}");
    assert_eq!(
        bits_bools(
            &encoder
                .bitstream(&Version::by_num(2), &ErrorCorrectionLevel::High)
                .unwrap()
        ),
        bools(&[
            0, 1, 0, 0, 0, 0, 0, 0, 1, 0, 1, 0, 0, 1, 1, 0, 0, 0, 0, 1, 1, 1, 0, 1, 0, 0, 0, 0, 1, 0,
            0, 0, 1, 0, 0, 1, 1, 1, 1, 0, 1, 1, 0, 0, 1, 0, 0, 1, 1, 1, 0, 0, 1, 0, 0, 0, 0, 1, 1, 1,
            1, 1, 1, 1, 0, 0, 0, 0, 1, 0, 0, 1, 1, 1, 1, 1, 1, 0, 0, 1, 1, 0, 0, 0, 1, 0, 1, 1, 0, 0,
            0, 1, 0, 0, 0, 0, 1, 1, 1, 0, 1, 1, 0, 0, 0, 0, 0, 1, 0, 0, 0, 1, 1, 1, 1, 0, 1, 1, 0, 0,
            0, 0, 0, 1, 0, 0, 0, 1
        ])
    );
}

#[test]
fn test_bytes_into_codewords() {
    let mut encoder =
        QRBitstreamEncoder::new("Hello, world! I am a weirdly complicated QR code!");
    assert_eq!(
        encoder
            .codewords(&Version::by_num(5), &ErrorCorrectionLevel::Quartile)
            .unwrap(),
        vec![
            0x43, 0x14, 0x86, 0x56, 0xC6, 0xC6, 0xF2, 0xC2, 0x07, 0x76, 0xF7, 0x26, 0xC6, 0x42,
            0x12, 0x04, 0x92, 0x06, 0x16, 0xD2, 0x06, 0x12, 0x07, 0x76, 0x56, 0x97, 0x26, 0x46,
            0xC7, 0x92, 0x06, 0x36, 0xF6, 0xD7, 0x06, 0xC6, 0x96, 0x36, 0x17, 0x46, 0x56, 0x42,
            0x05, 0x15, 0x22, 0x06, 0x36, 0xF6, 0x46, 0x52, 0x10, 0xEC, 0x11, 0xEC, 0x11, 0xEC,
            0x11, 0xEC, 0x11, 0xEC, 0x11, 0xEC
        ],
    );
}
