//! End-to-end and edge-case tests of the encoder pipeline.

use qrust::bits::{bits_bools, bits_new};
use qrust::create_qr_code;
use qrust::encode::{choose_encoding, QRBitstreamEncoder, QREncoding};
use qrust::error_correction::{gf256_multiply, generator_polynomial, ErrorCorrectionLevel};
use qrust::pattern::{Module, QRCode};
use qrust::version::Version;
use std::str::FromStr;

fn bools(bits: &[u8]) -> Vec<bool> {
    bits.iter().map(|&b| b != 0).collect()
}

#[test]
fn test_numeric_group_bit_widths() {
    // Three digits pack their value in ten bits, two in seven, one in four.
    assert_eq!(
        bits_bools(&QREncoding::Numeric.encode("123")),
        bools(&[0, 0, 0, 1, 1, 1, 1, 0, 1, 1])
    );
    assert_eq!(
        bits_bools(&QREncoding::Numeric.encode("12")),
        bools(&[0, 0, 0, 1, 1, 0, 0])
    );
    assert_eq!(bits_bools(&QREncoding::Numeric.encode("1")), bools(&[0, 0, 0, 1]));
}

#[test]
fn test_choose_encoding_empty_and_downgrade() {
    assert_eq!(choose_encoding(""), QREncoding::Numeric);
    // One lowercase letter anywhere downgrades the whole string to bytes.
    assert_eq!(choose_encoding("123a45"), QREncoding::Bytes);
    assert_eq!(choose_encoding("a12345"), QREncoding::Bytes);
    assert_eq!(choose_encoding("12345a"), QREncoding::Bytes);
}

#[test]
fn test_ecl_tokens() {
    assert_eq!(ErrorCorrectionLevel::from_token("low"), Ok(ErrorCorrectionLevel::Low));
    assert_eq!(ErrorCorrectionLevel::from_token("medium"), Ok(ErrorCorrectionLevel::Medium));
    assert_eq!(
        ErrorCorrectionLevel::from_token("quartile"),
        Ok(ErrorCorrectionLevel::Quartile)
    );
    assert_eq!(ErrorCorrectionLevel::from_token("high"), Ok(ErrorCorrectionLevel::High));
    // Tokens are exact and case-sensitive; anything else is a
    // configuration error.
    assert!(ErrorCorrectionLevel::from_token("LOW").is_err());
    assert!(ErrorCorrectionLevel::from_token("qua").is_err());
    assert!(ErrorCorrectionLevel::from_token("").is_err());
    assert_eq!(
        ErrorCorrectionLevel::from_str("quartile"),
        Ok(ErrorCorrectionLevel::Quartile)
    );
    // The configuration error names the rejected token.
    assert_eq!(
        ErrorCorrectionLevel::from_token("wat"),
        Err("Unknown error correction level wat (options are low, medium, quartile, high)"
            .to_string())
    );
}

#[test]
fn test_gf256_multiply_values() {
    // 2 * 128 overflows the field and reduces by the field polynomial.
    assert_eq!(gf256_multiply(128, 2), 29);
    assert_eq!(gf256_multiply(2, 128), 29);
    assert_eq!(gf256_multiply(0, 77), 0);
    assert_eq!(gf256_multiply(1, 77), 77);
    // The degree-two generator is (x - 1)(x - 2) = x^2 + 3x + 2.
    assert_eq!(generator_polynomial(2), vec![3, 2]);
}

#[test]
fn test_module_black_values() {
    assert!(!Module::Unset.black());
    assert!(Module::Dark.black());
    assert!(Module::Data(true).black());
    assert!(!Module::Data(false).black());
    assert!(Module::Finder(true).black());
    assert!(!Module::Format(false).black());
    assert!(Module::TimingHorizontal(true).black());
    assert!(!Module::TimingVertical(false).black());
    assert!(Module::Version(true).black());
    assert!(!Module::Alignment(false).black());
}

#[test]
fn test_create_qr_code_hello_world() {
    let code = create_qr_code("HELLO WORLD", ErrorCorrectionLevel::Medium).unwrap();
    assert_eq!(code.version.num, 1);
    assert_eq!(code.rows.len(), 21);
    for row in &code.rows {
        assert_eq!(row.len(), 21);
    }
    // The finder corners are black, the dark module is set, and the
    // timing bands start black.
    assert!(code.rows[0][0].black());
    assert!(code.rows[20][0].black());
    assert!(code.rows[0][20].black());
    assert_eq!(code.rows[8][13], Module::Dark);
    assert_eq!(code.rows[8][6], Module::TimingHorizontal(true));
    assert_eq!(code.rows[6][8], Module::TimingVertical(true));
    // The separator ring around the top-left finder is white.
    assert_eq!(code.rows[7][0], Module::Finder(false));
    assert_eq!(code.rows[0][7], Module::Finder(false));
    // Both format strips are fully reserved: fifteen cells around the
    // top-left corner, and eight beside the top-right finder plus seven
    // beside the bottom-left one.
    assert_eq!(code.rows[8][8], Module::Format(false));
    assert_eq!(code.rows[13][8], Module::Format(false));
    assert_eq!(code.rows[20][8], Module::Format(false));
    assert_eq!(code.rows[8][14], Module::Format(false));
    assert_eq!(code.rows[8][20], Module::Format(false));
}

#[test]
fn test_create_qr_code_empty_input() {
    let code = create_qr_code("", ErrorCorrectionLevel::Low).unwrap();
    assert_eq!(code.version.num, 1);
}

#[test]
fn test_create_qr_code_alignment_pattern() {
    // Version 2 has one alignment pattern centred at (18, 18).
    let code = create_qr_code(&"7".repeat(50), ErrorCorrectionLevel::Low).unwrap();
    assert_eq!(code.version.num, 2);
    assert_eq!(code.rows[18][18], Module::Alignment(true));
    assert_eq!(code.rows[17][18], Module::Alignment(false));
    assert_eq!(code.rows[16][18], Module::Alignment(true));
}

#[test]
fn test_create_qr_code_too_long() {
    let huge = "a".repeat(20000);
    assert!(create_qr_code(&huge, ErrorCorrectionLevel::Low).is_err());
    let barely_too_long = "9".repeat(7090);
    assert!(create_qr_code(&barely_too_long, ErrorCorrectionLevel::Low).is_err());
}

#[test]
fn test_bitstream_overflow_is_reported() {
    // A version too small for the data makes framing fail.
    let mut encoder = QRBitstreamEncoder::new("this string cannot fit into a version one code");
    assert!(encoder
        .bitstream(&Version::by_num(1), &ErrorCorrectionLevel::High)
        .is_err());
}

#[test]
fn test_zig_zag_scan_never_repeats_or_hits_timing_column() {
    let code = create_qr_code("0123456789", ErrorCorrectionLevel::Low).unwrap();
    let coords = code.zig_zag_scanner();
    for (i, c) in coords.iter().enumerate() {
        assert_ne!(c.0, 6);
        for c2 in &coords[i + 1..] {
            assert_ne!(c, c2);
        }
    }
}

#[test]
fn test_padding_codewords_alternate() {
    // "HELLO WORLD" at version 1 medium leaves room for padding, which
    // cycles 0xEC, 0x11.
    let mut encoder = QRBitstreamEncoder::new("HELLO WORLD");
    let codewords = encoder
        .codewords(&Version::by_num(1), &ErrorCorrectionLevel::Medium)
        .unwrap();
    assert_eq!(codewords.len(), 16);
    assert_eq!(&codewords[10..], &[0xEC, 0x11, 0xEC, 0x11, 0xEC, 0x11]);
}

#[test]
fn test_alignment_pattern_leaves_timing_band() {
    // Version 7 has an alignment pattern centred at (22, 6), whose box
    // crosses the horizontal timing band; the band keeps its cells.
    let code = QRCode::new(Version::by_num(7), bits_new());
    assert_eq!(code.rows[20][6], Module::TimingHorizontal(true));
    assert_eq!(code.rows[21][6], Module::TimingHorizontal(false));
    assert_eq!(code.rows[22][6], Module::TimingHorizontal(true));
    // Off the band the box is stamped as usual.
    assert_eq!(code.rows[20][4], Module::Alignment(true));
    assert_eq!(code.rows[21][5], Module::Alignment(false));
    assert_eq!(code.rows[22][8], Module::Alignment(true));
}
