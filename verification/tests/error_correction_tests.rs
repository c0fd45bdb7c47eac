//! Tests of Reed-Solomon coding, block grouping and interleaving.

use qrust::encode::QRBitstreamEncoder;
use qrust::error_correction::{
    compute_ec_codewords, generator_polynomial, ErrorCorrectionLevel, GroupedCodewords,
};
use qrust::version::Version;

#[test]
fn test_generator_polynomial_3() {
    let three = generator_polynomial(3);
    assert_eq!(three, vec![7, 14, 8]);
}

#[test]
fn test_generator_polynomial_12() {
    let twelve = generator_polynomial(12);
    assert_eq!(twelve, vec![68, 119, 67, 118, 220, 31, 7, 84, 92, 127, 213, 97]);
}

#[test]
fn test_compute_ec_codewords() {
    let mut encoder = QRBitstreamEncoder::new("HELLO WORLD");
    let codewords = encoder
        .codewords(&Version::by_num(1), &ErrorCorrectionLevel::Medium)
        .unwrap();
    assert_eq!(
        compute_ec_codewords(&codewords, &generator_polynomial(10)),
        vec![196, 35, 39, 119, 235, 215, 231, 226, 93, 23]
    );
}

fn no_block2() -> GroupedCodewords {
    GroupedCodewords {
        version_data: Version::by_num(1).values_at_ecl(&ErrorCorrectionLevel::Quartile),
        group1_data: vec![vec![32, 91, 11, 120, 209, 114, 220, 77, 67, 64, 236, 17, 236]],
        group2_data: None,
        group1_ec: vec![vec![168, 72, 22, 82, 217, 54, 156, 0, 46, 15, 180, 122, 16]],
        group2_ec: None,
    }
}

fn block2() -> GroupedCodewords {
    GroupedCodewords {
        version_data: Version::by_num(5).values_at_ecl(&ErrorCorrectionLevel::Quartile),
        group1_data: vec![
            vec![67, 20, 134, 86, 198, 198, 242, 194, 7, 118, 247, 38, 198, 66, 18],
            vec![4, 146, 6, 22, 210, 6, 18, 7, 118, 86, 151, 38, 70, 199, 146],
        ],
        group2_data: Some(vec![
            vec![6, 54, 246, 215, 6, 198, 150, 54, 23, 70, 86, 66, 5, 21, 34, 6],
            vec![54, 246, 70, 82, 16, 236, 17, 236, 17, 236, 17, 236, 17, 236, 17, 236],
        ]),
        group1_ec: vec![
            vec![
                102, 248, 250, 159, 123, 170, 252, 51, 18, 31, 51, 24, 104, 188, 208, 136, 8,
                198,
            ],
            vec![
                123, 74, 15, 136, 193, 56, 23, 192, 192, 81, 252, 199, 239, 165, 100, 14, 60,
                235,
            ],
        ],
        group2_ec: Some(vec![
            vec![
                172, 221, 66, 59, 100, 224, 86, 252, 31, 180, 136, 45, 29, 191, 139, 107, 185,
                211,
            ],
            vec![
                133, 244, 41, 66, 140, 102, 194, 255, 224, 0, 1, 47, 66, 239, 248, 244, 134,
                241,
            ],
        ]),
    }
}

#[test]
fn test_no_block2() {
    let mut encoder = QRBitstreamEncoder::new("HELLO WORLD");
    let codewords = encoder
        .codewords(&Version::by_num(1), &ErrorCorrectionLevel::Quartile)
        .unwrap();

    let expected = no_block2();
    assert_eq!(GroupedCodewords::new(codewords, expected.version_data), expected);
}

#[test]
fn test_with_block2() {
    let mut encoder = QRBitstreamEncoder::new("Hello, world! I am a weirdly complicated QR code!");
    let codewords = encoder
        .codewords(&Version::by_num(5), &ErrorCorrectionLevel::Quartile)
        .unwrap();

    let expected = block2();
    assert_eq!(GroupedCodewords::new(codewords, expected.version_data), expected);
}

#[test]
fn test_data_no_block2() {
    let grouped = no_block2();
    assert_eq!(
        grouped.interleaved_data_codewords(),
        vec![32, 91, 11, 120, 209, 114, 220, 77, 67, 64, 236, 17, 236]
    );
}

#[test]
fn test_data_with_block2() {
    let grouped = block2();
    assert_eq!(
        grouped.interleaved_data_codewords(),
        vec![
            67, 4, 6, 54, 20, 146, 54, 246, 134, 6, 246, 70, 86, 22, 215, 82, 198, 210, 6, 16,
            198, 6, 198, 236, 242, 18, 150, 17, 194, 7, 54, 236, 7, 118, 23, 17, 118, 86, 70,
            236, 247, 151, 86, 17, 38, 38, 66, 236, 198, 70, 5, 17, 66, 199, 21, 236, 18, 146,
            34, 17, 6, 236
        ]
    );
}

#[test]
fn test_ec_no_block2() {
    let grouped = no_block2();
    assert_eq!(
        grouped.interleaved_ec_codewords(),
        vec![168, 72, 22, 82, 217, 54, 156, 0, 46, 15, 180, 122, 16]
    );
}

#[test]
fn test_ec_with_block2() {
    let grouped = block2();
    assert_eq!(
        grouped.interleaved_ec_codewords(),
        vec![
            102, 123, 172, 133, 248, 74, 221, 244, 250, 15, 66, 41, 159, 136, 59, 66, 123, 193,
            100, 140, 170, 56, 224, 102, 252, 23, 86, 194, 51, 192, 252, 255, 18, 192, 31, 224,
            31, 81, 180, 0, 51, 252, 136, 1, 24, 199, 45, 47, 104, 239, 29, 66, 188, 165, 191,
            239, 208, 100, 139, 248, 136, 14, 107, 244, 8, 60, 185, 134, 198, 235, 211, 241
        ]
    );
}
