//! Tests of alignment pattern placement and the zig-zag scanner.

use qrust::encode::QRBitstreamEncoder;
use qrust::error_correction::ErrorCorrectionLevel;
use qrust::pattern::{alignment_pattern_centers, alignment_pattern_coordinates, Coordinates, QRCode};
use qrust::version::Version;

#[test]
fn test_alignment_pattern_centers() {
    assert_eq!(alignment_pattern_centers(1), Vec::<usize>::new());
    assert_eq!(alignment_pattern_centers(6), vec![6, 34]);
    assert_eq!(alignment_pattern_centers(20), vec![6, 34, 62, 90]);
    assert_eq!(alignment_pattern_centers(32), vec![6, 34, 60, 86, 112, 138]);
    assert_eq!(alignment_pattern_centers(39), vec![6, 26, 54, 82, 110, 138, 166]);
    assert_eq!(alignment_pattern_centers(40), vec![6, 30, 58, 86, 114, 142, 170]);
}

#[test]
fn test_alignment_pattern_coordinates() {
    assert_eq!(alignment_pattern_coordinates(1), Vec::<Coordinates>::new());
    assert_eq!(
        alignment_pattern_coordinates(6),
        vec![(6, 6), (6, 34), (34, 6), (34, 34)]
    );
    assert_eq!(
        alignment_pattern_coordinates(7),
        vec![
            (6, 6),
            (6, 22),
            (6, 38),
            (22, 6),
            (22, 22),
            (22, 38),
            (38, 6),
            (38, 22),
            (38, 38)
        ]
    );
}

#[test]
fn test_zig_zag_scan_version_1() {
    // Cell (13, 8) completes the second fifteen-cell format strip, so the
    // scan passes over it.
    let code = QRCode::new(
        Version::by_num(1),
        QRBitstreamEncoder::new("Hello, world!")
            .bitstream(&Version::by_num(1), &ErrorCorrectionLevel::Low)
            .expect("WTFUX"),
    );
    let coords = code.zig_zag_scanner();
    assert_eq!(coords, [
        (20, 20), (19, 20), (20, 19), (19, 19), (20, 18), (19, 18), (20, 17), (19, 17), (20, 16),
        (19, 16), (20, 15), (19, 15), (20, 14), (19, 14), (20, 13), (19, 13), (20, 12), (19, 12),
        (20, 11), (19, 11), (20, 10), (19, 10), (20, 9), (19, 9), (18, 9), (17, 9), (18, 10),
        (17, 10), (18, 11), (17, 11), (18, 12), (17, 12), (18, 13), (17, 13), (18, 14), (17, 14),
        (18, 15), (17, 15), (18, 16), (17, 16), (18, 17), (17, 17), (18, 18), (17, 18), (18, 19),
        (17, 19), (16, 20), (15, 20), (16, 19), (15, 19), (16, 18), (15, 18), (16, 17), (15, 17),
        (16, 16), (15, 16), (16, 15), (15, 15), (16, 14), (15, 14), (16, 13), (15, 13), (16, 12),
        (15, 12), (16, 11), (15, 11), (16, 10), (15, 10), (16, 9), (15, 9), (14, 9),
        (13, 9), (14, 10), (13, 10), (14, 11), (13, 11), (14, 12), (13, 12), (14, 13), (13, 13),
        (14, 14), (13, 14), (14, 15), (13, 15), (14, 16), (13, 16), (14, 17), (13, 17), (14, 18),
        (13, 18), (14, 19), (13, 19), (12, 20), (11, 20), (12, 19), (11, 19), (12, 18), (11, 18),
        (12, 17), (11, 17), (12, 16), (11, 16), (12, 15), (11, 15), (12, 14), (11, 14), (12, 13),
        (11, 13), (12, 12), (11, 12), (12, 11), (11, 11), (12, 10), (11, 10), (12, 9), (11, 9),
        (12, 8), (11, 8), (12, 7), (11, 7), (12, 5), (11, 5), (12, 4), (11, 4), (12, 3), (11, 3),
        (12, 2), (11, 2), (12, 1), (11, 1), (12, 0), (11, 0), (10, 0), (9, 0), (10, 1), (9, 1),
        (10, 2), (9, 2), (10, 3), (9, 3), (10, 4), (9, 4), (10, 5), (9, 5), (10, 7), (9, 7),
        (10, 8), (9, 8), (10, 9), (9, 9), (10, 10), (9, 10), (10, 11), (9, 11), (10, 12),
        (9, 12), (10, 13), (9, 13), (10, 14), (9, 14), (10, 15), (9, 15), (10, 16), (9, 16),
        (10, 17), (9, 17), (10, 18), (9, 18), (10, 19), (9, 19), (8, 12), (7, 12), (8, 11),
        (7, 11), (8, 10), (7, 10), (8, 9), (7, 9), (5, 9), (4, 9), (5, 10), (4, 10), (5, 11),
        (4, 11), (5, 12), (4, 12), (3, 12), (2, 12), (3, 11), (2, 11), (3, 10), (2, 10), (3, 9),
        (2, 9), (1, 9), (0, 9), (1, 10), (0, 10), (1, 11), (0, 11), (1, 12), (0, 12)
    ]);
}
