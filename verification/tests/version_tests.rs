//! Tests of the version capacity table and version selection.

use qrust::encode::QRBitstreamEncoder;
use qrust::error_correction::ErrorCorrectionLevel;
use qrust::version::{choose_version, Version};

#[test]
fn test_codewords_add_up() {
    // This really only checks that the table matches the standard.
    for num in 1..=40usize {
        let ver = Version::by_num(num);
        for ecl_data in [&ver.l_data, &ver.m_data, &ver.q_data, &ver.h_data] {
            let group1 = ecl_data.group1.codewords as usize * ecl_data.group1.blocks as usize;
            let group2 = ecl_data
                .group2
                .as_ref()
                .map(|grp| grp.codewords as usize * grp.blocks as usize)
                .unwrap_or(0);
            assert_eq!(group1 + group2, ecl_data.data_codewords);
        }
    }
}

#[test]
fn test_modules_per_side() {
    assert_eq!(Version::by_num(1).modules_per_side(), 21);
    assert_eq!(Version::by_num(6).modules_per_side(), 41);
    assert_eq!(Version::by_num(40).modules_per_side(), 177);
}

#[test]
fn test_choose_version_low() {
    let encoder = QRBitstreamEncoder::new("12300001010");
    assert_eq!(
        choose_version(&encoder, &ErrorCorrectionLevel::Low).unwrap().num,
        1
    );
}

#[test]
fn test_choose_version_medium() {
    let encoder = QRBitstreamEncoder::new("12300001010ASKOIDGOAS");
    assert_eq!(
        choose_version(&encoder, &ErrorCorrectionLevel::Medium).unwrap().num,
        2
    );
}

#[test]
fn test_choose_version_quartile() {
    let encoder = QRBitstreamEncoder::new("12300001010asdfgbasdfsadfASAEDFGSDGSDG");
    assert_eq!(
        choose_version(&encoder, &ErrorCorrectionLevel::Quartile).unwrap().num,
        4
    );
}

#[test]
fn test_choose_version_high() {
    let encoder = QRBitstreamEncoder::new(
        "Pi \u{3c0} = 3.14159265358979323846264338327950288419716939937510582097494459230781640628620899862803482534211706798214808651328230664709384460955058223172535940812848111745028410270193852110555964462294895493038196442881097566593344612847564823378678316527120190914564856692346034861045432664821339360726024914127372458700660631558817488152092096282925409171536436789259036001133053054882046652138414695194151160943305727036575959195309218611738193261179310511854807446237996274956735188575272489122793818301194912983367336244065664308602139494639522473719070217986094370277053921717629317675238467481846766940513200056812714526356082778577134275778960917363717872146844090122495343014654958537105079227968925892354201995611212902196086403441815981362977477130996051870721134999999837297804995105973173281609631859502445945534690830264252230825334468503526193118817101000313783875288658753320838142061717766914730359825349042875546873115956286388235378759375195778185778053217122680661300192787661119590921642019893809525720106548586327886593615338182796823030195203530185296899577362259941389124972177528347913151557485724245...",
    );
    assert_eq!(
        choose_version(&encoder, &ErrorCorrectionLevel::High).unwrap().num,
        38
    );
}
