//! A QR code encoder: text in, module matrix out.
//!
//! The pipeline selects the narrowest encoding mode, packs the input into
//! a bitstream, chooses the smallest version with room for it, frames and
//! pads the stream to the version's capacity, protects it with
//! Reed-Solomon error-correction codewords, interleaves the codewords
//! into transmission order, and places them in the module matrix.

use vstd::prelude::*;
use vstd::string::StringSliceAdditionalSpecFns;

pub mod bits;
pub mod encode;
pub mod error_correction;
pub mod pattern;
pub mod text;
pub mod version;

use crate::bits::bit_seq;
use crate::encode::{
    spec_bits_to_bytes, spec_choose_encoding, spec_frame_bits, spec_packed_bits,
    QRBitstreamEncoder, MAX_INPUT_BYTES,
};
use crate::error_correction::{bitstream_with_ec, spec_bitstream_with_ec, ErrorCorrectionLevel};
use crate::pattern::{spec_qr_matrix, QRCode};
use crate::version::{
    choose_version, lemma_no_version_fits_when_long, spec_version, spec_version_fits,
};

verus! {

/// Descriptive-message error type surfaced to callers.
pub type Error = String;

/// The finished matrix for an input at a version: the packed input is
/// framed to the version's capacity, regrouped into codewords, protected
/// and interleaved, and placed into the matrix.
pub open spec fn spec_encoded_symbol(data: &str, ecl: ErrorCorrectionLevel, vnum: int) -> Seq<
    Seq<crate::pattern::Module>,
> {
    let e = spec_choose_encoding(data@);
    let vd = spec_version(vnum).spec_values_at(ecl);
    let frame = spec_frame_bits(
        e,
        data.spec_bytes().len() as u16,
        spec_packed_bits(e, data),
        vnum,
        vd.data_codewords as int,
    );
    spec_qr_matrix(
        spec_version(vnum),
        spec_bitstream_with_ec(spec_bits_to_bytes(frame), vd),
    )
}

/// Encodes the input at the given error-correction level into a QR code
/// matrix, at the first version with room for it; errors exactly when no
/// version up to forty can hold the input.
pub fn create_qr_code(data: &str, ecl: ErrorCorrectionLevel) -> (r: Result<QRCode, Error>)
    ensures
        ({
            let e = spec_choose_encoding(data@);
            let plen = spec_packed_bits(e, data).len() as int;
            match r {
                Ok(code) => {
                    &&& code.wf()
                    &&& 1 <= code.version.num <= 40
                    &&& code.version == spec_version(code.version.num as int)
                    &&& spec_version_fits(e, plen, ecl, code.version.num as int)
                    &&& forall|w: int|
                        1 <= w < code.version.num ==> !spec_version_fits(e, plen, ecl, w)
                    &&& code.grid() == spec_encoded_symbol(data, ecl, code.version.num as int)
                },
                Err(_) => forall|w: int| 1 <= w <= 40 ==> !spec_version_fits(e, plen, ecl, w),
            }
        }),
{
    let byte_len = data.as_bytes().len();
    if byte_len > MAX_INPUT_BYTES {
        proof {
            lemma_no_version_fits_when_long(data, ecl);
        }
        return Err("The data is too long for a QR code at that error correction level!".to_owned());
    }
    let mut encoder = QRBitstreamEncoder::new(data);
    let version = match choose_version(&encoder, &ecl) {
        Ok(v) => v,
        Err(e) => {
            return Err(e);
        },
    };
    let version_ecl_data = version.values_at_ecl(&ecl);
    let data_codewords = match encoder.codewords(&version, &ecl) {
        Ok(cw) => cw,
        Err(e) => {
            return Err(e);
        },
    };
    let data_with_ec = bitstream_with_ec(data_codewords, version_ecl_data);
    Ok(QRCode::new(version, data_with_ec))
}

} // verus!
