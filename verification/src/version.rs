//! The per-version capacity table: forty versions, each with one
//! capacity record per error-correction level.
//!
//! The table is static reference data taken from the QR standard; versions
//! are looked up, never constructed at runtime.

use vstd::prelude::*;
use vstd::string::StringSliceAdditionalSpecFns;
use crate::bits::{bit_seq, lemma_bytes_bits_len};
use crate::encode::{
    lemma_alnum_bits_len, lemma_alnum_is_ascii, lemma_numeric_bits_len, lemma_numeric_is_ascii,
    lemma_utf8_len_ascii, lemma_utf8_len_latin1, spec_choose_encoding,
    spec_codeword_count_before_padding, spec_encoded_bytes, spec_fits_latin1, spec_packed_bits,
    QRBitstreamEncoder, QREncoding, MAX_INPUT_BYTES,
};
use crate::error_correction::ErrorCorrectionLevel;
use crate::Error;

verus! {

/// Whether a version can hold the stream: its data-codeword capacity
/// strictly exceeds the codewords the stream needs before padding, since
/// an exact fit leaves no room for the terminator.
pub open spec fn spec_version_fits(
    e: QREncoding,
    packed_len: int,
    ecl: ErrorCorrectionLevel,
    vnum: int,
) -> bool {
    spec_codeword_count_before_padding(e, packed_len, vnum) < spec_version(
        vnum,
    ).spec_values_at(ecl).data_codewords
}

/// One group of equally sized data-codeword blocks.
#[derive(Clone, Copy, Debug, PartialEq, Eq, Structural)]
pub struct VersionGroup {
    pub blocks: u8,
    pub codewords: u8,
}

/// The capacity data of one version at one error-correction level.
#[derive(Clone, Copy, Debug, PartialEq, Eq)]
pub struct VersionEclData {
    pub data_codewords: usize,
    pub ec_codewords_per_block: u8,
    pub group1: VersionGroup,
    pub group2: Option<VersionGroup>,
}

impl VersionEclData {
    /// Codewords held by the second block group, or zero without one.
    pub open spec fn spec_group2_codewords(self) -> int {
        match self.group2 {
            Some(g) => g.blocks * g.codewords,
            None => 0,
        }
    }

    /// Blocks over both groups.
    pub open spec fn spec_total_blocks(self) -> int {
        self.group1.blocks + match self.group2 {
            Some(g) => g.blocks as int,
            None => 0,
        }
    }

    /// The longest block length over both groups.
    pub open spec fn spec_max_codewords_per_block(self) -> int {
        match self.group2 {
            Some(g) => if g.codewords >= self.group1.codewords {
                g.codewords as int
            } else {
                self.group1.codewords as int
            },
            None => self.group1.codewords as int,
        }
    }

    /// Error-correction codewords over all blocks.
    pub open spec fn spec_total_ec_codewords(self) -> int {
        self.ec_codewords_per_block * self.spec_total_blocks()
    }

    /// A capacity record is consistent: both block groups are non-empty
    /// when present, the second group's blocks hold exactly one codeword
    /// more than the first group's, and the groups partition exactly the
    /// data codewords.
    pub open spec fn wf(self) -> bool {
        &&& 1 <= self.group1.blocks
        &&& 1 <= self.group1.codewords
        &&& 1 <= self.ec_codewords_per_block <= 30
        &&& match self.group2 {
            Some(g) => 1 <= g.blocks && g.codewords == self.group1.codewords + 1,
            None => true,
        }
        &&& self.data_codewords == self.group1.blocks * self.group1.codewords
            + self.spec_group2_codewords()
        &&& self.data_codewords <= 2956
        &&& self.spec_total_blocks() <= 81
    }

    /// The longest block length over both groups.
    pub fn max_codewords_per_group(&self) -> (r: usize)
        ensures
            r == self.spec_max_codewords_per_block(),
    {
        let g1: usize = self.group1.codewords as usize;
        match self.group2 {
            Some(g) => if g.codewords as usize >= g1 {
                g.codewords as usize
            } else {
                g1
            },
            None => g1,
        }
    }

    /// Error-correction codewords over all blocks.
    pub fn total_ec_codewords(&self) -> (r: usize)
        requires
            self.wf(),
        ensures
            r == self.spec_total_ec_codewords(),
    {
        let blocks: usize = self.group1.blocks as usize + match self.group2 {
            Some(g) => g.blocks as usize,
            None => 0,
        };
        proof {
            assert(self.ec_codewords_per_block as int * blocks as int <= 30 * 81)
                by (nonlinear_arith)
                requires
                    self.ec_codewords_per_block <= 30,
                    blocks <= 81,
            ;
        }
        self.ec_codewords_per_block as usize * blocks
    }
}

/// A QR code version, numbered 1 to 40, with its capacity record for each
/// error-correction level.
#[derive(Clone, Copy, Debug, PartialEq, Eq)]
pub struct Version {
    pub num: u8,
    pub l_data: VersionEclData,
    pub m_data: VersionEclData,
    pub q_data: VersionEclData,
    pub h_data: VersionEclData,
}

impl Version {
    /// The capacity record this level selects.
    pub open spec fn spec_values_at(self, ecl: ErrorCorrectionLevel) -> VersionEclData {
        match ecl {
            ErrorCorrectionLevel::Low => self.l_data,
            ErrorCorrectionLevel::Medium => self.m_data,
            ErrorCorrectionLevel::Quartile => self.q_data,
            ErrorCorrectionLevel::High => self.h_data,
        }
    }

    /// A version is consistent when its number is in range and each of its
    /// four capacity records is.
    pub open spec fn wf(self) -> bool {
        &&& 1 <= self.num <= 40
        &&& self.l_data.wf()
        &&& self.m_data.wf()
        &&& self.q_data.wf()
        &&& self.h_data.wf()
    }

    /// Looks up a version by its number.
    pub fn by_num(num: usize) -> (r: Version)
        requires
            1 <= num <= 40,
        ensures
            r == spec_version(num as int),
            r.wf(),
            r.num == num,
    {
        proof {
            lemma_capacity_table_consistent(num as int);
        }
        version_table(num)
    }

    /// The capacity record this level selects.
    pub fn values_at_ecl(&self, ecl: &ErrorCorrectionLevel) -> (r: VersionEclData)
        ensures
            r == self.spec_values_at(*ecl),
    {
        match ecl {
            ErrorCorrectionLevel::Low => self.l_data,
            ErrorCorrectionLevel::Medium => self.m_data,
            ErrorCorrectionLevel::Quartile => self.q_data,
            ErrorCorrectionLevel::High => self.h_data,
        }
    }

    /// The data-codeword capacity at this level.
    pub fn codeword_count(&self, ecl: &ErrorCorrectionLevel) -> (r: usize)
        ensures
            r == self.spec_values_at(*ecl).data_codewords,
    {
        self.values_at_ecl(ecl).data_codewords
    }

    /// Returns the number of modules on a single side of the finished QR
    /// code.
    pub fn modules_per_side(&self) -> (r: u32)
        requires
            1 <= self.num <= 40,
        ensures
            r == 4 * (self.num - 1) + 21,
    {
        (4 * (self.num as u32 - 1)) + 21
    }
}

/// The capacity table row of each version number.
pub open spec fn spec_version(num: int) -> Version {
    if num == 1 {
        Version {
            num: 1,
            l_data: VersionEclData {
                data_codewords: 19,
                ec_codewords_per_block: 7,
                group1: VersionGroup { blocks: 1, codewords: 19 },
                group2: None,
            },
            m_data: VersionEclData {
                data_codewords: 16,
                ec_codewords_per_block: 10,
                group1: VersionGroup { blocks: 1, codewords: 16 },
                group2: None,
            },
            q_data: VersionEclData {
                data_codewords: 13,
                ec_codewords_per_block: 13,
                group1: VersionGroup { blocks: 1, codewords: 13 },
                group2: None,
            },
            h_data: VersionEclData {
                data_codewords: 9,
                ec_codewords_per_block: 17,
                group1: VersionGroup { blocks: 1, codewords: 9 },
                group2: None,
            },
        }
    } else if num == 2 {
        Version {
            num: 2,
            l_data: VersionEclData {
                data_codewords: 34,
                ec_codewords_per_block: 10,
                group1: VersionGroup { blocks: 1, codewords: 34 },
                group2: None,
            },
            m_data: VersionEclData {
                data_codewords: 28,
                ec_codewords_per_block: 16,
                group1: VersionGroup { blocks: 1, codewords: 28 },
                group2: None,
            },
            q_data: VersionEclData {
                data_codewords: 22,
                ec_codewords_per_block: 22,
                group1: VersionGroup { blocks: 1, codewords: 22 },
                group2: None,
            },
            h_data: VersionEclData {
                data_codewords: 16,
                ec_codewords_per_block: 28,
                group1: VersionGroup { blocks: 1, codewords: 16 },
                group2: None,
            },
        }
    } else if num == 3 {
        Version {
            num: 3,
            l_data: VersionEclData {
                data_codewords: 55,
                ec_codewords_per_block: 15,
                group1: VersionGroup { blocks: 1, codewords: 55 },
                group2: None,
            },
            m_data: VersionEclData {
                data_codewords: 44,
                ec_codewords_per_block: 26,
                group1: VersionGroup { blocks: 1, codewords: 44 },
                group2: None,
            },
            q_data: VersionEclData {
                data_codewords: 34,
                ec_codewords_per_block: 18,
                group1: VersionGroup { blocks: 2, codewords: 17 },
                group2: None,
            },
            h_data: VersionEclData {
                data_codewords: 26,
                ec_codewords_per_block: 22,
                group1: VersionGroup { blocks: 2, codewords: 13 },
                group2: None,
            },
        }
    } else if num == 4 {
        Version {
            num: 4,
            l_data: VersionEclData {
                data_codewords: 80,
                ec_codewords_per_block: 20,
                group1: VersionGroup { blocks: 1, codewords: 80 },
                group2: None,
            },
            m_data: VersionEclData {
                data_codewords: 64,
                ec_codewords_per_block: 18,
                group1: VersionGroup { blocks: 2, codewords: 32 },
                group2: None,
            },
            q_data: VersionEclData {
                data_codewords: 48,
                ec_codewords_per_block: 26,
                group1: VersionGroup { blocks: 2, codewords: 24 },
                group2: None,
            },
            h_data: VersionEclData {
                data_codewords: 36,
                ec_codewords_per_block: 16,
                group1: VersionGroup { blocks: 4, codewords: 9 },
                group2: None,
            },
        }
    } else if num == 5 {
        Version {
            num: 5,
            l_data: VersionEclData {
                data_codewords: 108,
                ec_codewords_per_block: 26,
                group1: VersionGroup { blocks: 1, codewords: 108 },
                group2: None,
            },
            m_data: VersionEclData {
                data_codewords: 86,
                ec_codewords_per_block: 24,
                group1: VersionGroup { blocks: 2, codewords: 43 },
                group2: None,
            },
            q_data: VersionEclData {
                data_codewords: 62,
                ec_codewords_per_block: 18,
                group1: VersionGroup { blocks: 2, codewords: 15 },
                group2: Some(VersionGroup { blocks: 2, codewords: 16 }),
            },
            h_data: VersionEclData {
                data_codewords: 46,
                ec_codewords_per_block: 22,
                group1: VersionGroup { blocks: 2, codewords: 11 },
                group2: Some(VersionGroup { blocks: 2, codewords: 12 }),
            },
        }
    } else if num == 6 {
        Version {
            num: 6,
            l_data: VersionEclData {
                data_codewords: 136,
                ec_codewords_per_block: 18,
                group1: VersionGroup { blocks: 2, codewords: 68 },
                group2: None,
            },
            m_data: VersionEclData {
                data_codewords: 108,
                ec_codewords_per_block: 16,
                group1: VersionGroup { blocks: 4, codewords: 27 },
                group2: None,
            },
            q_data: VersionEclData {
                data_codewords: 76,
                ec_codewords_per_block: 24,
                group1: VersionGroup { blocks: 4, codewords: 19 },
                group2: None,
            },
            h_data: VersionEclData {
                data_codewords: 60,
                ec_codewords_per_block: 28,
                group1: VersionGroup { blocks: 4, codewords: 15 },
                group2: None,
            },
        }
    } else if num == 7 {
        Version {
            num: 7,
            l_data: VersionEclData {
                data_codewords: 156,
                ec_codewords_per_block: 20,
                group1: VersionGroup { blocks: 2, codewords: 78 },
                group2: None,
            },
            m_data: VersionEclData {
                data_codewords: 124,
                ec_codewords_per_block: 18,
                group1: VersionGroup { blocks: 4, codewords: 31 },
                group2: None,
            },
            q_data: VersionEclData {
                data_codewords: 88,
                ec_codewords_per_block: 18,
                group1: VersionGroup { blocks: 2, codewords: 14 },
                group2: Some(VersionGroup { blocks: 4, codewords: 15 }),
            },
            h_data: VersionEclData {
                data_codewords: 66,
                ec_codewords_per_block: 26,
                group1: VersionGroup { blocks: 4, codewords: 13 },
                group2: Some(VersionGroup { blocks: 1, codewords: 14 }),
            },
        }
    } else if num == 8 {
        Version {
            num: 8,
            l_data: VersionEclData {
                data_codewords: 194,
                ec_codewords_per_block: 24,
                group1: VersionGroup { blocks: 2, codewords: 97 },
                group2: None,
            },
            m_data: VersionEclData {
                data_codewords: 154,
                ec_codewords_per_block: 22,
                group1: VersionGroup { blocks: 2, codewords: 38 },
                group2: Some(VersionGroup { blocks: 2, codewords: 39 }),
            },
            q_data: VersionEclData {
                data_codewords: 110,
                ec_codewords_per_block: 22,
                group1: VersionGroup { blocks: 4, codewords: 18 },
                group2: Some(VersionGroup { blocks: 2, codewords: 19 }),
            },
            h_data: VersionEclData {
                data_codewords: 86,
                ec_codewords_per_block: 26,
                group1: VersionGroup { blocks: 4, codewords: 14 },
                group2: Some(VersionGroup { blocks: 2, codewords: 15 }),
            },
        }
    } else if num == 9 {
        Version {
            num: 9,
            l_data: VersionEclData {
                data_codewords: 232,
                ec_codewords_per_block: 30,
                group1: VersionGroup { blocks: 2, codewords: 116 },
                group2: None,
            },
            m_data: VersionEclData {
                data_codewords: 182,
                ec_codewords_per_block: 22,
                group1: VersionGroup { blocks: 3, codewords: 36 },
                group2: Some(VersionGroup { blocks: 2, codewords: 37 }),
            },
            q_data: VersionEclData {
                data_codewords: 132,
                ec_codewords_per_block: 20,
                group1: VersionGroup { blocks: 4, codewords: 16 },
                group2: Some(VersionGroup { blocks: 4, codewords: 17 }),
            },
            h_data: VersionEclData {
                data_codewords: 100,
                ec_codewords_per_block: 24,
                group1: VersionGroup { blocks: 4, codewords: 12 },
                group2: Some(VersionGroup { blocks: 4, codewords: 13 }),
            },
        }
    } else if num == 10 {
        Version {
            num: 10,
            l_data: VersionEclData {
                data_codewords: 274,
                ec_codewords_per_block: 18,
                group1: VersionGroup { blocks: 2, codewords: 68 },
                group2: Some(VersionGroup { blocks: 2, codewords: 69 }),
            },
            m_data: VersionEclData {
                data_codewords: 216,
                ec_codewords_per_block: 26,
                group1: VersionGroup { blocks: 4, codewords: 43 },
                group2: Some(VersionGroup { blocks: 1, codewords: 44 }),
            },
            q_data: VersionEclData {
                data_codewords: 154,
                ec_codewords_per_block: 24,
                group1: VersionGroup { blocks: 6, codewords: 19 },
                group2: Some(VersionGroup { blocks: 2, codewords: 20 }),
            },
            h_data: VersionEclData {
                data_codewords: 122,
                ec_codewords_per_block: 28,
                group1: VersionGroup { blocks: 6, codewords: 15 },
                group2: Some(VersionGroup { blocks: 2, codewords: 16 }),
            },
        }
    } else if num == 11 {
        Version {
            num: 11,
            l_data: VersionEclData {
                data_codewords: 324,
                ec_codewords_per_block: 20,
                group1: VersionGroup { blocks: 4, codewords: 81 },
                group2: None,
            },
            m_data: VersionEclData {
                data_codewords: 254,
                ec_codewords_per_block: 30,
                group1: VersionGroup { blocks: 1, codewords: 50 },
                group2: Some(VersionGroup { blocks: 4, codewords: 51 }),
            },
            q_data: VersionEclData {
                data_codewords: 180,
                ec_codewords_per_block: 28,
                group1: VersionGroup { blocks: 4, codewords: 22 },
                group2: Some(VersionGroup { blocks: 4, codewords: 23 }),
            },
            h_data: VersionEclData {
                data_codewords: 140,
                ec_codewords_per_block: 24,
                group1: VersionGroup { blocks: 3, codewords: 12 },
                group2: Some(VersionGroup { blocks: 8, codewords: 13 }),
            },
        }
    } else if num == 12 {
        Version {
            num: 12,
            l_data: VersionEclData {
                data_codewords: 370,
                ec_codewords_per_block: 24,
                group1: VersionGroup { blocks: 2, codewords: 92 },
                group2: Some(VersionGroup { blocks: 2, codewords: 93 }),
            },
            m_data: VersionEclData {
                data_codewords: 290,
                ec_codewords_per_block: 22,
                group1: VersionGroup { blocks: 6, codewords: 36 },
                group2: Some(VersionGroup { blocks: 2, codewords: 37 }),
            },
            q_data: VersionEclData {
                data_codewords: 206,
                ec_codewords_per_block: 26,
                group1: VersionGroup { blocks: 4, codewords: 20 },
                group2: Some(VersionGroup { blocks: 6, codewords: 21 }),
            },
            h_data: VersionEclData {
                data_codewords: 158,
                ec_codewords_per_block: 28,
                group1: VersionGroup { blocks: 7, codewords: 14 },
                group2: Some(VersionGroup { blocks: 4, codewords: 15 }),
            },
        }
    } else if num == 13 {
        Version {
            num: 13,
            l_data: VersionEclData {
                data_codewords: 428,
                ec_codewords_per_block: 26,
                group1: VersionGroup { blocks: 4, codewords: 107 },
                group2: None,
            },
            m_data: VersionEclData {
                data_codewords: 334,
                ec_codewords_per_block: 22,
                group1: VersionGroup { blocks: 8, codewords: 37 },
                group2: Some(VersionGroup { blocks: 1, codewords: 38 }),
            },
            q_data: VersionEclData {
                data_codewords: 244,
                ec_codewords_per_block: 24,
                group1: VersionGroup { blocks: 8, codewords: 20 },
                group2: Some(VersionGroup { blocks: 4, codewords: 21 }),
            },
            h_data: VersionEclData {
                data_codewords: 180,
                ec_codewords_per_block: 22,
                group1: VersionGroup { blocks: 12, codewords: 11 },
                group2: Some(VersionGroup { blocks: 4, codewords: 12 }),
            },
        }
    } else if num == 14 {
        Version {
            num: 14,
            l_data: VersionEclData {
                data_codewords: 461,
                ec_codewords_per_block: 30,
                group1: VersionGroup { blocks: 3, codewords: 115 },
                group2: Some(VersionGroup { blocks: 1, codewords: 116 }),
            },
            m_data: VersionEclData {
                data_codewords: 365,
                ec_codewords_per_block: 24,
                group1: VersionGroup { blocks: 4, codewords: 40 },
                group2: Some(VersionGroup { blocks: 5, codewords: 41 }),
            },
            q_data: VersionEclData {
                data_codewords: 261,
                ec_codewords_per_block: 20,
                group1: VersionGroup { blocks: 11, codewords: 16 },
                group2: Some(VersionGroup { blocks: 5, codewords: 17 }),
            },
            h_data: VersionEclData {
                data_codewords: 197,
                ec_codewords_per_block: 24,
                group1: VersionGroup { blocks: 11, codewords: 12 },
                group2: Some(VersionGroup { blocks: 5, codewords: 13 }),
            },
        }
    } else if num == 15 {
        Version {
            num: 15,
            l_data: VersionEclData {
                data_codewords: 523,
                ec_codewords_per_block: 22,
                group1: VersionGroup { blocks: 5, codewords: 87 },
                group2: Some(VersionGroup { blocks: 1, codewords: 88 }),
            },
            m_data: VersionEclData {
                data_codewords: 415,
                ec_codewords_per_block: 24,
                group1: VersionGroup { blocks: 5, codewords: 41 },
                group2: Some(VersionGroup { blocks: 5, codewords: 42 }),
            },
            q_data: VersionEclData {
                data_codewords: 295,
                ec_codewords_per_block: 30,
                group1: VersionGroup { blocks: 5, codewords: 24 },
                group2: Some(VersionGroup { blocks: 7, codewords: 25 }),
            },
            h_data: VersionEclData {
                data_codewords: 223,
                ec_codewords_per_block: 24,
                group1: VersionGroup { blocks: 11, codewords: 12 },
                group2: Some(VersionGroup { blocks: 7, codewords: 13 }),
            },
        }
    } else if num == 16 {
        Version {
            num: 16,
            l_data: VersionEclData {
                data_codewords: 589,
                ec_codewords_per_block: 24,
                group1: VersionGroup { blocks: 5, codewords: 98 },
                group2: Some(VersionGroup { blocks: 1, codewords: 99 }),
            },
            m_data: VersionEclData {
                data_codewords: 453,
                ec_codewords_per_block: 28,
                group1: VersionGroup { blocks: 7, codewords: 45 },
                group2: Some(VersionGroup { blocks: 3, codewords: 46 }),
            },
            q_data: VersionEclData {
                data_codewords: 325,
                ec_codewords_per_block: 24,
                group1: VersionGroup { blocks: 15, codewords: 19 },
                group2: Some(VersionGroup { blocks: 2, codewords: 20 }),
            },
            h_data: VersionEclData {
                data_codewords: 253,
                ec_codewords_per_block: 30,
                group1: VersionGroup { blocks: 3, codewords: 15 },
                group2: Some(VersionGroup { blocks: 13, codewords: 16 }),
            },
        }
    } else if num == 17 {
        Version {
            num: 17,
            l_data: VersionEclData {
                data_codewords: 647,
                ec_codewords_per_block: 28,
                group1: VersionGroup { blocks: 1, codewords: 107 },
                group2: Some(VersionGroup { blocks: 5, codewords: 108 }),
            },
            m_data: VersionEclData {
                data_codewords: 507,
                ec_codewords_per_block: 28,
                group1: VersionGroup { blocks: 10, codewords: 46 },
                group2: Some(VersionGroup { blocks: 1, codewords: 47 }),
            },
            q_data: VersionEclData {
                data_codewords: 367,
                ec_codewords_per_block: 28,
                group1: VersionGroup { blocks: 1, codewords: 22 },
                group2: Some(VersionGroup { blocks: 15, codewords: 23 }),
            },
            h_data: VersionEclData {
                data_codewords: 283,
                ec_codewords_per_block: 28,
                group1: VersionGroup { blocks: 2, codewords: 14 },
                group2: Some(VersionGroup { blocks: 17, codewords: 15 }),
            },
        }
    } else if num == 18 {
        Version {
            num: 18,
            l_data: VersionEclData {
                data_codewords: 721,
                ec_codewords_per_block: 30,
                group1: VersionGroup { blocks: 5, codewords: 120 },
                group2: Some(VersionGroup { blocks: 1, codewords: 121 }),
            },
            m_data: VersionEclData {
                data_codewords: 563,
                ec_codewords_per_block: 26,
                group1: VersionGroup { blocks: 9, codewords: 43 },
                group2: Some(VersionGroup { blocks: 4, codewords: 44 }),
            },
            q_data: VersionEclData {
                data_codewords: 397,
                ec_codewords_per_block: 28,
                group1: VersionGroup { blocks: 17, codewords: 22 },
                group2: Some(VersionGroup { blocks: 1, codewords: 23 }),
            },
            h_data: VersionEclData {
                data_codewords: 313,
                ec_codewords_per_block: 28,
                group1: VersionGroup { blocks: 2, codewords: 14 },
                group2: Some(VersionGroup { blocks: 19, codewords: 15 }),
            },
        }
    } else if num == 19 {
        Version {
            num: 19,
            l_data: VersionEclData {
                data_codewords: 795,
                ec_codewords_per_block: 28,
                group1: VersionGroup { blocks: 3, codewords: 113 },
                group2: Some(VersionGroup { blocks: 4, codewords: 114 }),
            },
            m_data: VersionEclData {
                data_codewords: 627,
                ec_codewords_per_block: 26,
                group1: VersionGroup { blocks: 3, codewords: 44 },
                group2: Some(VersionGroup { blocks: 11, codewords: 45 }),
            },
            q_data: VersionEclData {
                data_codewords: 445,
                ec_codewords_per_block: 26,
                group1: VersionGroup { blocks: 17, codewords: 21 },
                group2: Some(VersionGroup { blocks: 4, codewords: 22 }),
            },
            h_data: VersionEclData {
                data_codewords: 341,
                ec_codewords_per_block: 26,
                group1: VersionGroup { blocks: 9, codewords: 13 },
                group2: Some(VersionGroup { blocks: 16, codewords: 14 }),
            },
        }
    } else if num == 20 {
        Version {
            num: 20,
            l_data: VersionEclData {
                data_codewords: 861,
                ec_codewords_per_block: 28,
                group1: VersionGroup { blocks: 3, codewords: 107 },
                group2: Some(VersionGroup { blocks: 5, codewords: 108 }),
            },
            m_data: VersionEclData {
                data_codewords: 669,
                ec_codewords_per_block: 26,
                group1: VersionGroup { blocks: 3, codewords: 41 },
                group2: Some(VersionGroup { blocks: 13, codewords: 42 }),
            },
            q_data: VersionEclData {
                data_codewords: 485,
                ec_codewords_per_block: 30,
                group1: VersionGroup { blocks: 15, codewords: 24 },
                group2: Some(VersionGroup { blocks: 5, codewords: 25 }),
            },
            h_data: VersionEclData {
                data_codewords: 385,
                ec_codewords_per_block: 28,
                group1: VersionGroup { blocks: 15, codewords: 15 },
                group2: Some(VersionGroup { blocks: 10, codewords: 16 }),
            },
        }
    } else if num == 21 {
        Version {
            num: 21,
            l_data: VersionEclData {
                data_codewords: 932,
                ec_codewords_per_block: 28,
                group1: VersionGroup { blocks: 4, codewords: 116 },
                group2: Some(VersionGroup { blocks: 4, codewords: 117 }),
            },
            m_data: VersionEclData {
                data_codewords: 714,
                ec_codewords_per_block: 26,
                group1: VersionGroup { blocks: 17, codewords: 42 },
                group2: None,
            },
            q_data: VersionEclData {
                data_codewords: 512,
                ec_codewords_per_block: 28,
                group1: VersionGroup { blocks: 17, codewords: 22 },
                group2: Some(VersionGroup { blocks: 6, codewords: 23 }),
            },
            h_data: VersionEclData {
                data_codewords: 406,
                ec_codewords_per_block: 30,
                group1: VersionGroup { blocks: 19, codewords: 16 },
                group2: Some(VersionGroup { blocks: 6, codewords: 17 }),
            },
        }
    } else if num == 22 {
        Version {
            num: 22,
            l_data: VersionEclData {
                data_codewords: 1006,
                ec_codewords_per_block: 28,
                group1: VersionGroup { blocks: 2, codewords: 111 },
                group2: Some(VersionGroup { blocks: 7, codewords: 112 }),
            },
            m_data: VersionEclData {
                data_codewords: 782,
                ec_codewords_per_block: 28,
                group1: VersionGroup { blocks: 17, codewords: 46 },
                group2: None,
            },
            q_data: VersionEclData {
                data_codewords: 568,
                ec_codewords_per_block: 30,
                group1: VersionGroup { blocks: 7, codewords: 24 },
                group2: Some(VersionGroup { blocks: 16, codewords: 25 }),
            },
            h_data: VersionEclData {
                data_codewords: 442,
                ec_codewords_per_block: 24,
                group1: VersionGroup { blocks: 34, codewords: 13 },
                group2: None,
            },
        }
    } else if num == 23 {
        Version {
            num: 23,
            l_data: VersionEclData {
                data_codewords: 1094,
                ec_codewords_per_block: 30,
                group1: VersionGroup { blocks: 4, codewords: 121 },
                group2: Some(VersionGroup { blocks: 5, codewords: 122 }),
            },
            m_data: VersionEclData {
                data_codewords: 860,
                ec_codewords_per_block: 28,
                group1: VersionGroup { blocks: 4, codewords: 47 },
                group2: Some(VersionGroup { blocks: 14, codewords: 48 }),
            },
            q_data: VersionEclData {
                data_codewords: 614,
                ec_codewords_per_block: 30,
                group1: VersionGroup { blocks: 11, codewords: 24 },
                group2: Some(VersionGroup { blocks: 14, codewords: 25 }),
            },
            h_data: VersionEclData {
                data_codewords: 464,
                ec_codewords_per_block: 30,
                group1: VersionGroup { blocks: 16, codewords: 15 },
                group2: Some(VersionGroup { blocks: 14, codewords: 16 }),
            },
        }
    } else if num == 24 {
        Version {
            num: 24,
            l_data: VersionEclData {
                data_codewords: 1174,
                ec_codewords_per_block: 30,
                group1: VersionGroup { blocks: 6, codewords: 117 },
                group2: Some(VersionGroup { blocks: 4, codewords: 118 }),
            },
            m_data: VersionEclData {
                data_codewords: 914,
                ec_codewords_per_block: 28,
                group1: VersionGroup { blocks: 6, codewords: 45 },
                group2: Some(VersionGroup { blocks: 14, codewords: 46 }),
            },
            q_data: VersionEclData {
                data_codewords: 664,
                ec_codewords_per_block: 30,
                group1: VersionGroup { blocks: 11, codewords: 24 },
                group2: Some(VersionGroup { blocks: 16, codewords: 25 }),
            },
            h_data: VersionEclData {
                data_codewords: 514,
                ec_codewords_per_block: 30,
                group1: VersionGroup { blocks: 30, codewords: 16 },
                group2: Some(VersionGroup { blocks: 2, codewords: 17 }),
            },
        }
    } else if num == 25 {
        Version {
            num: 25,
            l_data: VersionEclData {
                data_codewords: 1276,
                ec_codewords_per_block: 26,
                group1: VersionGroup { blocks: 8, codewords: 106 },
                group2: Some(VersionGroup { blocks: 4, codewords: 107 }),
            },
            m_data: VersionEclData {
                data_codewords: 1000,
                ec_codewords_per_block: 28,
                group1: VersionGroup { blocks: 8, codewords: 47 },
                group2: Some(VersionGroup { blocks: 13, codewords: 48 }),
            },
            q_data: VersionEclData {
                data_codewords: 718,
                ec_codewords_per_block: 30,
                group1: VersionGroup { blocks: 7, codewords: 24 },
                group2: Some(VersionGroup { blocks: 22, codewords: 25 }),
            },
            h_data: VersionEclData {
                data_codewords: 538,
                ec_codewords_per_block: 30,
                group1: VersionGroup { blocks: 22, codewords: 15 },
                group2: Some(VersionGroup { blocks: 13, codewords: 16 }),
            },
        }
    } else if num == 26 {
        Version {
            num: 26,
            l_data: VersionEclData {
                data_codewords: 1370,
                ec_codewords_per_block: 28,
                group1: VersionGroup { blocks: 10, codewords: 114 },
                group2: Some(VersionGroup { blocks: 2, codewords: 115 }),
            },
            m_data: VersionEclData {
                data_codewords: 1062,
                ec_codewords_per_block: 28,
                group1: VersionGroup { blocks: 19, codewords: 46 },
                group2: Some(VersionGroup { blocks: 4, codewords: 47 }),
            },
            q_data: VersionEclData {
                data_codewords: 754,
                ec_codewords_per_block: 28,
                group1: VersionGroup { blocks: 28, codewords: 22 },
                group2: Some(VersionGroup { blocks: 6, codewords: 23 }),
            },
            h_data: VersionEclData {
                data_codewords: 596,
                ec_codewords_per_block: 30,
                group1: VersionGroup { blocks: 33, codewords: 16 },
                group2: Some(VersionGroup { blocks: 4, codewords: 17 }),
            },
        }
    } else if num == 27 {
        Version {
            num: 27,
            l_data: VersionEclData {
                data_codewords: 1468,
                ec_codewords_per_block: 30,
                group1: VersionGroup { blocks: 8, codewords: 122 },
                group2: Some(VersionGroup { blocks: 4, codewords: 123 }),
            },
            m_data: VersionEclData {
                data_codewords: 1128,
                ec_codewords_per_block: 28,
                group1: VersionGroup { blocks: 22, codewords: 45 },
                group2: Some(VersionGroup { blocks: 3, codewords: 46 }),
            },
            q_data: VersionEclData {
                data_codewords: 808,
                ec_codewords_per_block: 30,
                group1: VersionGroup { blocks: 8, codewords: 23 },
                group2: Some(VersionGroup { blocks: 26, codewords: 24 }),
            },
            h_data: VersionEclData {
                data_codewords: 628,
                ec_codewords_per_block: 30,
                group1: VersionGroup { blocks: 12, codewords: 15 },
                group2: Some(VersionGroup { blocks: 28, codewords: 16 }),
            },
        }
    } else if num == 28 {
        Version {
            num: 28,
            l_data: VersionEclData {
                data_codewords: 1531,
                ec_codewords_per_block: 30,
                group1: VersionGroup { blocks: 3, codewords: 117 },
                group2: Some(VersionGroup { blocks: 10, codewords: 118 }),
            },
            m_data: VersionEclData {
                data_codewords: 1193,
                ec_codewords_per_block: 28,
                group1: VersionGroup { blocks: 3, codewords: 45 },
                group2: Some(VersionGroup { blocks: 23, codewords: 46 }),
            },
            q_data: VersionEclData {
                data_codewords: 871,
                ec_codewords_per_block: 30,
                group1: VersionGroup { blocks: 4, codewords: 24 },
                group2: Some(VersionGroup { blocks: 31, codewords: 25 }),
            },
            h_data: VersionEclData {
                data_codewords: 661,
                ec_codewords_per_block: 30,
                group1: VersionGroup { blocks: 11, codewords: 15 },
                group2: Some(VersionGroup { blocks: 31, codewords: 16 }),
            },
        }
    } else if num == 29 {
        Version {
            num: 29,
            l_data: VersionEclData {
                data_codewords: 1631,
                ec_codewords_per_block: 30,
                group1: VersionGroup { blocks: 7, codewords: 116 },
                group2: Some(VersionGroup { blocks: 7, codewords: 117 }),
            },
            m_data: VersionEclData {
                data_codewords: 1267,
                ec_codewords_per_block: 28,
                group1: VersionGroup { blocks: 21, codewords: 45 },
                group2: Some(VersionGroup { blocks: 7, codewords: 46 }),
            },
            q_data: VersionEclData {
                data_codewords: 911,
                ec_codewords_per_block: 30,
                group1: VersionGroup { blocks: 1, codewords: 23 },
                group2: Some(VersionGroup { blocks: 37, codewords: 24 }),
            },
            h_data: VersionEclData {
                data_codewords: 701,
                ec_codewords_per_block: 30,
                group1: VersionGroup { blocks: 19, codewords: 15 },
                group2: Some(VersionGroup { blocks: 26, codewords: 16 }),
            },
        }
    } else if num == 30 {
        Version {
            num: 30,
            l_data: VersionEclData {
                data_codewords: 1735,
                ec_codewords_per_block: 30,
                group1: VersionGroup { blocks: 5, codewords: 115 },
                group2: Some(VersionGroup { blocks: 10, codewords: 116 }),
            },
            m_data: VersionEclData {
                data_codewords: 1373,
                ec_codewords_per_block: 28,
                group1: VersionGroup { blocks: 19, codewords: 47 },
                group2: Some(VersionGroup { blocks: 10, codewords: 48 }),
            },
            q_data: VersionEclData {
                data_codewords: 985,
                ec_codewords_per_block: 30,
                group1: VersionGroup { blocks: 15, codewords: 24 },
                group2: Some(VersionGroup { blocks: 25, codewords: 25 }),
            },
            h_data: VersionEclData {
                data_codewords: 745,
                ec_codewords_per_block: 30,
                group1: VersionGroup { blocks: 23, codewords: 15 },
                group2: Some(VersionGroup { blocks: 25, codewords: 16 }),
            },
        }
    } else if num == 31 {
        Version {
            num: 31,
            l_data: VersionEclData {
                data_codewords: 1843,
                ec_codewords_per_block: 30,
                group1: VersionGroup { blocks: 13, codewords: 115 },
                group2: Some(VersionGroup { blocks: 3, codewords: 116 }),
            },
            m_data: VersionEclData {
                data_codewords: 1455,
                ec_codewords_per_block: 28,
                group1: VersionGroup { blocks: 2, codewords: 46 },
                group2: Some(VersionGroup { blocks: 29, codewords: 47 }),
            },
            q_data: VersionEclData {
                data_codewords: 1033,
                ec_codewords_per_block: 30,
                group1: VersionGroup { blocks: 42, codewords: 24 },
                group2: Some(VersionGroup { blocks: 1, codewords: 25 }),
            },
            h_data: VersionEclData {
                data_codewords: 793,
                ec_codewords_per_block: 30,
                group1: VersionGroup { blocks: 23, codewords: 15 },
                group2: Some(VersionGroup { blocks: 28, codewords: 16 }),
            },
        }
    } else if num == 32 {
        Version {
            num: 32,
            l_data: VersionEclData {
                data_codewords: 1955,
                ec_codewords_per_block: 30,
                group1: VersionGroup { blocks: 17, codewords: 115 },
                group2: None,
            },
            m_data: VersionEclData {
                data_codewords: 1541,
                ec_codewords_per_block: 28,
                group1: VersionGroup { blocks: 10, codewords: 46 },
                group2: Some(VersionGroup { blocks: 23, codewords: 47 }),
            },
            q_data: VersionEclData {
                data_codewords: 1115,
                ec_codewords_per_block: 30,
                group1: VersionGroup { blocks: 10, codewords: 24 },
                group2: Some(VersionGroup { blocks: 35, codewords: 25 }),
            },
            h_data: VersionEclData {
                data_codewords: 845,
                ec_codewords_per_block: 30,
                group1: VersionGroup { blocks: 19, codewords: 15 },
                group2: Some(VersionGroup { blocks: 35, codewords: 16 }),
            },
        }
    } else if num == 33 {
        Version {
            num: 33,
            l_data: VersionEclData {
                data_codewords: 2071,
                ec_codewords_per_block: 30,
                group1: VersionGroup { blocks: 17, codewords: 115 },
                group2: Some(VersionGroup { blocks: 1, codewords: 116 }),
            },
            m_data: VersionEclData {
                data_codewords: 1631,
                ec_codewords_per_block: 28,
                group1: VersionGroup { blocks: 14, codewords: 46 },
                group2: Some(VersionGroup { blocks: 21, codewords: 47 }),
            },
            q_data: VersionEclData {
                data_codewords: 1171,
                ec_codewords_per_block: 30,
                group1: VersionGroup { blocks: 29, codewords: 24 },
                group2: Some(VersionGroup { blocks: 19, codewords: 25 }),
            },
            h_data: VersionEclData {
                data_codewords: 901,
                ec_codewords_per_block: 30,
                group1: VersionGroup { blocks: 11, codewords: 15 },
                group2: Some(VersionGroup { blocks: 46, codewords: 16 }),
            },
        }
    } else if num == 34 {
        Version {
            num: 34,
            l_data: VersionEclData {
                data_codewords: 2191,
                ec_codewords_per_block: 30,
                group1: VersionGroup { blocks: 13, codewords: 115 },
                group2: Some(VersionGroup { blocks: 6, codewords: 116 }),
            },
            m_data: VersionEclData {
                data_codewords: 1725,
                ec_codewords_per_block: 28,
                group1: VersionGroup { blocks: 14, codewords: 46 },
                group2: Some(VersionGroup { blocks: 23, codewords: 47 }),
            },
            q_data: VersionEclData {
                data_codewords: 1231,
                ec_codewords_per_block: 30,
                group1: VersionGroup { blocks: 44, codewords: 24 },
                group2: Some(VersionGroup { blocks: 7, codewords: 25 }),
            },
            h_data: VersionEclData {
                data_codewords: 961,
                ec_codewords_per_block: 30,
                group1: VersionGroup { blocks: 59, codewords: 16 },
                group2: Some(VersionGroup { blocks: 1, codewords: 17 }),
            },
        }
    } else if num == 35 {
        Version {
            num: 35,
            l_data: VersionEclData {
                data_codewords: 2306,
                ec_codewords_per_block: 30,
                group1: VersionGroup { blocks: 12, codewords: 121 },
                group2: Some(VersionGroup { blocks: 7, codewords: 122 }),
            },
            m_data: VersionEclData {
                data_codewords: 1812,
                ec_codewords_per_block: 28,
                group1: VersionGroup { blocks: 12, codewords: 47 },
                group2: Some(VersionGroup { blocks: 26, codewords: 48 }),
            },
            q_data: VersionEclData {
                data_codewords: 1286,
                ec_codewords_per_block: 30,
                group1: VersionGroup { blocks: 39, codewords: 24 },
                group2: Some(VersionGroup { blocks: 14, codewords: 25 }),
            },
            h_data: VersionEclData {
                data_codewords: 986,
                ec_codewords_per_block: 30,
                group1: VersionGroup { blocks: 22, codewords: 15 },
                group2: Some(VersionGroup { blocks: 41, codewords: 16 }),
            },
        }
    } else if num == 36 {
        Version {
            num: 36,
            l_data: VersionEclData {
                data_codewords: 2434,
                ec_codewords_per_block: 30,
                group1: VersionGroup { blocks: 6, codewords: 121 },
                group2: Some(VersionGroup { blocks: 14, codewords: 122 }),
            },
            m_data: VersionEclData {
                data_codewords: 1914,
                ec_codewords_per_block: 28,
                group1: VersionGroup { blocks: 6, codewords: 47 },
                group2: Some(VersionGroup { blocks: 34, codewords: 48 }),
            },
            q_data: VersionEclData {
                data_codewords: 1354,
                ec_codewords_per_block: 30,
                group1: VersionGroup { blocks: 46, codewords: 24 },
                group2: Some(VersionGroup { blocks: 10, codewords: 25 }),
            },
            h_data: VersionEclData {
                data_codewords: 1054,
                ec_codewords_per_block: 30,
                group1: VersionGroup { blocks: 2, codewords: 15 },
                group2: Some(VersionGroup { blocks: 64, codewords: 16 }),
            },
        }
    } else if num == 37 {
        Version {
            num: 37,
            l_data: VersionEclData {
                data_codewords: 2566,
                ec_codewords_per_block: 30,
                group1: VersionGroup { blocks: 17, codewords: 122 },
                group2: Some(VersionGroup { blocks: 4, codewords: 123 }),
            },
            m_data: VersionEclData {
                data_codewords: 1992,
                ec_codewords_per_block: 28,
                group1: VersionGroup { blocks: 29, codewords: 46 },
                group2: Some(VersionGroup { blocks: 14, codewords: 47 }),
            },
            q_data: VersionEclData {
                data_codewords: 1426,
                ec_codewords_per_block: 30,
                group1: VersionGroup { blocks: 49, codewords: 24 },
                group2: Some(VersionGroup { blocks: 10, codewords: 25 }),
            },
            h_data: VersionEclData {
                data_codewords: 1096,
                ec_codewords_per_block: 30,
                group1: VersionGroup { blocks: 24, codewords: 15 },
                group2: Some(VersionGroup { blocks: 46, codewords: 16 }),
            },
        }
    } else if num == 38 {
        Version {
            num: 38,
            l_data: VersionEclData {
                data_codewords: 2702,
                ec_codewords_per_block: 30,
                group1: VersionGroup { blocks: 4, codewords: 122 },
                group2: Some(VersionGroup { blocks: 18, codewords: 123 }),
            },
            m_data: VersionEclData {
                data_codewords: 2102,
                ec_codewords_per_block: 28,
                group1: VersionGroup { blocks: 13, codewords: 46 },
                group2: Some(VersionGroup { blocks: 32, codewords: 47 }),
            },
            q_data: VersionEclData {
                data_codewords: 1502,
                ec_codewords_per_block: 30,
                group1: VersionGroup { blocks: 48, codewords: 24 },
                group2: Some(VersionGroup { blocks: 14, codewords: 25 }),
            },
            h_data: VersionEclData {
                data_codewords: 1142,
                ec_codewords_per_block: 30,
                group1: VersionGroup { blocks: 42, codewords: 15 },
                group2: Some(VersionGroup { blocks: 32, codewords: 16 }),
            },
        }
    } else if num == 39 {
        Version {
            num: 39,
            l_data: VersionEclData {
                data_codewords: 2812,
                ec_codewords_per_block: 30,
                group1: VersionGroup { blocks: 20, codewords: 117 },
                group2: Some(VersionGroup { blocks: 4, codewords: 118 }),
            },
            m_data: VersionEclData {
                data_codewords: 2216,
                ec_codewords_per_block: 28,
                group1: VersionGroup { blocks: 40, codewords: 47 },
                group2: Some(VersionGroup { blocks: 7, codewords: 48 }),
            },
            q_data: VersionEclData {
                data_codewords: 1582,
                ec_codewords_per_block: 30,
                group1: VersionGroup { blocks: 43, codewords: 24 },
                group2: Some(VersionGroup { blocks: 22, codewords: 25 }),
            },
            h_data: VersionEclData {
                data_codewords: 1222,
                ec_codewords_per_block: 30,
                group1: VersionGroup { blocks: 10, codewords: 15 },
                group2: Some(VersionGroup { blocks: 67, codewords: 16 }),
            },
        }
    } else {
        Version {
            num: 40,
            l_data: VersionEclData {
                data_codewords: 2956,
                ec_codewords_per_block: 30,
                group1: VersionGroup { blocks: 19, codewords: 118 },
                group2: Some(VersionGroup { blocks: 6, codewords: 119 }),
            },
            m_data: VersionEclData {
                data_codewords: 2334,
                ec_codewords_per_block: 28,
                group1: VersionGroup { blocks: 18, codewords: 47 },
                group2: Some(VersionGroup { blocks: 31, codewords: 48 }),
            },
            q_data: VersionEclData {
                data_codewords: 1666,
                ec_codewords_per_block: 30,
                group1: VersionGroup { blocks: 34, codewords: 24 },
                group2: Some(VersionGroup { blocks: 34, codewords: 25 }),
            },
            h_data: VersionEclData {
                data_codewords: 1276,
                ec_codewords_per_block: 30,
                group1: VersionGroup { blocks: 20, codewords: 15 },
                group2: Some(VersionGroup { blocks: 61, codewords: 16 }),
            },
        }
    }
}

/// Every capacity-table row is consistent: at each version and
/// error-correction level, the one or two block groups partition exactly
/// the row's data codewords.
pub proof fn lemma_capacity_table_consistent(num: int)
    requires
        1 <= num <= 40,
    ensures
        spec_version(num).wf(),
        spec_version(num).num == num,
{
    if num == 1 {
        assert(spec_version(1).wf());
    } else if num == 2 {
        assert(spec_version(2).wf());
    } else if num == 3 {
        assert(spec_version(3).wf());
    } else if num == 4 {
        assert(spec_version(4).wf());
    } else if num == 5 {
        assert(spec_version(5).wf());
    } else if num == 6 {
        assert(spec_version(6).wf());
    } else if num == 7 {
        assert(spec_version(7).wf());
    } else if num == 8 {
        assert(spec_version(8).wf());
    } else if num == 9 {
        assert(spec_version(9).wf());
    } else if num == 10 {
        assert(spec_version(10).wf());
    } else if num == 11 {
        assert(spec_version(11).wf());
    } else if num == 12 {
        assert(spec_version(12).wf());
    } else if num == 13 {
        assert(spec_version(13).wf());
    } else if num == 14 {
        assert(spec_version(14).wf());
    } else if num == 15 {
        assert(spec_version(15).wf());
    } else if num == 16 {
        assert(spec_version(16).wf());
    } else if num == 17 {
        assert(spec_version(17).wf());
    } else if num == 18 {
        assert(spec_version(18).wf());
    } else if num == 19 {
        assert(spec_version(19).wf());
    } else if num == 20 {
        assert(spec_version(20).wf());
    } else if num == 21 {
        assert(spec_version(21).wf());
    } else if num == 22 {
        assert(spec_version(22).wf());
    } else if num == 23 {
        assert(spec_version(23).wf());
    } else if num == 24 {
        assert(spec_version(24).wf());
    } else if num == 25 {
        assert(spec_version(25).wf());
    } else if num == 26 {
        assert(spec_version(26).wf());
    } else if num == 27 {
        assert(spec_version(27).wf());
    } else if num == 28 {
        assert(spec_version(28).wf());
    } else if num == 29 {
        assert(spec_version(29).wf());
    } else if num == 30 {
        assert(spec_version(30).wf());
    } else if num == 31 {
        assert(spec_version(31).wf());
    } else if num == 32 {
        assert(spec_version(32).wf());
    } else if num == 33 {
        assert(spec_version(33).wf());
    } else if num == 34 {
        assert(spec_version(34).wf());
    } else if num == 35 {
        assert(spec_version(35).wf());
    } else if num == 36 {
        assert(spec_version(36).wf());
    } else if num == 37 {
        assert(spec_version(37).wf());
    } else if num == 38 {
        assert(spec_version(38).wf());
    } else if num == 39 {
        assert(spec_version(39).wf());
    } else {
        assert(spec_version(40).wf());
    }
}

fn version_table(num: usize) -> (r: Version)
    requires
        1 <= num <= 40,
    ensures
        r == spec_version(num as int),
{
    if num == 1 {
        Version {
            num: 1,
            l_data: VersionEclData {
                data_codewords: 19,
                ec_codewords_per_block: 7,
                group1: VersionGroup { blocks: 1, codewords: 19 },
                group2: None,
            },
            m_data: VersionEclData {
                data_codewords: 16,
                ec_codewords_per_block: 10,
                group1: VersionGroup { blocks: 1, codewords: 16 },
                group2: None,
            },
            q_data: VersionEclData {
                data_codewords: 13,
                ec_codewords_per_block: 13,
                group1: VersionGroup { blocks: 1, codewords: 13 },
                group2: None,
            },
            h_data: VersionEclData {
                data_codewords: 9,
                ec_codewords_per_block: 17,
                group1: VersionGroup { blocks: 1, codewords: 9 },
                group2: None,
            },
        }
    } else if num == 2 {
        Version {
            num: 2,
            l_data: VersionEclData {
                data_codewords: 34,
                ec_codewords_per_block: 10,
                group1: VersionGroup { blocks: 1, codewords: 34 },
                group2: None,
            },
            m_data: VersionEclData {
                data_codewords: 28,
                ec_codewords_per_block: 16,
                group1: VersionGroup { blocks: 1, codewords: 28 },
                group2: None,
            },
            q_data: VersionEclData {
                data_codewords: 22,
                ec_codewords_per_block: 22,
                group1: VersionGroup { blocks: 1, codewords: 22 },
                group2: None,
            },
            h_data: VersionEclData {
                data_codewords: 16,
                ec_codewords_per_block: 28,
                group1: VersionGroup { blocks: 1, codewords: 16 },
                group2: None,
            },
        }
    } else if num == 3 {
        Version {
            num: 3,
            l_data: VersionEclData {
                data_codewords: 55,
                ec_codewords_per_block: 15,
                group1: VersionGroup { blocks: 1, codewords: 55 },
                group2: None,
            },
            m_data: VersionEclData {
                data_codewords: 44,
                ec_codewords_per_block: 26,
                group1: VersionGroup { blocks: 1, codewords: 44 },
                group2: None,
            },
            q_data: VersionEclData {
                data_codewords: 34,
                ec_codewords_per_block: 18,
                group1: VersionGroup { blocks: 2, codewords: 17 },
                group2: None,
            },
            h_data: VersionEclData {
                data_codewords: 26,
                ec_codewords_per_block: 22,
                group1: VersionGroup { blocks: 2, codewords: 13 },
                group2: None,
            },
        }
    } else if num == 4 {
        Version {
            num: 4,
            l_data: VersionEclData {
                data_codewords: 80,
                ec_codewords_per_block: 20,
                group1: VersionGroup { blocks: 1, codewords: 80 },
                group2: None,
            },
            m_data: VersionEclData {
                data_codewords: 64,
                ec_codewords_per_block: 18,
                group1: VersionGroup { blocks: 2, codewords: 32 },
                group2: None,
            },
            q_data: VersionEclData {
                data_codewords: 48,
                ec_codewords_per_block: 26,
                group1: VersionGroup { blocks: 2, codewords: 24 },
                group2: None,
            },
            h_data: VersionEclData {
                data_codewords: 36,
                ec_codewords_per_block: 16,
                group1: VersionGroup { blocks: 4, codewords: 9 },
                group2: None,
            },
        }
    } else if num == 5 {
        Version {
            num: 5,
            l_data: VersionEclData {
                data_codewords: 108,
                ec_codewords_per_block: 26,
                group1: VersionGroup { blocks: 1, codewords: 108 },
                group2: None,
            },
            m_data: VersionEclData {
                data_codewords: 86,
                ec_codewords_per_block: 24,
                group1: VersionGroup { blocks: 2, codewords: 43 },
                group2: None,
            },
            q_data: VersionEclData {
                data_codewords: 62,
                ec_codewords_per_block: 18,
                group1: VersionGroup { blocks: 2, codewords: 15 },
                group2: Some(VersionGroup { blocks: 2, codewords: 16 }),
            },
            h_data: VersionEclData {
                data_codewords: 46,
                ec_codewords_per_block: 22,
                group1: VersionGroup { blocks: 2, codewords: 11 },
                group2: Some(VersionGroup { blocks: 2, codewords: 12 }),
            },
        }
    } else if num == 6 {
        Version {
            num: 6,
            l_data: VersionEclData {
                data_codewords: 136,
                ec_codewords_per_block: 18,
                group1: VersionGroup { blocks: 2, codewords: 68 },
                group2: None,
            },
            m_data: VersionEclData {
                data_codewords: 108,
                ec_codewords_per_block: 16,
                group1: VersionGroup { blocks: 4, codewords: 27 },
                group2: None,
            },
            q_data: VersionEclData {
                data_codewords: 76,
                ec_codewords_per_block: 24,
                group1: VersionGroup { blocks: 4, codewords: 19 },
                group2: None,
            },
            h_data: VersionEclData {
                data_codewords: 60,
                ec_codewords_per_block: 28,
                group1: VersionGroup { blocks: 4, codewords: 15 },
                group2: None,
            },
        }
    } else if num == 7 {
        Version {
            num: 7,
            l_data: VersionEclData {
                data_codewords: 156,
                ec_codewords_per_block: 20,
                group1: VersionGroup { blocks: 2, codewords: 78 },
                group2: None,
            },
            m_data: VersionEclData {
                data_codewords: 124,
                ec_codewords_per_block: 18,
                group1: VersionGroup { blocks: 4, codewords: 31 },
                group2: None,
            },
            q_data: VersionEclData {
                data_codewords: 88,
                ec_codewords_per_block: 18,
                group1: VersionGroup { blocks: 2, codewords: 14 },
                group2: Some(VersionGroup { blocks: 4, codewords: 15 }),
            },
            h_data: VersionEclData {
                data_codewords: 66,
                ec_codewords_per_block: 26,
                group1: VersionGroup { blocks: 4, codewords: 13 },
                group2: Some(VersionGroup { blocks: 1, codewords: 14 }),
            },
        }
    } else if num == 8 {
        Version {
            num: 8,
            l_data: VersionEclData {
                data_codewords: 194,
                ec_codewords_per_block: 24,
                group1: VersionGroup { blocks: 2, codewords: 97 },
                group2: None,
            },
            m_data: VersionEclData {
                data_codewords: 154,
                ec_codewords_per_block: 22,
                group1: VersionGroup { blocks: 2, codewords: 38 },
                group2: Some(VersionGroup { blocks: 2, codewords: 39 }),
            },
            q_data: VersionEclData {
                data_codewords: 110,
                ec_codewords_per_block: 22,
                group1: VersionGroup { blocks: 4, codewords: 18 },
                group2: Some(VersionGroup { blocks: 2, codewords: 19 }),
            },
            h_data: VersionEclData {
                data_codewords: 86,
                ec_codewords_per_block: 26,
                group1: VersionGroup { blocks: 4, codewords: 14 },
                group2: Some(VersionGroup { blocks: 2, codewords: 15 }),
            },
        }
    } else if num == 9 {
        Version {
            num: 9,
            l_data: VersionEclData {
                data_codewords: 232,
                ec_codewords_per_block: 30,
                group1: VersionGroup { blocks: 2, codewords: 116 },
                group2: None,
            },
            m_data: VersionEclData {
                data_codewords: 182,
                ec_codewords_per_block: 22,
                group1: VersionGroup { blocks: 3, codewords: 36 },
                group2: Some(VersionGroup { blocks: 2, codewords: 37 }),
            },
            q_data: VersionEclData {
                data_codewords: 132,
                ec_codewords_per_block: 20,
                group1: VersionGroup { blocks: 4, codewords: 16 },
                group2: Some(VersionGroup { blocks: 4, codewords: 17 }),
            },
            h_data: VersionEclData {
                data_codewords: 100,
                ec_codewords_per_block: 24,
                group1: VersionGroup { blocks: 4, codewords: 12 },
                group2: Some(VersionGroup { blocks: 4, codewords: 13 }),
            },
        }
    } else if num == 10 {
        Version {
            num: 10,
            l_data: VersionEclData {
                data_codewords: 274,
                ec_codewords_per_block: 18,
                group1: VersionGroup { blocks: 2, codewords: 68 },
                group2: Some(VersionGroup { blocks: 2, codewords: 69 }),
            },
            m_data: VersionEclData {
                data_codewords: 216,
                ec_codewords_per_block: 26,
                group1: VersionGroup { blocks: 4, codewords: 43 },
                group2: Some(VersionGroup { blocks: 1, codewords: 44 }),
            },
            q_data: VersionEclData {
                data_codewords: 154,
                ec_codewords_per_block: 24,
                group1: VersionGroup { blocks: 6, codewords: 19 },
                group2: Some(VersionGroup { blocks: 2, codewords: 20 }),
            },
            h_data: VersionEclData {
                data_codewords: 122,
                ec_codewords_per_block: 28,
                group1: VersionGroup { blocks: 6, codewords: 15 },
                group2: Some(VersionGroup { blocks: 2, codewords: 16 }),
            },
        }
    } else if num == 11 {
        Version {
            num: 11,
            l_data: VersionEclData {
                data_codewords: 324,
                ec_codewords_per_block: 20,
                group1: VersionGroup { blocks: 4, codewords: 81 },
                group2: None,
            },
            m_data: VersionEclData {
                data_codewords: 254,
                ec_codewords_per_block: 30,
                group1: VersionGroup { blocks: 1, codewords: 50 },
                group2: Some(VersionGroup { blocks: 4, codewords: 51 }),
            },
            q_data: VersionEclData {
                data_codewords: 180,
                ec_codewords_per_block: 28,
                group1: VersionGroup { blocks: 4, codewords: 22 },
                group2: Some(VersionGroup { blocks: 4, codewords: 23 }),
            },
            h_data: VersionEclData {
                data_codewords: 140,
                ec_codewords_per_block: 24,
                group1: VersionGroup { blocks: 3, codewords: 12 },
                group2: Some(VersionGroup { blocks: 8, codewords: 13 }),
            },
        }
    } else if num == 12 {
        Version {
            num: 12,
            l_data: VersionEclData {
                data_codewords: 370,
                ec_codewords_per_block: 24,
                group1: VersionGroup { blocks: 2, codewords: 92 },
                group2: Some(VersionGroup { blocks: 2, codewords: 93 }),
            },
            m_data: VersionEclData {
                data_codewords: 290,
                ec_codewords_per_block: 22,
                group1: VersionGroup { blocks: 6, codewords: 36 },
                group2: Some(VersionGroup { blocks: 2, codewords: 37 }),
            },
            q_data: VersionEclData {
                data_codewords: 206,
                ec_codewords_per_block: 26,
                group1: VersionGroup { blocks: 4, codewords: 20 },
                group2: Some(VersionGroup { blocks: 6, codewords: 21 }),
            },
            h_data: VersionEclData {
                data_codewords: 158,
                ec_codewords_per_block: 28,
                group1: VersionGroup { blocks: 7, codewords: 14 },
                group2: Some(VersionGroup { blocks: 4, codewords: 15 }),
            },
        }
    } else if num == 13 {
        Version {
            num: 13,
            l_data: VersionEclData {
                data_codewords: 428,
                ec_codewords_per_block: 26,
                group1: VersionGroup { blocks: 4, codewords: 107 },
                group2: None,
            },
            m_data: VersionEclData {
                data_codewords: 334,
                ec_codewords_per_block: 22,
                group1: VersionGroup { blocks: 8, codewords: 37 },
                group2: Some(VersionGroup { blocks: 1, codewords: 38 }),
            },
            q_data: VersionEclData {
                data_codewords: 244,
                ec_codewords_per_block: 24,
                group1: VersionGroup { blocks: 8, codewords: 20 },
                group2: Some(VersionGroup { blocks: 4, codewords: 21 }),
            },
            h_data: VersionEclData {
                data_codewords: 180,
                ec_codewords_per_block: 22,
                group1: VersionGroup { blocks: 12, codewords: 11 },
                group2: Some(VersionGroup { blocks: 4, codewords: 12 }),
            },
        }
    } else if num == 14 {
        Version {
            num: 14,
            l_data: VersionEclData {
                data_codewords: 461,
                ec_codewords_per_block: 30,
                group1: VersionGroup { blocks: 3, codewords: 115 },
                group2: Some(VersionGroup { blocks: 1, codewords: 116 }),
            },
            m_data: VersionEclData {
                data_codewords: 365,
                ec_codewords_per_block: 24,
                group1: VersionGroup { blocks: 4, codewords: 40 },
                group2: Some(VersionGroup { blocks: 5, codewords: 41 }),
            },
            q_data: VersionEclData {
                data_codewords: 261,
                ec_codewords_per_block: 20,
                group1: VersionGroup { blocks: 11, codewords: 16 },
                group2: Some(VersionGroup { blocks: 5, codewords: 17 }),
            },
            h_data: VersionEclData {
                data_codewords: 197,
                ec_codewords_per_block: 24,
                group1: VersionGroup { blocks: 11, codewords: 12 },
                group2: Some(VersionGroup { blocks: 5, codewords: 13 }),
            },
        }
    } else if num == 15 {
        Version {
            num: 15,
            l_data: VersionEclData {
                data_codewords: 523,
                ec_codewords_per_block: 22,
                group1: VersionGroup { blocks: 5, codewords: 87 },
                group2: Some(VersionGroup { blocks: 1, codewords: 88 }),
            },
            m_data: VersionEclData {
                data_codewords: 415,
                ec_codewords_per_block: 24,
                group1: VersionGroup { blocks: 5, codewords: 41 },
                group2: Some(VersionGroup { blocks: 5, codewords: 42 }),
            },
            q_data: VersionEclData {
                data_codewords: 295,
                ec_codewords_per_block: 30,
                group1: VersionGroup { blocks: 5, codewords: 24 },
                group2: Some(VersionGroup { blocks: 7, codewords: 25 }),
            },
            h_data: VersionEclData {
                data_codewords: 223,
                ec_codewords_per_block: 24,
                group1: VersionGroup { blocks: 11, codewords: 12 },
                group2: Some(VersionGroup { blocks: 7, codewords: 13 }),
            },
        }
    } else if num == 16 {
        Version {
            num: 16,
            l_data: VersionEclData {
                data_codewords: 589,
                ec_codewords_per_block: 24,
                group1: VersionGroup { blocks: 5, codewords: 98 },
                group2: Some(VersionGroup { blocks: 1, codewords: 99 }),
            },
            m_data: VersionEclData {
                data_codewords: 453,
                ec_codewords_per_block: 28,
                group1: VersionGroup { blocks: 7, codewords: 45 },
                group2: Some(VersionGroup { blocks: 3, codewords: 46 }),
            },
            q_data: VersionEclData {
                data_codewords: 325,
                ec_codewords_per_block: 24,
                group1: VersionGroup { blocks: 15, codewords: 19 },
                group2: Some(VersionGroup { blocks: 2, codewords: 20 }),
            },
            h_data: VersionEclData {
                data_codewords: 253,
                ec_codewords_per_block: 30,
                group1: VersionGroup { blocks: 3, codewords: 15 },
                group2: Some(VersionGroup { blocks: 13, codewords: 16 }),
            },
        }
    } else if num == 17 {
        Version {
            num: 17,
            l_data: VersionEclData {
                data_codewords: 647,
                ec_codewords_per_block: 28,
                group1: VersionGroup { blocks: 1, codewords: 107 },
                group2: Some(VersionGroup { blocks: 5, codewords: 108 }),
            },
            m_data: VersionEclData {
                data_codewords: 507,
                ec_codewords_per_block: 28,
                group1: VersionGroup { blocks: 10, codewords: 46 },
                group2: Some(VersionGroup { blocks: 1, codewords: 47 }),
            },
            q_data: VersionEclData {
                data_codewords: 367,
                ec_codewords_per_block: 28,
                group1: VersionGroup { blocks: 1, codewords: 22 },
                group2: Some(VersionGroup { blocks: 15, codewords: 23 }),
            },
            h_data: VersionEclData {
                data_codewords: 283,
                ec_codewords_per_block: 28,
                group1: VersionGroup { blocks: 2, codewords: 14 },
                group2: Some(VersionGroup { blocks: 17, codewords: 15 }),
            },
        }
    } else if num == 18 {
        Version {
            num: 18,
            l_data: VersionEclData {
                data_codewords: 721,
                ec_codewords_per_block: 30,
                group1: VersionGroup { blocks: 5, codewords: 120 },
                group2: Some(VersionGroup { blocks: 1, codewords: 121 }),
            },
            m_data: VersionEclData {
                data_codewords: 563,
                ec_codewords_per_block: 26,
                group1: VersionGroup { blocks: 9, codewords: 43 },
                group2: Some(VersionGroup { blocks: 4, codewords: 44 }),
            },
            q_data: VersionEclData {
                data_codewords: 397,
                ec_codewords_per_block: 28,
                group1: VersionGroup { blocks: 17, codewords: 22 },
                group2: Some(VersionGroup { blocks: 1, codewords: 23 }),
            },
            h_data: VersionEclData {
                data_codewords: 313,
                ec_codewords_per_block: 28,
                group1: VersionGroup { blocks: 2, codewords: 14 },
                group2: Some(VersionGroup { blocks: 19, codewords: 15 }),
            },
        }
    } else if num == 19 {
        Version {
            num: 19,
            l_data: VersionEclData {
                data_codewords: 795,
                ec_codewords_per_block: 28,
                group1: VersionGroup { blocks: 3, codewords: 113 },
                group2: Some(VersionGroup { blocks: 4, codewords: 114 }),
            },
            m_data: VersionEclData {
                data_codewords: 627,
                ec_codewords_per_block: 26,
                group1: VersionGroup { blocks: 3, codewords: 44 },
                group2: Some(VersionGroup { blocks: 11, codewords: 45 }),
            },
            q_data: VersionEclData {
                data_codewords: 445,
                ec_codewords_per_block: 26,
                group1: VersionGroup { blocks: 17, codewords: 21 },
                group2: Some(VersionGroup { blocks: 4, codewords: 22 }),
            },
            h_data: VersionEclData {
                data_codewords: 341,
                ec_codewords_per_block: 26,
                group1: VersionGroup { blocks: 9, codewords: 13 },
                group2: Some(VersionGroup { blocks: 16, codewords: 14 }),
            },
        }
    } else if num == 20 {
        Version {
            num: 20,
            l_data: VersionEclData {
                data_codewords: 861,
                ec_codewords_per_block: 28,
                group1: VersionGroup { blocks: 3, codewords: 107 },
                group2: Some(VersionGroup { blocks: 5, codewords: 108 }),
            },
            m_data: VersionEclData {
                data_codewords: 669,
                ec_codewords_per_block: 26,
                group1: VersionGroup { blocks: 3, codewords: 41 },
                group2: Some(VersionGroup { blocks: 13, codewords: 42 }),
            },
            q_data: VersionEclData {
                data_codewords: 485,
                ec_codewords_per_block: 30,
                group1: VersionGroup { blocks: 15, codewords: 24 },
                group2: Some(VersionGroup { blocks: 5, codewords: 25 }),
            },
            h_data: VersionEclData {
                data_codewords: 385,
                ec_codewords_per_block: 28,
                group1: VersionGroup { blocks: 15, codewords: 15 },
                group2: Some(VersionGroup { blocks: 10, codewords: 16 }),
            },
        }
    } else if num == 21 {
        Version {
            num: 21,
            l_data: VersionEclData {
                data_codewords: 932,
                ec_codewords_per_block: 28,
                group1: VersionGroup { blocks: 4, codewords: 116 },
                group2: Some(VersionGroup { blocks: 4, codewords: 117 }),
            },
            m_data: VersionEclData {
                data_codewords: 714,
                ec_codewords_per_block: 26,
                group1: VersionGroup { blocks: 17, codewords: 42 },
                group2: None,
            },
            q_data: VersionEclData {
                data_codewords: 512,
                ec_codewords_per_block: 28,
                group1: VersionGroup { blocks: 17, codewords: 22 },
                group2: Some(VersionGroup { blocks: 6, codewords: 23 }),
            },
            h_data: VersionEclData {
                data_codewords: 406,
                ec_codewords_per_block: 30,
                group1: VersionGroup { blocks: 19, codewords: 16 },
                group2: Some(VersionGroup { blocks: 6, codewords: 17 }),
            },
        }
    } else if num == 22 {
        Version {
            num: 22,
            l_data: VersionEclData {
                data_codewords: 1006,
                ec_codewords_per_block: 28,
                group1: VersionGroup { blocks: 2, codewords: 111 },
                group2: Some(VersionGroup { blocks: 7, codewords: 112 }),
            },
            m_data: VersionEclData {
                data_codewords: 782,
                ec_codewords_per_block: 28,
                group1: VersionGroup { blocks: 17, codewords: 46 },
                group2: None,
            },
            q_data: VersionEclData {
                data_codewords: 568,
                ec_codewords_per_block: 30,
                group1: VersionGroup { blocks: 7, codewords: 24 },
                group2: Some(VersionGroup { blocks: 16, codewords: 25 }),
            },
            h_data: VersionEclData {
                data_codewords: 442,
                ec_codewords_per_block: 24,
                group1: VersionGroup { blocks: 34, codewords: 13 },
                group2: None,
            },
        }
    } else if num == 23 {
        Version {
            num: 23,
            l_data: VersionEclData {
                data_codewords: 1094,
                ec_codewords_per_block: 30,
                group1: VersionGroup { blocks: 4, codewords: 121 },
                group2: Some(VersionGroup { blocks: 5, codewords: 122 }),
            },
            m_data: VersionEclData {
                data_codewords: 860,
                ec_codewords_per_block: 28,
                group1: VersionGroup { blocks: 4, codewords: 47 },
                group2: Some(VersionGroup { blocks: 14, codewords: 48 }),
            },
            q_data: VersionEclData {
                data_codewords: 614,
                ec_codewords_per_block: 30,
                group1: VersionGroup { blocks: 11, codewords: 24 },
                group2: Some(VersionGroup { blocks: 14, codewords: 25 }),
            },
            h_data: VersionEclData {
                data_codewords: 464,
                ec_codewords_per_block: 30,
                group1: VersionGroup { blocks: 16, codewords: 15 },
                group2: Some(VersionGroup { blocks: 14, codewords: 16 }),
            },
        }
    } else if num == 24 {
        Version {
            num: 24,
            l_data: VersionEclData {
                data_codewords: 1174,
                ec_codewords_per_block: 30,
                group1: VersionGroup { blocks: 6, codewords: 117 },
                group2: Some(VersionGroup { blocks: 4, codewords: 118 }),
            },
            m_data: VersionEclData {
                data_codewords: 914,
                ec_codewords_per_block: 28,
                group1: VersionGroup { blocks: 6, codewords: 45 },
                group2: Some(VersionGroup { blocks: 14, codewords: 46 }),
            },
            q_data: VersionEclData {
                data_codewords: 664,
                ec_codewords_per_block: 30,
                group1: VersionGroup { blocks: 11, codewords: 24 },
                group2: Some(VersionGroup { blocks: 16, codewords: 25 }),
            },
            h_data: VersionEclData {
                data_codewords: 514,
                ec_codewords_per_block: 30,
                group1: VersionGroup { blocks: 30, codewords: 16 },
                group2: Some(VersionGroup { blocks: 2, codewords: 17 }),
            },
        }
    } else if num == 25 {
        Version {
            num: 25,
            l_data: VersionEclData {
                data_codewords: 1276,
                ec_codewords_per_block: 26,
                group1: VersionGroup { blocks: 8, codewords: 106 },
                group2: Some(VersionGroup { blocks: 4, codewords: 107 }),
            },
            m_data: VersionEclData {
                data_codewords: 1000,
                ec_codewords_per_block: 28,
                group1: VersionGroup { blocks: 8, codewords: 47 },
                group2: Some(VersionGroup { blocks: 13, codewords: 48 }),
            },
            q_data: VersionEclData {
                data_codewords: 718,
                ec_codewords_per_block: 30,
                group1: VersionGroup { blocks: 7, codewords: 24 },
                group2: Some(VersionGroup { blocks: 22, codewords: 25 }),
            },
            h_data: VersionEclData {
                data_codewords: 538,
                ec_codewords_per_block: 30,
                group1: VersionGroup { blocks: 22, codewords: 15 },
                group2: Some(VersionGroup { blocks: 13, codewords: 16 }),
            },
        }
    } else if num == 26 {
        Version {
            num: 26,
            l_data: VersionEclData {
                data_codewords: 1370,
                ec_codewords_per_block: 28,
                group1: VersionGroup { blocks: 10, codewords: 114 },
                group2: Some(VersionGroup { blocks: 2, codewords: 115 }),
            },
            m_data: VersionEclData {
                data_codewords: 1062,
                ec_codewords_per_block: 28,
                group1: VersionGroup { blocks: 19, codewords: 46 },
                group2: Some(VersionGroup { blocks: 4, codewords: 47 }),
            },
            q_data: VersionEclData {
                data_codewords: 754,
                ec_codewords_per_block: 28,
                group1: VersionGroup { blocks: 28, codewords: 22 },
                group2: Some(VersionGroup { blocks: 6, codewords: 23 }),
            },
            h_data: VersionEclData {
                data_codewords: 596,
                ec_codewords_per_block: 30,
                group1: VersionGroup { blocks: 33, codewords: 16 },
                group2: Some(VersionGroup { blocks: 4, codewords: 17 }),
            },
        }
    } else if num == 27 {
        Version {
            num: 27,
            l_data: VersionEclData {
                data_codewords: 1468,
                ec_codewords_per_block: 30,
                group1: VersionGroup { blocks: 8, codewords: 122 },
                group2: Some(VersionGroup { blocks: 4, codewords: 123 }),
            },
            m_data: VersionEclData {
                data_codewords: 1128,
                ec_codewords_per_block: 28,
                group1: VersionGroup { blocks: 22, codewords: 45 },
                group2: Some(VersionGroup { blocks: 3, codewords: 46 }),
            },
            q_data: VersionEclData {
                data_codewords: 808,
                ec_codewords_per_block: 30,
                group1: VersionGroup { blocks: 8, codewords: 23 },
                group2: Some(VersionGroup { blocks: 26, codewords: 24 }),
            },
            h_data: VersionEclData {
                data_codewords: 628,
                ec_codewords_per_block: 30,
                group1: VersionGroup { blocks: 12, codewords: 15 },
                group2: Some(VersionGroup { blocks: 28, codewords: 16 }),
            },
        }
    } else if num == 28 {
        Version {
            num: 28,
            l_data: VersionEclData {
                data_codewords: 1531,
                ec_codewords_per_block: 30,
                group1: VersionGroup { blocks: 3, codewords: 117 },
                group2: Some(VersionGroup { blocks: 10, codewords: 118 }),
            },
            m_data: VersionEclData {
                data_codewords: 1193,
                ec_codewords_per_block: 28,
                group1: VersionGroup { blocks: 3, codewords: 45 },
                group2: Some(VersionGroup { blocks: 23, codewords: 46 }),
            },
            q_data: VersionEclData {
                data_codewords: 871,
                ec_codewords_per_block: 30,
                group1: VersionGroup { blocks: 4, codewords: 24 },
                group2: Some(VersionGroup { blocks: 31, codewords: 25 }),
            },
            h_data: VersionEclData {
                data_codewords: 661,
                ec_codewords_per_block: 30,
                group1: VersionGroup { blocks: 11, codewords: 15 },
                group2: Some(VersionGroup { blocks: 31, codewords: 16 }),
            },
        }
    } else if num == 29 {
        Version {
            num: 29,
            l_data: VersionEclData {
                data_codewords: 1631,
                ec_codewords_per_block: 30,
                group1: VersionGroup { blocks: 7, codewords: 116 },
                group2: Some(VersionGroup { blocks: 7, codewords: 117 }),
            },
            m_data: VersionEclData {
                data_codewords: 1267,
                ec_codewords_per_block: 28,
                group1: VersionGroup { blocks: 21, codewords: 45 },
                group2: Some(VersionGroup { blocks: 7, codewords: 46 }),
            },
            q_data: VersionEclData {
                data_codewords: 911,
                ec_codewords_per_block: 30,
                group1: VersionGroup { blocks: 1, codewords: 23 },
                group2: Some(VersionGroup { blocks: 37, codewords: 24 }),
            },
            h_data: VersionEclData {
                data_codewords: 701,
                ec_codewords_per_block: 30,
                group1: VersionGroup { blocks: 19, codewords: 15 },
                group2: Some(VersionGroup { blocks: 26, codewords: 16 }),
            },
        }
    } else if num == 30 {
        Version {
            num: 30,
            l_data: VersionEclData {
                data_codewords: 1735,
                ec_codewords_per_block: 30,
                group1: VersionGroup { blocks: 5, codewords: 115 },
                group2: Some(VersionGroup { blocks: 10, codewords: 116 }),
            },
            m_data: VersionEclData {
                data_codewords: 1373,
                ec_codewords_per_block: 28,
                group1: VersionGroup { blocks: 19, codewords: 47 },
                group2: Some(VersionGroup { blocks: 10, codewords: 48 }),
            },
            q_data: VersionEclData {
                data_codewords: 985,
                ec_codewords_per_block: 30,
                group1: VersionGroup { blocks: 15, codewords: 24 },
                group2: Some(VersionGroup { blocks: 25, codewords: 25 }),
            },
            h_data: VersionEclData {
                data_codewords: 745,
                ec_codewords_per_block: 30,
                group1: VersionGroup { blocks: 23, codewords: 15 },
                group2: Some(VersionGroup { blocks: 25, codewords: 16 }),
            },
        }
    } else if num == 31 {
        Version {
            num: 31,
            l_data: VersionEclData {
                data_codewords: 1843,
                ec_codewords_per_block: 30,
                group1: VersionGroup { blocks: 13, codewords: 115 },
                group2: Some(VersionGroup { blocks: 3, codewords: 116 }),
            },
            m_data: VersionEclData {
                data_codewords: 1455,
                ec_codewords_per_block: 28,
                group1: VersionGroup { blocks: 2, codewords: 46 },
                group2: Some(VersionGroup { blocks: 29, codewords: 47 }),
            },
            q_data: VersionEclData {
                data_codewords: 1033,
                ec_codewords_per_block: 30,
                group1: VersionGroup { blocks: 42, codewords: 24 },
                group2: Some(VersionGroup { blocks: 1, codewords: 25 }),
            },
            h_data: VersionEclData {
                data_codewords: 793,
                ec_codewords_per_block: 30,
                group1: VersionGroup { blocks: 23, codewords: 15 },
                group2: Some(VersionGroup { blocks: 28, codewords: 16 }),
            },
        }
    } else if num == 32 {
        Version {
            num: 32,
            l_data: VersionEclData {
                data_codewords: 1955,
                ec_codewords_per_block: 30,
                group1: VersionGroup { blocks: 17, codewords: 115 },
                group2: None,
            },
            m_data: VersionEclData {
                data_codewords: 1541,
                ec_codewords_per_block: 28,
                group1: VersionGroup { blocks: 10, codewords: 46 },
                group2: Some(VersionGroup { blocks: 23, codewords: 47 }),
            },
            q_data: VersionEclData {
                data_codewords: 1115,
                ec_codewords_per_block: 30,
                group1: VersionGroup { blocks: 10, codewords: 24 },
                group2: Some(VersionGroup { blocks: 35, codewords: 25 }),
            },
            h_data: VersionEclData {
                data_codewords: 845,
                ec_codewords_per_block: 30,
                group1: VersionGroup { blocks: 19, codewords: 15 },
                group2: Some(VersionGroup { blocks: 35, codewords: 16 }),
            },
        }
    } else if num == 33 {
        Version {
            num: 33,
            l_data: VersionEclData {
                data_codewords: 2071,
                ec_codewords_per_block: 30,
                group1: VersionGroup { blocks: 17, codewords: 115 },
                group2: Some(VersionGroup { blocks: 1, codewords: 116 }),
            },
            m_data: VersionEclData {
                data_codewords: 1631,
                ec_codewords_per_block: 28,
                group1: VersionGroup { blocks: 14, codewords: 46 },
                group2: Some(VersionGroup { blocks: 21, codewords: 47 }),
            },
            q_data: VersionEclData {
                data_codewords: 1171,
                ec_codewords_per_block: 30,
                group1: VersionGroup { blocks: 29, codewords: 24 },
                group2: Some(VersionGroup { blocks: 19, codewords: 25 }),
            },
            h_data: VersionEclData {
                data_codewords: 901,
                ec_codewords_per_block: 30,
                group1: VersionGroup { blocks: 11, codewords: 15 },
                group2: Some(VersionGroup { blocks: 46, codewords: 16 }),
            },
        }
    } else if num == 34 {
        Version {
            num: 34,
            l_data: VersionEclData {
                data_codewords: 2191,
                ec_codewords_per_block: 30,
                group1: VersionGroup { blocks: 13, codewords: 115 },
                group2: Some(VersionGroup { blocks: 6, codewords: 116 }),
            },
            m_data: VersionEclData {
                data_codewords: 1725,
                ec_codewords_per_block: 28,
                group1: VersionGroup { blocks: 14, codewords: 46 },
                group2: Some(VersionGroup { blocks: 23, codewords: 47 }),
            },
            q_data: VersionEclData {
                data_codewords: 1231,
                ec_codewords_per_block: 30,
                group1: VersionGroup { blocks: 44, codewords: 24 },
                group2: Some(VersionGroup { blocks: 7, codewords: 25 }),
            },
            h_data: VersionEclData {
                data_codewords: 961,
                ec_codewords_per_block: 30,
                group1: VersionGroup { blocks: 59, codewords: 16 },
                group2: Some(VersionGroup { blocks: 1, codewords: 17 }),
            },
        }
    } else if num == 35 {
        Version {
            num: 35,
            l_data: VersionEclData {
                data_codewords: 2306,
                ec_codewords_per_block: 30,
                group1: VersionGroup { blocks: 12, codewords: 121 },
                group2: Some(VersionGroup { blocks: 7, codewords: 122 }),
            },
            m_data: VersionEclData {
                data_codewords: 1812,
                ec_codewords_per_block: 28,
                group1: VersionGroup { blocks: 12, codewords: 47 },
                group2: Some(VersionGroup { blocks: 26, codewords: 48 }),
            },
            q_data: VersionEclData {
                data_codewords: 1286,
                ec_codewords_per_block: 30,
                group1: VersionGroup { blocks: 39, codewords: 24 },
                group2: Some(VersionGroup { blocks: 14, codewords: 25 }),
            },
            h_data: VersionEclData {
                data_codewords: 986,
                ec_codewords_per_block: 30,
                group1: VersionGroup { blocks: 22, codewords: 15 },
                group2: Some(VersionGroup { blocks: 41, codewords: 16 }),
            },
        }
    } else if num == 36 {
        Version {
            num: 36,
            l_data: VersionEclData {
                data_codewords: 2434,
                ec_codewords_per_block: 30,
                group1: VersionGroup { blocks: 6, codewords: 121 },
                group2: Some(VersionGroup { blocks: 14, codewords: 122 }),
            },
            m_data: VersionEclData {
                data_codewords: 1914,
                ec_codewords_per_block: 28,
                group1: VersionGroup { blocks: 6, codewords: 47 },
                group2: Some(VersionGroup { blocks: 34, codewords: 48 }),
            },
            q_data: VersionEclData {
                data_codewords: 1354,
                ec_codewords_per_block: 30,
                group1: VersionGroup { blocks: 46, codewords: 24 },
                group2: Some(VersionGroup { blocks: 10, codewords: 25 }),
            },
            h_data: VersionEclData {
                data_codewords: 1054,
                ec_codewords_per_block: 30,
                group1: VersionGroup { blocks: 2, codewords: 15 },
                group2: Some(VersionGroup { blocks: 64, codewords: 16 }),
            },
        }
    } else if num == 37 {
        Version {
            num: 37,
            l_data: VersionEclData {
                data_codewords: 2566,
                ec_codewords_per_block: 30,
                group1: VersionGroup { blocks: 17, codewords: 122 },
                group2: Some(VersionGroup { blocks: 4, codewords: 123 }),
            },
            m_data: VersionEclData {
                data_codewords: 1992,
                ec_codewords_per_block: 28,
                group1: VersionGroup { blocks: 29, codewords: 46 },
                group2: Some(VersionGroup { blocks: 14, codewords: 47 }),
            },
            q_data: VersionEclData {
                data_codewords: 1426,
                ec_codewords_per_block: 30,
                group1: VersionGroup { blocks: 49, codewords: 24 },
                group2: Some(VersionGroup { blocks: 10, codewords: 25 }),
            },
            h_data: VersionEclData {
                data_codewords: 1096,
                ec_codewords_per_block: 30,
                group1: VersionGroup { blocks: 24, codewords: 15 },
                group2: Some(VersionGroup { blocks: 46, codewords: 16 }),
            },
        }
    } else if num == 38 {
        Version {
            num: 38,
            l_data: VersionEclData {
                data_codewords: 2702,
                ec_codewords_per_block: 30,
                group1: VersionGroup { blocks: 4, codewords: 122 },
                group2: Some(VersionGroup { blocks: 18, codewords: 123 }),
            },
            m_data: VersionEclData {
                data_codewords: 2102,
                ec_codewords_per_block: 28,
                group1: VersionGroup { blocks: 13, codewords: 46 },
                group2: Some(VersionGroup { blocks: 32, codewords: 47 }),
            },
            q_data: VersionEclData {
                data_codewords: 1502,
                ec_codewords_per_block: 30,
                group1: VersionGroup { blocks: 48, codewords: 24 },
                group2: Some(VersionGroup { blocks: 14, codewords: 25 }),
            },
            h_data: VersionEclData {
                data_codewords: 1142,
                ec_codewords_per_block: 30,
                group1: VersionGroup { blocks: 42, codewords: 15 },
                group2: Some(VersionGroup { blocks: 32, codewords: 16 }),
            },
        }
    } else if num == 39 {
        Version {
            num: 39,
            l_data: VersionEclData {
                data_codewords: 2812,
                ec_codewords_per_block: 30,
                group1: VersionGroup { blocks: 20, codewords: 117 },
                group2: Some(VersionGroup { blocks: 4, codewords: 118 }),
            },
            m_data: VersionEclData {
                data_codewords: 2216,
                ec_codewords_per_block: 28,
                group1: VersionGroup { blocks: 40, codewords: 47 },
                group2: Some(VersionGroup { blocks: 7, codewords: 48 }),
            },
            q_data: VersionEclData {
                data_codewords: 1582,
                ec_codewords_per_block: 30,
                group1: VersionGroup { blocks: 43, codewords: 24 },
                group2: Some(VersionGroup { blocks: 22, codewords: 25 }),
            },
            h_data: VersionEclData {
                data_codewords: 1222,
                ec_codewords_per_block: 30,
                group1: VersionGroup { blocks: 10, codewords: 15 },
                group2: Some(VersionGroup { blocks: 67, codewords: 16 }),
            },
        }
    } else {
        Version {
            num: 40,
            l_data: VersionEclData {
                data_codewords: 2956,
                ec_codewords_per_block: 30,
                group1: VersionGroup { blocks: 19, codewords: 118 },
                group2: Some(VersionGroup { blocks: 6, codewords: 119 }),
            },
            m_data: VersionEclData {
                data_codewords: 2334,
                ec_codewords_per_block: 28,
                group1: VersionGroup { blocks: 18, codewords: 47 },
                group2: Some(VersionGroup { blocks: 31, codewords: 48 }),
            },
            q_data: VersionEclData {
                data_codewords: 1666,
                ec_codewords_per_block: 30,
                group1: VersionGroup { blocks: 34, codewords: 24 },
                group2: Some(VersionGroup { blocks: 34, codewords: 25 }),
            },
            h_data: VersionEclData {
                data_codewords: 1276,
                ec_codewords_per_block: 30,
                group1: VersionGroup { blocks: 20, codewords: 15 },
                group2: Some(VersionGroup { blocks: 61, codewords: 16 }),
            },
        }
    }
}

/// An input longer than the accepted maximum packs to more bits than any
/// version can hold at any level, whatever mode is chosen.
pub proof fn lemma_no_version_fits_when_long(data: &str, ecl: ErrorCorrectionLevel)
    requires
        data.spec_bytes().len() > MAX_INPUT_BYTES,
    ensures
        forall|w: int|
            1 <= w <= 40 ==> !spec_version_fits(
                spec_choose_encoding(data@),
                spec_packed_bits(spec_choose_encoding(data@), data).len() as int,
                ecl,
                w,
            ),
{
    let e = spec_choose_encoding(data@);
    let plen = spec_packed_bits(e, data).len() as int;
    let bytes = data.spec_bytes().len() as int;
    match e {
        QREncoding::Numeric => {
            lemma_numeric_bits_len(data@);
            lemma_numeric_is_ascii(data@);
            lemma_utf8_len_ascii(data@);
            assert(plen >= 2 * bytes);
        },
        QREncoding::Alphanumeric => {
            lemma_alnum_bits_len(data@);
            lemma_alnum_is_ascii(data@);
            lemma_utf8_len_ascii(data@);
            assert(plen >= 2 * bytes);
        },
        QREncoding::Bytes => {
            lemma_bytes_bits_len(spec_encoded_bytes(data));
            if spec_fits_latin1(data@) {
                lemma_utf8_len_latin1(data@);
                assert(spec_encoded_bytes(data).len() == data@.len());
                assert(plen >= 2 * bytes);
            } else {
                assert(spec_encoded_bytes(data) == data.spec_bytes());
                assert(plen >= 2 * bytes);
            }
        },
        QREncoding::Kanji => {
            assert(false);
        },
    }
    assert forall|w: int| 1 <= w <= 40 implies !spec_version_fits(e, plen, ecl, w) by {
        lemma_capacity_table_consistent(w);
        let vd = spec_version(w).spec_values_at(ecl);
        assert(vd.wf());
        assert(spec_codeword_count_before_padding(e, plen, w) > 2956);
    }
}

/// Scans versions one to forty in increasing order and returns the first
/// whose capacity strictly exceeds the stream's codeword count; reports
/// the data as too long when none does.
pub fn choose_version(encoder: &QRBitstreamEncoder, ecl: &ErrorCorrectionLevel) -> (r: Result<
    Version,
    Error,
>)
    requires
        encoder.wf(),
    ensures
        ({
            let e = encoder.encoding;
            let plen = bit_seq(encoder.data).len() as int;
            match r {
                Ok(v) => v.wf() && v == spec_version(v.num as int) && spec_version_fits(
                    e,
                    plen,
                    *ecl,
                    v.num as int,
                ) && forall|w: int| 1 <= w < v.num ==> !spec_version_fits(e, plen, *ecl, w),
                Err(_) => forall|w: int| 1 <= w <= 40 ==> !spec_version_fits(e, plen, *ecl, w),
            }
        }),
{
    let mut num: usize = 1;
    while num <= 40
        invariant
            1 <= num <= 41,
            encoder.wf(),
            forall|w: int|
                1 <= w < num ==> !spec_version_fits(
                    encoder.encoding,
                    bit_seq(encoder.data).len() as int,
                    *ecl,
                    w,
                ),
        decreases 41 - num,
    {
        let version = Version::by_num(num);
        let codewords = encoder.codeword_count_before_padding(num as u8);
        let cap = version.codeword_count(ecl);
        if codewords < cap {
            return Ok(version);
        }
        num += 1;
    }
    Err("The data is too long for a QR code at that error correction level!".to_owned())
}

} // verus!
