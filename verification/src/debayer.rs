//! Bayer filter-pattern identities and demosaicing method selection.
//!
//! The demosaicing kernels themselves work on floating-point pixel
//! buffers and live outside the verified library.
use vstd::prelude::*;

use crate::util::seq_eq_nocase;

verus! {

/// 32-bit filter-pattern code for the BGGR bayer grid.
pub const FILTER_PATTERN_BGGR: u32 = 0x16161616;

/// 32-bit filter-pattern code for the GRBG bayer grid.
pub const FILTER_PATTERN_GRBG: u32 = 0x61616161;

/// 32-bit filter-pattern code for the GBRG bayer grid.
pub const FILTER_PATTERN_GBRG: u32 = 0x49494949;

/// 32-bit filter-pattern code for the RGGB bayer grid.
pub const FILTER_PATTERN_RGGB: u32 = 0x94949494;

/// One of the four major bayer grids.
#[derive(Debug, Copy, Clone, PartialEq, Eq, Structural)]
pub enum FilterPattern {
    BGGR,
    GRBG,
    GBRG,
    RGGB,
}

impl FilterPattern {
    /// The 32-bit filter-pattern code of this grid.
    pub fn pattern(self) -> (r: u32)
        ensures
            self == FilterPattern::BGGR ==> r == FILTER_PATTERN_BGGR,
            self == FilterPattern::GRBG ==> r == FILTER_PATTERN_GRBG,
            self == FilterPattern::GBRG ==> r == FILTER_PATTERN_GBRG,
            self == FilterPattern::RGGB ==> r == FILTER_PATTERN_RGGB,
    {
        match self {
            FilterPattern::BGGR => FILTER_PATTERN_BGGR,
            FilterPattern::GBRG => FILTER_PATTERN_GBRG,
            FilterPattern::GRBG => FILTER_PATTERN_GRBG,
            FilterPattern::RGGB => FILTER_PATTERN_RGGB,
        }
    }
}

/// A demosaicing algorithm.
#[derive(Debug, Copy, Clone, PartialEq, Eq, Structural)]
pub enum DebayerMethod {
    Malvar,
    AMaZE,
    Bilinear,
}

/// The demosaicing method a spelled-out name selects, ignoring ASCII
/// case; an unrecognized name selects nothing.
pub open spec fn spec_debayer_method_from_string(s: Seq<char>) -> Option<DebayerMethod> {
    if seq_eq_nocase(s, seq!['m', 'a', 'l', 'v', 'a', 'r']) {
        Some(DebayerMethod::Malvar)
    } else if seq_eq_nocase(s, seq!['a', 'm', 'a', 'z', 'e']) {
        Some(DebayerMethod::AMaZE)
    } else if seq_eq_nocase(s, seq!['b', 'i', 'l', 'i', 'n', 'e', 'a', 'r']) {
        Some(DebayerMethod::Bilinear)
    } else {
        None
    }
}

impl DebayerMethod {
    /// Picks the demosaicing method a spelled-out name selects, in any
    /// ASCII case.
    pub fn from_string(s: &str) -> (r: Option<DebayerMethod>)
        ensures
            r == spec_debayer_method_from_string(s@),
    {
        proof {
            reveal_strlit("malvar");
            reveal_strlit("amaze");
            reveal_strlit("bilinear");
            assert("malvar"@ =~= seq!['m', 'a', 'l', 'v', 'a', 'r']);
            assert("amaze"@ =~= seq!['a', 'm', 'a', 'z', 'e']);
            assert("bilinear"@ =~= seq!['b', 'i', 'l', 'i', 'n', 'e', 'a', 'r']);
        }
        if crate::util::str_eq_nocase(s, "malvar") {
            Some(DebayerMethod::Malvar)
        } else if crate::util::str_eq_nocase(s, "amaze") {
            Some(DebayerMethod::AMaZE)
        } else if crate::util::str_eq_nocase(s, "bilinear") {
            Some(DebayerMethod::Bilinear)
        } else {
            None
        }
    }
}

impl core::str::FromStr for DebayerMethod {
    type Err = String;

    fn from_str(s: &str) -> Result<DebayerMethod, String> {
        match DebayerMethod::from_string(s) {
            Some(m) => Ok(m),
            None => Err("unrecognized debayer method".to_owned()),
        }
    }
}

} // verus!
