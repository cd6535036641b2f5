//! Colorspace identities and the stateless converter handles.
//!
//! The conversions themselves are floating-point matrix and gamma
//! arithmetic and live outside the verified library.
use vstd::prelude::*;

verus! {

/// The colorspace a pixel triple is expressed in.
#[allow(non_camel_case_types)]
#[derive(Debug, Copy, Clone, PartialEq, Eq, Structural)]
pub enum ColorSpaceType {
    RGB,
    iRGB,
    sRGB,
    pRGB,
    XYZ,
    RAD,
    xyY,
}

/// Converts CIE XYZ triples to chromaticity xyY. The conversion needs no
/// calibration state.
#[derive(Debug, Copy, Clone, PartialEq, Eq, Structural)]
pub struct Xyz2xyYConverter {}

impl Xyz2xyYConverter {
    pub fn new() -> (r: Self)
        ensures
            r == (Xyz2xyYConverter {  }),
    {
        Xyz2xyYConverter {  }
    }
}

impl Default for Xyz2xyYConverter {
    fn default() -> (r: Self)
        ensures
            r == (Xyz2xyYConverter {  }),
    {
        Xyz2xyYConverter::new()
    }
}

/// Converts linear RGB triples to gamma-corrected sRGB. The conversion
/// needs no calibration state.
#[derive(Debug, Copy, Clone, PartialEq, Eq, Structural)]
pub struct Rgb2sRgbConverter {}

impl Rgb2sRgbConverter {
    pub fn new() -> (r: Self)
        ensures
            r == (Rgb2sRgbConverter {  }),
    {
        Rgb2sRgbConverter {  }
    }
}

impl Default for Rgb2sRgbConverter {
    fn default() -> (r: Self)
        ensures
            r == (Rgb2sRgbConverter {  }),
    {
        Rgb2sRgbConverter::new()
    }
}

} // verus!
