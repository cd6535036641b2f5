//! Enumerations shared across the toolkit: calibration-file roles, image
//! bit-depth modes, and coordinate axes.
use vstd::prelude::*;

verus! {

/// Role of an externally supplied calibration file.
#[derive(Debug, Copy, Clone, PartialEq, Eq, Structural)]
pub enum CalFileType {
    FlatField,
    InpaintMask,
    Mask,
}

/// Value range of the image data. Does not enforce actual value data
/// types in the pixel containers.
#[derive(Debug, Copy, Clone, PartialEq, Eq, Structural)]
pub enum ImageMode {
    U8BIT,
    U12BIT,
    U16BIT,
}

/// A coordinate axis in three-dimensional space.
#[derive(Debug, Copy, Clone, PartialEq, Eq, Structural)]
pub enum Axis {
    XAxis,
    YAxis,
    ZAxis,
}

} // verus!
