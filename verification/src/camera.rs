//! Identity of the camera projection models.
//!
//! The projection mathematics itself (forward and inverse projection,
//! distortion solving, linearization) runs on floating-point vectors and
//! therefore lives outside the verified library; these tags describe which
//! member of the model family a calibration belongs to.
use vstd::prelude::*;

verus! {

/// Which member of the camera-model family a calibration uses.
#[derive(Debug, Copy, Clone, PartialEq, Eq, Structural)]
pub enum ModelType {
    CAHV,
    CAHVOR,
    CAHVORE,
}

/// Qualitative classification of the lens behaviour that contextualizes
/// the generalized model's linearity parameter.
#[derive(Debug, Copy, Clone, PartialEq, Eq, Structural)]
pub enum PupilType {
    Perspective,
    Fisheye,
    General,
}

/// Whether a legacy calibration record carries distortion terms.
#[derive(Debug, Copy, Clone, PartialEq, Eq, Structural)]
pub enum Mode {
    Cahvor,
    Cahv,
}

impl Default for Mode {
    /// The legacy record format defaults to the distortion-free model.
    fn default() -> (r: Self)
        ensures
            r == Mode::Cahv,
    {
        Mode::Cahv
    }
}

} // verus!
