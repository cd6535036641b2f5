//! Byte-order selection for binary calibration and image files.
//!
//! The memory-mapped file reader itself performs I/O and lives outside the
//! verified library; the byte-order tag and its integer decoding are plain
//! values.
use vstd::prelude::*;

verus! {

/// Byte order of a binary file.
#[derive(Debug, Copy, Clone, PartialEq, Eq, Structural)]
pub enum Endian {
    BigEndian,
    LittleEndian,
    NativeEndian,
}

/// Failure to interpret an integer tag as a byte order.
#[derive(Debug, Copy, Clone, PartialEq, Eq, Structural)]
pub enum EndianError {
    InvalidEnumValue,
}

impl Endian {
    /// Decodes the integer tag used by binary headers: 1 is big-endian,
    /// 0 is little-endian, 100 is native; anything else is rejected.
    pub fn from_i32(v: i32) -> (r: Result<Endian, EndianError>)
        ensures
            v == 1 ==> r == Ok::<Endian, EndianError>(Endian::BigEndian),
            v == 0 ==> r == Ok::<Endian, EndianError>(Endian::LittleEndian),
            v == 100 ==> r == Ok::<Endian, EndianError>(Endian::NativeEndian),
            v != 1 && v != 0 && v != 100 ==> r == Err::<Endian, EndianError>(
                EndianError::InvalidEnumValue,
            ),
    {
        match v {
            1 => Ok(Endian::BigEndian),
            0 => Ok(Endian::LittleEndian),
            100 => Ok(Endian::NativeEndian),
            _ => Err(EndianError::InvalidEnumValue),
        }
    }
}

} // verus!
