//! The version number of the JVM tool interface.
use vstd::prelude::*;

verus! {

/// A JVMTI version: major, minor and micro numbers.
#[derive(Clone, Copy, PartialEq, Eq, Debug, Structural)]
pub struct VersionNumber {
    pub major_version: u32,
    pub minor_version: u32,
    pub micro_version: u32,
}

impl VersionNumber {
    /// Splits a packed JVMTI version number (major in bits 16 to 27, minor
    /// in bits 8 to 15, micro in bits 0 to 7).
    pub fn from_u32(version: &u32) -> (r: VersionNumber)
        ensures
            r.major_version == (*version & 0x0FFF0000u32) >> 16u32,
            r.minor_version == (*version & 0x0000FF00u32) >> 8u32,
            r.micro_version == *version & 0x000000FFu32,
    {
        let v = *version;
        VersionNumber {
            major_version: (v & 0x0FFF0000u32) >> 16u32,
            minor_version: (v & 0x0000FF00u32) >> 8u32,
            micro_version: v & 0x000000FFu32,
        }
    }
}

} // verus!
