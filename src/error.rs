use vstd::prelude::*;

verus! {

/// Why a byte-level input was refused.
#[derive(Debug, Clone, Copy, PartialEq, Eq, Structural)]
pub enum Error {
    /// A hex string of odd length or with a character that is not a hex digit.
    InvalidHexFormat,
    /// A byte string whose length is not the fixed size of the value it encodes.
    InvalidBytesLength,
    /// A scalar-field element whose big-endian value is not below the modulus.
    NonCanonicalFieldElement,
    /// A compressed point that does not decode to a point of the G1 subgroup.
    InvalidPoint,
    /// Parallel sequences whose lengths differ.
    MismatchLength,
}

} // verus!
