//! The failures that the stealth address operations report.

use vstd::prelude::*;

verus! {

/// Why an operation refused its input.
#[derive(Clone, Copy, Debug, PartialEq, Eq, Structural)]
pub enum StealthError {
    /// A byte buffer does not have the size that its role requires.
    InvalidLength,
    /// Bytes in the place of a public key do not describe a point of the curve.
    InvalidPoint,
    /// Bytes in the place of a private key are zero or not below the group order.
    InvalidScalar,
    /// One of the two halves of a meta-address is not a public key.
    InvalidMetaAddress,
    /// An ephemeral key led to a shared secret that no stealth address can be built on.
    DegenerateSecret,
    /// A text is not `0x` followed by an even number of hexadecimal digits.
    InvalidHex,
}

impl StealthError {
    /// A short description, for callers that show the failure to a person.
    pub fn message(&self) -> (text: &'static str)
        ensures
            text@ == Self::message_of(*self),
    {
        match self {
            StealthError::InvalidLength => "invalid length",
            StealthError::InvalidPoint => "invalid curve point",
            StealthError::InvalidScalar => "invalid scalar",
            StealthError::InvalidMetaAddress => "invalid stealth meta-address",
            StealthError::DegenerateSecret => "degenerate shared secret",
            StealthError::InvalidHex => "invalid hexadecimal text",
        }
    }

    /// The characters of [`StealthError::message`].
    pub open spec fn message_of(error: StealthError) -> Seq<char> {
        match error {
            StealthError::InvalidLength => "invalid length"@,
            StealthError::InvalidPoint => "invalid curve point"@,
            StealthError::InvalidScalar => "invalid scalar"@,
            StealthError::InvalidMetaAddress => "invalid stealth meta-address"@,
            StealthError::DegenerateSecret => "degenerate shared secret"@,
            StealthError::InvalidHex => "invalid hexadecimal text"@,
        }
    }
}

} // verus!
