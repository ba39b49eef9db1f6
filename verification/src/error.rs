//! The errors of decoding and conversion.
use vstd::prelude::*;

use crate::molecule::VerificationError;

verus! {

/// A key or signature that secp256k1 does not accept.
#[derive(Clone, Copy, Debug, PartialEq, Eq, Structural)]
pub enum SecpError {
    InvalidPublicKey,
    InvalidSignature,
}

/// A value that musig2 cannot decode.
#[derive(Clone, Copy, Debug, PartialEq, Eq, Structural)]
pub enum Musig2Error {
    InvalidPubNonce,
}

/// Why `hex::decode` refuses a string.
#[derive(Clone, Copy, Debug, PartialEq, Eq, Structural)]
pub enum HexError {
    /// The byte at `index` is not a hexadecimal digit; `c` is that byte
    /// taken as a character.
    InvalidHexCharacter { c: char, index: usize },
    /// The string has an odd number of bytes.
    OddLength,
    /// The string does not fit the container it is decoded into.
    InvalidStringLength,
}

/// The remaining reasons for which a value is refused.
#[derive(Clone, Copy, Debug, PartialEq, Eq, Structural)]
pub enum Reason {
    /// A lock time must be relative.
    LockTimeNotRelative,
    /// A lock time must count blocks.
    LockTimeNotBlockNumber,
    /// The metric of a lock time is not one that `Since` knows.
    LockTimeMetricUnknown,
    /// A lock time is 8 bytes long.
    InvalidLockTimeLength,
    /// A partial signature is not a scalar below the curve order.
    InvalidPartialSignature,
    /// A public nonce does not hold two curve points.
    InvalidPubNonce,
    /// A hash algorithm byte names no known algorithm.
    UnknownHashAlgorithm,
    /// A hash string is not hexadecimal.
    InvalidHex(HexError),
    /// A hash is 32 bytes long.
    InvalidHashLength,
}

/// The error of every decoding and conversion of this crate.
#[derive(Clone, Copy, Debug, PartialEq, Eq, Structural)]
pub enum Error {
    /// Invalid pubkey/signature format.
    Secp(SecpError),
    /// Bytes that are not a well-formed molecule value.
    Molecule(VerificationError),
    /// A value that musig2 refuses.
    Musig2(Musig2Error),
    /// Any other refusal.
    AnyHow(Reason),
}

} // verus!
