//! The built-in functions that the bytecode can call.

use vstd::prelude::*;

verus! {

/// The identifier of a built-in function.
#[derive(Debug, Clone, Copy, PartialEq, Eq, Structural)]
pub enum BuiltinIdentifier {
    CryptoSha256,
    CryptoPedersen,
    CryptoSchnorrSignatureVerify,
}

impl BuiltinIdentifier {
    /// The byte that stands for the identifier.
    pub open spec fn byte(self) -> u8 {
        match self {
            BuiltinIdentifier::CryptoSha256 => 0u8,
            BuiltinIdentifier::CryptoPedersen => 1u8,
            BuiltinIdentifier::CryptoSchnorrSignatureVerify => 2u8,
        }
    }

    /// The identifier that the byte stands for, if any.
    pub open spec fn of_byte(byte: u8) -> Option<BuiltinIdentifier> {
        if byte == 0u8 {
            Some(BuiltinIdentifier::CryptoSha256)
        } else if byte == 1u8 {
            Some(BuiltinIdentifier::CryptoPedersen)
        } else if byte == 2u8 {
            Some(BuiltinIdentifier::CryptoSchnorrSignatureVerify)
        } else {
            None
        }
    }

    /// The byte that stands for the identifier.
    pub fn to_byte(self) -> (byte: u8)
        ensures
            byte == self.byte(),
    {
        match self {
            BuiltinIdentifier::CryptoSha256 => 0u8,
            BuiltinIdentifier::CryptoPedersen => 1u8,
            BuiltinIdentifier::CryptoSchnorrSignatureVerify => 2u8,
        }
    }

    /// The identifier that the byte stands for, if any.
    pub fn from_byte(byte: u8) -> (identifier: Option<BuiltinIdentifier>)
        ensures
            identifier == Self::of_byte(byte),
    {
        match byte {
            0u8 => Some(BuiltinIdentifier::CryptoSha256),
            1u8 => Some(BuiltinIdentifier::CryptoPedersen),
            2u8 => Some(BuiltinIdentifier::CryptoSchnorrSignatureVerify),
            _ => None,
        }
    }
}

} // verus!
