//! Why the token refuses a call.

use vstd::prelude::*;

verus! {

/// Why a call on the token was refused. A refused call changes nothing.
#[derive(Clone, Copy, Debug, PartialEq, Eq, Structural)]
pub enum TokenError {
    /// The token was initialized before.
    AlreadyInitialized,
    /// The token was not initialized yet.
    NotInitialized,
    /// The caller does not hold the owner's capability.
    Unauthorized,
    /// The call did not come with exactly one transfer.
    InvalidInputCount,
    /// The transfer that came with the call is not of the token's own asset.
    WrongAsset,
    /// More would leave the supply than it holds.
    Underflow,
    /// A counter would pass the largest number it can hold.
    Overflow,
    /// The bytes of the enclosing transaction do not decode.
    InvalidTransaction,
}

impl TokenError {
    /// The error in words.
    pub fn message(&self) -> (text: String)
        ensures
            text@ == self.spec_message()@,
    {
        match self {
            TokenError::AlreadyInitialized => "already initialized".to_string(),
            TokenError::NotInitialized => "not initialized".to_string(),
            TokenError::Unauthorized => "caller is not the owner".to_string(),
            TokenError::InvalidInputCount => "Input must be 1 alkane".to_string(),
            TokenError::WrongAsset => "Input must be owned token".to_string(),
            TokenError::Underflow => "total supply underflow".to_string(),
            TokenError::Overflow => "counter overflow".to_string(),
            TokenError::InvalidTransaction => "transaction does not decode".to_string(),
        }
    }

    pub open spec fn spec_message(&self) -> &'static str {
        match self {
            TokenError::AlreadyInitialized => "already initialized",
            TokenError::NotInitialized => "not initialized",
            TokenError::Unauthorized => "caller is not the owner",
            TokenError::InvalidInputCount => "Input must be 1 alkane",
            TokenError::WrongAsset => "Input must be owned token",
            TokenError::Underflow => "total supply underflow",
            TokenError::Overflow => "counter overflow",
            TokenError::InvalidTransaction => "transaction does not decode",
        }
    }
}

} // verus!
