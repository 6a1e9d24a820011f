use vstd::prelude::*;

verus! {

/// Why a verification request was rejected.
#[derive(Debug, Clone, Copy, PartialEq, Eq, Structural)]
pub enum BtcOrdinalsError {
    /// The signature bytes have the wrong length, or `r` / `s` / the recovery
    /// id are out of range.
    InvalidSignature,
    /// The recovered key does not hash to the claimed address.
    SignatureMismatch,
    /// No public key could be recovered from the signature and digest.
    PubkeyDerivationFailure,
    /// A request variant that this program does not handle.
    NotImplemented,
    /// The claimed address is not a base58check P2PKH address.
    InvalidAddressFormat,
}

impl BtcOrdinalsError {
    /// The numeric code under which the host reports this error.
    pub open spec fn spec_code(self) -> u32 {
        match self {
            BtcOrdinalsError::InvalidSignature => 0,
            BtcOrdinalsError::SignatureMismatch => 1,
            BtcOrdinalsError::PubkeyDerivationFailure => 2,
            BtcOrdinalsError::NotImplemented => 3,
            BtcOrdinalsError::InvalidAddressFormat => 4,
        }
    }

    /// The numeric code under which the host reports this error: the
    /// variant's position in the declaration.
    pub fn code(self) -> (r: u32)
        ensures
            r == self.spec_code(),
    {
        match self {
            BtcOrdinalsError::InvalidSignature => 0,
            BtcOrdinalsError::SignatureMismatch => 1,
            BtcOrdinalsError::PubkeyDerivationFailure => 2,
            BtcOrdinalsError::NotImplemented => 3,
            BtcOrdinalsError::InvalidAddressFormat => 4,
        }
    }
}

} // verus!
