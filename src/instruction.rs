use vstd::prelude::*;

verus! {

/// The requests this program accepts.
#[derive(Debug, Clone, PartialEq, Eq)]
pub enum BtcOrdinalsInstruction {
    /// Check that `signature` over `message` was made by the key behind
    /// `btc_address`.
    VerifySignature { btc_address: String, message: Vec<u8>, signature: Vec<u8> },
}

} // verus!
