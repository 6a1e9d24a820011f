//! Checking a signature against a claimed address: decode the address,
//! build the digest, parse the signature, recover the signing key, hash it
//! and compare.
use solana_secp256k1_ecdsa::hash::bsm::BSM;
use solana_secp256k1_ecdsa::{CompressedPoint, Secp256k1EcdsaSignature};
use vstd::prelude::*;

use crate::address::{
    address_hash_of, compress_public_key, compressed_key, decode_address, decoded_address_hash,
    derive_address, hashes_equal,
};
use crate::digest::{message_digest, message_digest_of};
use crate::error::BtcOrdinalsError;
use crate::instruction::BtcOrdinalsInstruction;
use crate::signature::{Signature, decode_signature, lemma_wrong_length_rejected, valid_signature_encoding};

verus! {

/// The 64-byte uncompressed key (`x || y`) that ECDSA public-key recovery
/// yields for `digest`, `recovery_id` and the compact signature `r || s`, if
/// any.
pub uninterp spec fn recovered_key(digest: Seq<u8>, recovery_id: u8, compact: Seq<u8>) -> Option<
    Seq<u8>,
>;

/// Relies on `solana_program::secp256k1_recover::secp256k1_recover`: the
/// recovered key as 64 bytes `x || y`, or `None` where the hash, the
/// recovery id or the signature is rejected or no key can be recovered.
#[verifier::external_body]
#[allow(deprecated)]
fn recover_key(digest: &[u8], recovery_id: u8, compact: &[u8]) -> (r: Option<Vec<u8>>)
    requires
        digest@.len() == 32,
        compact@.len() == 64,
    ensures
        match r {
            Some(k) => recovered_key(digest@, recovery_id, compact@) == Some(k@) && k@.len() == 64,
            None => recovered_key(digest@, recovery_id, compact@) is None,
        },
{
    match solana_program::secp256k1_recover::secp256k1_recover(digest, recovery_id, compact) {
        Ok(key) => Some(key.to_bytes().to_vec()),
        Err(_) => None,
    }
}

/// Whether the compact signature `r || s` verifies, under standard ECDSA,
/// for the Bitcoin signed-message digest of `message` and the compressed
/// public key `pubkey`.
pub uninterp spec fn ecdsa_signature_verifies(message: Seq<u8>, compact: Seq<u8>, pubkey: Seq<u8>) -> bool;

/// Relies on `solana_secp256k1_ecdsa::Secp256k1EcdsaSignature::verify` with
/// the `BSM` (Bitcoin signed message) hash and a `CompressedPoint` key:
/// whether the signature equation holds.
#[verifier::external_body]
fn ecdsa_verify(message: &[u8], compact: &[u8], pubkey: &[u8]) -> (r: bool)
    requires
        compact@.len() == 64,
        pubkey@.len() == 33,
    ensures
        r == ecdsa_signature_verifies(message@, compact@, pubkey@),
{
    let mut sig = [0u8; 64];
    sig.copy_from_slice(compact);
    let mut key = [0u8; 33];
    key.copy_from_slice(pubkey);
    Secp256k1EcdsaSignature(sig).verify::<BSM, CompressedPoint>(message, CompressedPoint(key)).is_ok()
}

/// `key` is a recovered uncompressed key whose address hash is `hash`.
pub open spec fn key_matches(key: Option<Seq<u8>>, hash: Seq<u8>) -> bool {
    match key {
        Some(k) => address_hash_of(compressed_key(k)) == hash,
        None => false,
    }
}

/// The verdict on the key that recovery gave: no key is
/// `PubkeyDerivationFailure`; a key whose address hash is `hash` verifies;
/// another key is `SignatureMismatch`.
pub open spec fn recovery_outcome(key: Option<Seq<u8>>, hash: Seq<u8>) -> Result<
    (),
    BtcOrdinalsError,
> {
    if key is None {
        Err(BtcOrdinalsError::PubkeyDerivationFailure)
    } else if key_matches(key, hash) {
        Ok(())
    } else {
        Err(BtcOrdinalsError::SignatureMismatch)
    }
}

/// The view of an optional byte vector.
pub open spec fn opt_view(v: Option<Vec<u8>>) -> Option<Seq<u8>> {
    match v {
        Some(x) => Some(x@),
        None => None,
    }
}

/// The outcome of checking `signature` over `message` against the claimed
/// `address`. The address is decoded first, then the signature. Recovery
/// needs the recovery id of a 65-byte signature: a 64-byte one names no
/// single key, so it is `PubkeyDerivationFailure` here (a key supplied out
/// of band checks it instead).
pub open spec fn verification_outcome(address: Seq<char>, message: Seq<u8>, signature: Seq<u8>) -> Result<
    (),
    BtcOrdinalsError,
> {
    match decoded_address_hash(address) {
        None => Err(BtcOrdinalsError::InvalidAddressFormat),
        Some(hash) => if !valid_signature_encoding(signature) {
            Err(BtcOrdinalsError::InvalidSignature)
        } else {
            if signature.len() == 65 {
                recovery_outcome(
                    recovered_key(message_digest_of(message), signature[64], signature.subrange(0, 64)),
                    hash,
                )
            } else {
                Err(BtcOrdinalsError::PubkeyDerivationFailure)
            }
        },
    }
}

fn key_matches_hash(key: &Option<Vec<u8>>, claimed: &[u8]) -> (r: bool)
    requires
        claimed@.len() == 20,
        match key {
            Some(k) => k@.len() == 64,
            None => true,
        },
    ensures
        r == key_matches(opt_view(*key), claimed@),
{
    match key {
        Some(k) => {
            let compressed = compress_public_key(k.as_slice());
            let derived = derive_address(compressed.as_slice());
            hashes_equal(derived.as_slice(), claimed)
        },
        None => false,
    }
}

/// Decides on the key that recovery gave for a signature, against the
/// claimed 20-byte address hash: no key is `PubkeyDerivationFailure`, a key
/// that hashes to `claimed` verifies, another key is `SignatureMismatch`.
pub fn check_recovered_key(key: &Option<Vec<u8>>, claimed: &[u8]) -> (res: Result<
    (),
    BtcOrdinalsError,
>)
    requires
        claimed@.len() == 20,
        match key {
            Some(k) => k@.len() == 64,
            None => true,
        },
    ensures
        res == recovery_outcome(opt_view(*key), claimed@),
{
    if key.is_none() {
        Err(BtcOrdinalsError::PubkeyDerivationFailure)
    } else if key_matches_hash(key, claimed) {
        Ok(())
    } else {
        Err(BtcOrdinalsError::SignatureMismatch)
    }
}

/// `pubkey` has the shape of a compressed key: a parity byte 0x02 or 0x03,
/// then 32 bytes of `x`.
pub open spec fn compressed_key_shape(pubkey: Seq<u8>) -> bool {
    pubkey.len() == 33 && (pubkey[0] == 2 || pubkey[0] == 3)
}

/// The outcome of checking `signature` over `message` against a public key
/// supplied out of band. A key without a parity byte 0x02 / 0x03 names no
/// curve point: `PubkeyDerivationFailure`.
pub open spec fn validation_outcome(message: Seq<u8>, signature: Seq<u8>, pubkey: Seq<u8>) -> Result<
    (),
    BtcOrdinalsError,
> {
    if !valid_signature_encoding(signature) {
        Err(BtcOrdinalsError::InvalidSignature)
    } else if !compressed_key_shape(pubkey) {
        Err(BtcOrdinalsError::PubkeyDerivationFailure)
    } else if ecdsa_signature_verifies(message, signature.subrange(0, 64), pubkey) {
        Ok(())
    } else {
        Err(BtcOrdinalsError::SignatureMismatch)
    }
}

/// The outcome of checking `signature` over `message` by the supplied
/// compressed key `pubkey` against the claimed `address`: the address is
/// decoded, the signature checked under the key, then the key's address
/// compared.
pub open spec fn keyed_verification_outcome(
    address: Seq<char>,
    message: Seq<u8>,
    signature: Seq<u8>,
    pubkey: Seq<u8>,
) -> Result<(), BtcOrdinalsError> {
    match decoded_address_hash(address) {
        None => Err(BtcOrdinalsError::InvalidAddressFormat),
        Some(hash) => match validation_outcome(message, signature, pubkey) {
            Err(e) => Err(e),
            Ok(()) => if address_hash_of(pubkey) == hash {
                Ok(())
            } else {
                Err(BtcOrdinalsError::SignatureMismatch)
            },
        },
    }
}

fn compact_of(sig: &Signature) -> (r: Vec<u8>)
    requires
        sig.s@.len() == 32,
    ensures
        r@ == sig.r@ + sig.s@,
{
    let mut compact: Vec<u8> = sig.r.clone();
    let mut i: usize = 0;
    while i < 32
        invariant
            i <= 32,
            sig.s@.len() == 32,
            compact@ == sig.r@ + sig.s@.subrange(0, i as int),
        decreases 32 - i,
    {
        compact.push(sig.s[i]);
        i = i + 1;
        assert(compact@ =~= sig.r@ + sig.s@.subrange(0, i as int));
    }
    assert(sig.s@.subrange(0, 32) =~= sig.s@);
    compact
}

/// Checks `signature_bytes` over `message` against the compressed public key
/// `pubkey` by standard ECDSA verification: a malformed signature is
/// `InvalidSignature`, a key whose first byte is not 0x02 or 0x03 is
/// `PubkeyDerivationFailure`, and a signature for which the equation does
/// not hold is `SignatureMismatch`.
pub fn validate_signature(message: &[u8], signature_bytes: &[u8], pubkey: &[u8]) -> (res: Result<
    (),
    BtcOrdinalsError,
>)
    requires
        pubkey@.len() == 33,
    ensures
        res == validation_outcome(message@, signature_bytes@, pubkey@),
{
    let sig = match decode_signature(signature_bytes) {
        Ok(s) => s,
        Err(e) => return Err(e),
    };
    if pubkey[0] != 2 && pubkey[0] != 3 {
        return Err(BtcOrdinalsError::PubkeyDerivationFailure);
    }
    let compact = compact_of(&sig);
    assert(compact@ =~= signature_bytes@.subrange(0, 64));
    if ecdsa_verify(message, compact.as_slice(), pubkey) {
        Ok(())
    } else {
        Err(BtcOrdinalsError::SignatureMismatch)
    }
}

/// Checks that `signature_bytes` over `message` was made by the supplied
/// compressed key `pubkey`, and that this key's P2PKH address is
/// `btc_address`. The first failing step decides the error.
pub fn verify_btc_signature_with_pubkey(
    btc_address: &str,
    message: &[u8],
    signature_bytes: &[u8],
    pubkey: &[u8],
) -> (res: Result<(), BtcOrdinalsError>)
    requires
        pubkey@.len() == 33,
    ensures
        res == keyed_verification_outcome(btc_address@, message@, signature_bytes@, pubkey@),
{
    let claimed = match decode_address(btc_address) {
        Ok(h) => h,
        Err(e) => return Err(e),
    };
    match validate_signature(message, signature_bytes, pubkey) {
        Ok(()) => {},
        Err(e) => return Err(e),
    }
    let derived = derive_address(pubkey);
    if hashes_equal(derived.as_slice(), claimed.as_slice()) {
        Ok(())
    } else {
        Err(BtcOrdinalsError::SignatureMismatch)
    }
}

/// Checks that `signature_bytes` is a signature over `message`, in the
/// Bitcoin signed-message convention, by the key whose P2PKH address is
/// `btc_address`. The first failing step decides the error.
pub fn verify_btc_signature(btc_address: &str, message: &[u8], signature_bytes: &[u8]) -> (res:
    Result<(), BtcOrdinalsError>)
    ensures
        res == verification_outcome(btc_address@, message@, signature_bytes@),
{
    let claimed = match decode_address(btc_address) {
        Ok(h) => h,
        Err(e) => return Err(e),
    };
    let digest = message_digest(message);
    let sig = match decode_signature(signature_bytes) {
        Ok(s) => s,
        Err(e) => return Err(e),
    };
    let compact = compact_of(&sig);
    assert(compact@ =~= signature_bytes@.subrange(0, 64));
    match sig.recovery_id {
        Some(id) => {
            let key = recover_key(digest.as_slice(), id, compact.as_slice());
            check_recovered_key(&key, claimed.as_slice())
        },
        None => Err(BtcOrdinalsError::PubkeyDerivationFailure),
    }
}

/// Runs one decoded instruction.
pub fn process_instruction(instruction: &BtcOrdinalsInstruction) -> (res: Result<(), BtcOrdinalsError>)
    ensures
        match instruction {
            BtcOrdinalsInstruction::VerifySignature { btc_address, message, signature } => res
                == verification_outcome(btc_address@, message@, signature@),
        },
{
    match instruction {
        BtcOrdinalsInstruction::VerifySignature { btc_address, message, signature } => {
            verify_btc_signature(btc_address.as_str(), message.as_slice(), signature.as_slice())
        },
    }
}

/// A signature of a length other than 64 or 65 bytes (63 or 66, say) fails
/// with `InvalidSignature` against any well-formed address; it is neither
/// truncated nor padded.
pub proof fn lemma_malformed_length(address: Seq<char>, message: Seq<u8>, signature: Seq<u8>)
    requires
        signature.len() != 64,
        signature.len() != 65,
        decoded_address_hash(address) is Some,
    ensures
        verification_outcome(address, message, signature) == Err::<(), BtcOrdinalsError>(
            BtcOrdinalsError::InvalidSignature,
        ),
{
    lemma_wrong_length_rejected(signature);
}

/// A well-formed 65-byte signature whose key, recovered under the recovery
/// id it carries, is `key` verifies against the address of `key`.
pub proof fn lemma_signer_address_verifies(
    address: Seq<char>,
    message: Seq<u8>,
    signature: Seq<u8>,
    key: Seq<u8>,
)
    requires
        signature.len() == 65,
        valid_signature_encoding(signature),
        recovered_key(message_digest_of(message), signature[64], signature.subrange(0, 64))
            == Some(key),
        decoded_address_hash(address) == Some(address_hash_of(compressed_key(key))),
    ensures
        verification_outcome(address, message, signature) == Ok::<(), BtcOrdinalsError>(()),
{
}

/// A well-formed signature never verifies against a well-formed address
/// other than that of `key`, the key it recovers to where it carries a
/// recovery id: with the id the outcome is `SignatureMismatch`, without one
/// no key is recovered (`PubkeyDerivationFailure`).
pub proof fn lemma_other_address_mismatch(
    address: Seq<char>,
    message: Seq<u8>,
    signature: Seq<u8>,
    key: Seq<u8>,
)
    requires
        valid_signature_encoding(signature),
        signature.len() == 65 ==> recovered_key(
            message_digest_of(message),
            signature[64],
            signature.subrange(0, 64),
        ) == Some(key),
        decoded_address_hash(address) is Some,
        decoded_address_hash(address) != Some(address_hash_of(compressed_key(key))),
    ensures
        verification_outcome(address, message, signature) != Ok::<(), BtcOrdinalsError>(()),
        signature.len() == 65 ==> verification_outcome(address, message, signature) == Err::<
            (),
            BtcOrdinalsError,
        >(BtcOrdinalsError::SignatureMismatch),
        signature.len() == 64 ==> verification_outcome(address, message, signature) == Err::<
            (),
            BtcOrdinalsError,
        >(BtcOrdinalsError::PubkeyDerivationFailure),
{
}

/// A request verifies only if the signature carries a recovery id and the
/// key recovered with it from the message's digest has exactly the claimed
/// address.
pub proof fn lemma_verified_binds_address(address: Seq<char>, message: Seq<u8>, signature: Seq<u8>)
    requires
        verification_outcome(address, message, signature) == Ok::<(), BtcOrdinalsError>(()),
    ensures
        valid_signature_encoding(signature),
        signature.len() == 65,
        exists|key: Seq<u8>|
            #[trigger] recovered_key(message_digest_of(message), signature[64], signature.subrange(0, 64))
                == Some(key) && decoded_address_hash(address) == Some(
                address_hash_of(compressed_key(key)),
            ),
{
    let key = recovered_key(message_digest_of(message), signature[64], signature.subrange(0, 64))->Some_0;
    assert(decoded_address_hash(address) == Some(address_hash_of(compressed_key(key))));
}

} // verus!
