use btc_ordinals::address::{compress_public_key, decode_address, derive_address, hashes_equal};
use btc_ordinals::digest::{frame_message, message_digest};
use btc_ordinals::error::BtcOrdinalsError;
use btc_ordinals::instruction::BtcOrdinalsInstruction;
use btc_ordinals::signature::decode_signature;
use btc_ordinals::verify::{
    check_recovered_key, process_instruction, validate_signature, verify_btc_signature,
    verify_btc_signature_with_pubkey,
};
use ripemd::Ripemd160;
use sha2::{Digest, Sha256};
use solana_secp256k1_ecdsa::hash::bsm::BSM;
use solana_secp256k1_ecdsa::hash::Secp256k1EcdsaHash;
use solana_secp256k1_ecdsa::{Scalar, Secp256k1EcdsaSignature};

const CURVE_ORDER: [u8; 32] = [
    0xff, 0xff, 0xff, 0xff, 0xff, 0xff, 0xff, 0xff, 0xff, 0xff, 0xff, 0xff, 0xff, 0xff, 0xff, 0xfe,
    0xba, 0xae, 0xdc, 0xe6, 0xaf, 0x48, 0xa0, 0x3b, 0xbf, 0xd2, 0x5e, 0x8c, 0xd0, 0x36, 0x41, 0x41,
];

fn test_key(last: u8) -> [u8; 32] {
    let mut k = [0x5au8; 32];
    k[0] = 0x11;
    k[31] = last;
    k
}

fn public_key(privkey: &[u8; 32]) -> [u8; 64] {
    Scalar(*privkey).pubkey().expect("public key").0
}

fn hash160(data: &[u8]) -> Vec<u8> {
    Ripemd160::digest(Sha256::digest(data)).to_vec()
}

fn encode_address(version: u8, hash: &[u8]) -> String {
    let mut payload = vec![version];
    payload.extend_from_slice(hash);
    let check = Sha256::digest(Sha256::digest(&payload));
    payload.extend_from_slice(&check[..4]);
    bs58::encode(payload).into_string()
}

fn address_of(privkey: &[u8; 32]) -> String {
    let pk = public_key(privkey);
    let mut compressed = vec![if pk[63] % 2 == 0 { 2u8 } else { 3u8 }];
    compressed.extend_from_slice(&pk[..32]);
    encode_address(0, &hash160(&compressed))
}

/// A 65-byte signature `r || s || recovery_id` over the Bitcoin signed-message
/// digest of `message`.
#[allow(deprecated)]
fn sign(privkey: &[u8; 32], message: &[u8]) -> Vec<u8> {
    let sig = Secp256k1EcdsaSignature::sign::<BSM>(message, &Scalar(*privkey)).expect("sign").0;
    let digest = BSM::hash(message);
    let expected = public_key(privkey);
    for id in 0u8..4 {
        if let Ok(k) = solana_program::secp256k1_recover::secp256k1_recover(&digest, id, &sig) {
            if k.to_bytes() == expected {
                let mut out = sig.to_vec();
                out.push(id);
                return out;
            }
        }
    }
    panic!("no recovery id recovers the signer");
}

#[test]
fn digest_matches_bitcoin_signed_message() {
    assert_eq!(message_digest(b"hello"), BSM::hash(b"hello").to_vec());
    assert_eq!(message_digest(b""), BSM::hash(b"").to_vec());
    let long = vec![7u8; 300];
    assert_eq!(message_digest(&long), BSM::hash(&long).to_vec());
    let longer = vec![9u8; 70000];
    assert_eq!(message_digest(&longer), BSM::hash(&longer).to_vec());
}

#[test]
fn digest_is_double_sha256_of_framed_message() {
    let framed = frame_message(b"hello");
    let twice = Sha256::digest(Sha256::digest(&framed)).to_vec();
    assert_eq!(message_digest(b"hello"), twice);
    assert_ne!(message_digest(b"hello"), Sha256::digest(b"hello").to_vec());
}

#[test]
fn frame_message_short_and_long() {
    let mut expected = vec![0x18u8];
    expected.extend_from_slice(b"Bitcoin Signed Message:\n");
    let mut short = expected.clone();
    short.push(2);
    short.extend_from_slice(b"hi");
    assert_eq!(frame_message(b"hi"), short);

    let msg = vec![1u8; 253];
    let framed = frame_message(&msg);
    assert_eq!(&framed[..25], &expected[..]);
    assert_eq!(&framed[25..28], &[0xfd, 0xfd, 0x00]);
    assert_eq!(framed.len(), 25 + 3 + 253);

    let big = vec![0u8; 0x1_0000];
    let framed = frame_message(&big);
    assert_eq!(&framed[25..30], &[0xfe, 0x00, 0x00, 0x01, 0x00]);
}

#[test]
fn generator_key_address() {
    let mut one = [0u8; 32];
    one[31] = 1;
    let pk = public_key(&one);
    let compressed = compress_public_key(&pk);
    assert_eq!(compressed.len(), 33);
    assert_eq!(compressed[0], 0x02);
    assert_eq!(compressed[1], 0x79);
    assert_eq!(compressed[32], 0x98);
    let hash = derive_address(&compressed);
    let expected: Vec<u8> = vec![
        0x75, 0x1e, 0x76, 0xe8, 0x19, 0x91, 0x96, 0xd4, 0x54, 0x94, 0x1c, 0x45, 0xd1, 0xb3, 0xa3,
        0x23, 0xf1, 0x43, 0x3b, 0xd6,
    ];
    assert_eq!(hash, expected);
    assert_eq!(decode_address("1BgGZ9tcN4rm9KBzDn7KprQz87SZ26SAMH"), Ok(expected));
}

#[test]
fn compress_odd_y() {
    let mut pk = [0u8; 64];
    pk[0] = 0xaa;
    pk[63] = 0x03;
    let c = compress_public_key(&pk);
    assert_eq!(c[0], 0x03);
    assert_eq!(c[1], 0xaa);
    assert_eq!(&c[1..], &pk[..32]);
}

#[test]
fn address_derivation_is_deterministic() {
    let pk = public_key(&test_key(1));
    let c = compress_public_key(&pk);
    assert_eq!(derive_address(&c), derive_address(&c));
    assert_eq!(derive_address(&c), hash160(&c));
}

#[test]
fn decode_address_errors() {
    assert_eq!(decode_address("0OIl"), Err(BtcOrdinalsError::InvalidAddressFormat));
    assert_eq!(decode_address(""), Err(BtcOrdinalsError::InvalidAddressFormat));
    assert_eq!(
        decode_address("1BgGZ9tcN4rm9KBzDn7KprQz87SZ26SAMi"),
        Err(BtcOrdinalsError::InvalidAddressFormat)
    );
    let hash = [7u8; 20];
    assert_eq!(decode_address(&encode_address(0x6f, &hash)), Err(BtcOrdinalsError::InvalidAddressFormat));
    assert_eq!(decode_address(&encode_address(0, &hash)), Ok(hash.to_vec()));
    assert_eq!(decode_address(&encode_address(0, &[7u8; 21])), Err(BtcOrdinalsError::InvalidAddressFormat));
}

#[test]
fn hashes_equal_compares_every_byte() {
    let a = [3u8; 20];
    let mut b = a;
    assert!(hashes_equal(&a, &b));
    b[19] = 4;
    assert!(!hashes_equal(&a, &b));
    b = a;
    b[0] = 0;
    assert!(!hashes_equal(&a, &b));
}

#[test]
fn decode_signature_forms() {
    let mut bytes = vec![1u8; 65];
    bytes[64] = 3;
    let sig = decode_signature(&bytes).expect("valid");
    assert_eq!(sig.r, vec![1u8; 32]);
    assert_eq!(sig.s, vec![1u8; 32]);
    assert_eq!(sig.recovery_id, Some(3));
    let sig = decode_signature(&bytes[..64]).expect("valid");
    assert_eq!(sig.recovery_id, None);

    bytes[64] = 4;
    assert_eq!(decode_signature(&bytes), Err(BtcOrdinalsError::InvalidSignature));
}

#[test]
fn decode_signature_rejects_lengths() {
    for len in [0usize, 32, 63, 66, 128] {
        assert_eq!(decode_signature(&vec![1u8; len]), Err(BtcOrdinalsError::InvalidSignature));
    }
}

#[test]
fn decode_signature_scalar_range() {
    let mut bytes = vec![1u8; 64];
    bytes[..32].copy_from_slice(&[0u8; 32]);
    assert_eq!(decode_signature(&bytes), Err(BtcOrdinalsError::InvalidSignature));

    let mut bytes = vec![1u8; 64];
    bytes[32..].copy_from_slice(&CURVE_ORDER);
    assert_eq!(decode_signature(&bytes), Err(BtcOrdinalsError::InvalidSignature));

    bytes[32..].copy_from_slice(&[0xffu8; 32]);
    assert_eq!(decode_signature(&bytes), Err(BtcOrdinalsError::InvalidSignature));

    let mut below = CURVE_ORDER;
    below[31] -= 1;
    bytes[32..].copy_from_slice(&below);
    assert!(decode_signature(&bytes).is_ok());

    let mut one = [0u8; 32];
    one[31] = 1;
    bytes[..32].copy_from_slice(&one);
    assert!(decode_signature(&bytes).is_ok());
}

#[test]
fn error_codes() {
    assert_eq!(BtcOrdinalsError::InvalidSignature.code(), 0);
    assert_eq!(BtcOrdinalsError::SignatureMismatch.code(), 1);
    assert_eq!(BtcOrdinalsError::PubkeyDerivationFailure.code(), 2);
    assert_eq!(BtcOrdinalsError::NotImplemented.code(), 3);
    assert_eq!(BtcOrdinalsError::InvalidAddressFormat.code(), 4);
}

#[test]
fn round_trip_recovers_signer() {
    for last in [1u8, 2, 3, 200] {
        let key = test_key(last);
        let message = format!("message number {}", last);
        let sig = sign(&key, message.as_bytes());
        assert_eq!(verify_btc_signature(&address_of(&key), message.as_bytes(), &sig), Ok(()));
    }
}

#[test]
fn scenario_hello() {
    let key = test_key(7);
    let address = address_of(&key);
    let sig = sign(&key, b"hello");
    assert_eq!(verify_btc_signature(&address, b"hello", &sig), Ok(()));

    let hash = decode_address(&address).expect("address");
    for i in 0..20 {
        let mut other = hash.clone();
        other[i] ^= 0x01;
        assert_eq!(
            verify_btc_signature(&encode_address(0, &other), b"hello", &sig),
            Err(BtcOrdinalsError::SignatureMismatch)
        );
    }
    let mut text = address.into_bytes();
    let last = text.len() - 1;
    text[last] = if text[last] == b'2' { b'3' } else { b'2' };
    let text = String::from_utf8(text).expect("ascii");
    assert_eq!(verify_btc_signature(&text, b"hello", &sig), Err(BtcOrdinalsError::InvalidAddressFormat));
}

#[test]
fn signature_without_recovery_id() {
    let key = test_key(9);
    let sig = sign(&key, b"hello");
    assert_eq!(
        verify_btc_signature(&address_of(&key), b"hello", &sig[..64]),
        Err(BtcOrdinalsError::PubkeyDerivationFailure)
    );
    assert_eq!(
        verify_btc_signature(&address_of(&test_key(10)), b"hello", &sig[..64]),
        Err(BtcOrdinalsError::PubkeyDerivationFailure)
    );
    let pk = compressed_public_key(&key);
    assert_eq!(verify_btc_signature_with_pubkey(&address_of(&key), b"hello", &sig[..64], &pk), Ok(()));
}

#[test]
fn tampered_message_fails() {
    let key = test_key(4);
    let sig = sign(&key, b"hello");
    let address = address_of(&key);
    for other in [&b"hellp"[..], b"hello ", b"", b"Hello"] {
        assert_eq!(verify_btc_signature(&address, other, &sig), Err(BtcOrdinalsError::SignatureMismatch));
    }
}

#[test]
fn tampered_signature_never_verifies() {
    let key = test_key(5);
    let sig = sign(&key, b"hello");
    let address = address_of(&key);
    for byte in [0usize, 15, 31, 32, 47, 63, 64] {
        for bit in 0..8 {
            let mut bad = sig.clone();
            bad[byte] ^= 1 << bit;
            let res = verify_btc_signature(&address, b"hello", &bad);
            assert!(matches!(
                res,
                Err(BtcOrdinalsError::InvalidSignature)
                    | Err(BtcOrdinalsError::SignatureMismatch)
                    | Err(BtcOrdinalsError::PubkeyDerivationFailure)
            ));
        }
    }
}

#[test]
fn malformed_length_fails() {
    let key = test_key(6);
    let sig = sign(&key, b"hello");
    let address = address_of(&key);
    assert_eq!(verify_btc_signature(&address, b"hello", &sig[..63]), Err(BtcOrdinalsError::InvalidSignature));
    let mut long = sig.clone();
    long.push(0);
    assert_eq!(verify_btc_signature(&address, b"hello", &long), Err(BtcOrdinalsError::InvalidSignature));
}

#[test]
fn other_address_mismatch() {
    let key = test_key(8);
    let sig = sign(&key, b"hello");
    assert_eq!(
        verify_btc_signature(&address_of(&test_key(11)), b"hello", &sig),
        Err(BtcOrdinalsError::SignatureMismatch)
    );
}

#[test]
fn address_checked_before_signature() {
    assert_eq!(verify_btc_signature("not an address", b"hello", &[0u8; 3]), Err(BtcOrdinalsError::InvalidAddressFormat));
}

#[test]
fn overflowing_recovery_id_fails_derivation() {
    let key = test_key(12);
    let mut sig = sign(&key, b"hello");
    sig[64] = 2;
    assert_eq!(
        verify_btc_signature(&address_of(&key), b"hello", &sig),
        Err(BtcOrdinalsError::PubkeyDerivationFailure)
    );
}

#[test]
fn no_candidate_key_is_derivation_failure() {
    assert_eq!(check_recovered_key(&None, &[0u8; 20]), Err(BtcOrdinalsError::PubkeyDerivationFailure));
    let key = vec![5u8; 64];
    let mut compressed = vec![3u8];
    compressed.extend_from_slice(&key[..32]);
    let hash = hash160(&compressed);
    assert_eq!(check_recovered_key(&Some(key.clone()), &hash), Ok(()));
    assert_eq!(check_recovered_key(&Some(key), &[0u8; 20]), Err(BtcOrdinalsError::SignatureMismatch));
}

#[test]
fn process_instruction_dispatches() {
    let key = test_key(13);
    let sig = sign(&key, b"hello");
    let ok = BtcOrdinalsInstruction::VerifySignature {
        btc_address: address_of(&key),
        message: b"hello".to_vec(),
        signature: sig.clone(),
    };
    assert_eq!(process_instruction(&ok), Ok(()));
    let bad = BtcOrdinalsInstruction::VerifySignature {
        btc_address: address_of(&key),
        message: b"bye".to_vec(),
        signature: sig,
    };
    assert_eq!(process_instruction(&bad), Err(BtcOrdinalsError::SignatureMismatch));
}

fn compressed_public_key(privkey: &[u8; 32]) -> Vec<u8> {
    compress_public_key(&public_key(privkey))
}

#[test]
fn validation_mode_accepts_signer_key() {
    let key = test_key(14);
    let sig = sign(&key, b"hello");
    let pk = compressed_public_key(&key);
    assert_eq!(validate_signature(b"hello", &sig, &pk), Ok(()));
    assert_eq!(validate_signature(b"hello", &sig[..64], &pk), Ok(()));
    assert_eq!(validate_signature(b"hellp", &sig, &pk), Err(BtcOrdinalsError::SignatureMismatch));
    let other = compressed_public_key(&test_key(15));
    assert_eq!(validate_signature(b"hello", &sig, &other), Err(BtcOrdinalsError::SignatureMismatch));
    assert_eq!(validate_signature(b"hello", &sig[..63], &pk), Err(BtcOrdinalsError::InvalidSignature));
    let mut odd_prefix = pk.clone();
    odd_prefix[0] = 0x05;
    assert_eq!(validate_signature(b"hello", &sig, &odd_prefix), Err(BtcOrdinalsError::PubkeyDerivationFailure));
    assert_eq!(
        verify_btc_signature_with_pubkey(&address_of(&key), b"hello", &sig, &odd_prefix),
        Err(BtcOrdinalsError::PubkeyDerivationFailure)
    );
}

#[test]
fn keyed_verification_checks_address() {
    let key = test_key(16);
    let sig = sign(&key, b"hello");
    let pk = compressed_public_key(&key);
    assert_eq!(verify_btc_signature_with_pubkey(&address_of(&key), b"hello", &sig, &pk), Ok(()));
    assert_eq!(
        verify_btc_signature_with_pubkey(&address_of(&test_key(17)), b"hello", &sig, &pk),
        Err(BtcOrdinalsError::SignatureMismatch)
    );
    assert_eq!(
        verify_btc_signature_with_pubkey("0OIl", b"hello", &sig, &pk),
        Err(BtcOrdinalsError::InvalidAddressFormat)
    );
    assert_eq!(
        verify_btc_signature_with_pubkey(&address_of(&key), b"other", &sig, &pk),
        Err(BtcOrdinalsError::SignatureMismatch)
    );
}
