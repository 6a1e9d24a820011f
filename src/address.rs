//! P2PKH addresses: the hash160 of a compressed public key, written in
//! base58check with version byte 0x00.
use ripemd::Digest;
use vstd::prelude::*;

use crate::digest::{sha256, sha256_of};
use crate::error::BtcOrdinalsError;

verus! {

/// The RIPEMD-160 digest of `data`.
pub uninterp spec fn ripemd160_of(data: Seq<u8>) -> Seq<u8>;

/// The bytes that the base58 text `s` stands for, if it is base58 text.
pub uninterp spec fn base58_decoded(s: Seq<char>) -> Option<Seq<u8>>;

/// Relies on `ripemd::Ripemd160::digest`: the RIPEMD-160 digest of `data`,
/// 20 bytes.
#[verifier::external_body]
fn ripemd160(data: &[u8]) -> (r: Vec<u8>)
    ensures
        r@ == ripemd160_of(data@),
        r@.len() == 20,
{
    ripemd::Ripemd160::digest(data).to_vec()
}

/// Relies on `bs58::decode(..).into_vec()` with the Bitcoin alphabet: the
/// decoded bytes, or `None` where `s` holds a character outside it.
#[verifier::external_body]
fn base58_decode(s: &str) -> (r: Option<Vec<u8>>)
    ensures
        match r {
            Some(v) => base58_decoded(s@) == Some(v@),
            None => base58_decoded(s@) is None,
        },
{
    bs58::decode(s).into_vec().ok()
}

/// Version byte of a mainnet pay-to-public-key-hash address.
pub const P2PKH_VERSION: u8 = 0;

/// hash160: RIPEMD-160 of SHA-256.
pub open spec fn hash160_of(data: Seq<u8>) -> Seq<u8> {
    ripemd160_of(sha256_of(data))
}

/// The 33-byte compressed form of a 64-byte uncompressed key `x || y`:
/// 0x02 for an even `y`, 0x03 for an odd one, then `x`.
pub open spec fn compressed_key(uncompressed: Seq<u8>) -> Seq<u8> {
    seq![if uncompressed[63] % 2 == 0 { 2u8 } else { 3u8 }] + uncompressed.subrange(0, 32)
}

/// The 20-byte address hash of a compressed public key.
pub open spec fn address_hash_of(compressed: Seq<u8>) -> Seq<u8> {
    hash160_of(compressed)
}

/// `payload` is a well-formed 25-byte P2PKH payload: version byte, 20-byte
/// hash, and the first four bytes of the double SHA-256 of the first 21.
pub open spec fn address_payload_ok(payload: Seq<u8>) -> bool {
    &&& payload.len() == 25
    &&& payload[0] == P2PKH_VERSION
    &&& sha256_of(sha256_of(payload.subrange(0, 21))).subrange(0, 4) == payload.subrange(21, 25)
}

/// The 20-byte hash that the address text `s` carries, if it is a valid
/// P2PKH address.
pub open spec fn decoded_address_hash(s: Seq<char>) -> Option<Seq<u8>> {
    match base58_decoded(s) {
        Some(payload) => if address_payload_ok(payload) {
            Some(payload.subrange(1, 21))
        } else {
            None
        },
        None => None,
    }
}

/// Compresses a 64-byte uncompressed key `x || y` to its 33-byte form.
pub fn compress_public_key(uncompressed: &[u8]) -> (r: Vec<u8>)
    requires
        uncompressed@.len() == 64,
    ensures
        r@ == compressed_key(uncompressed@),
        r@.len() == 33,
{
    let parity: u8 = if uncompressed[63] % 2 == 0 {
        2
    } else {
        3
    };
    let mut out: Vec<u8> = Vec::new();
    out.push(parity);
    let mut i: usize = 0;
    while i < 32
        invariant
            i <= 32,
            uncompressed@.len() == 64,
            out@ == seq![parity] + uncompressed@.subrange(0, i as int),
        decreases 32 - i,
    {
        out.push(uncompressed[i]);
        i = i + 1;
        assert(out@ =~= seq![parity] + uncompressed@.subrange(0, i as int));
    }
    out
}

/// The 20-byte address hash (hash160) of a compressed public key.
pub fn derive_address(compressed: &[u8]) -> (r: Vec<u8>)
    ensures
        r@ == address_hash_of(compressed@),
        r@.len() == 20,
{
    let once = sha256(compressed);
    ripemd160(once.as_slice())
}

/// Deriving the address of one key twice gives the same 20-byte hash.
pub proof fn lemma_address_deterministic(key: Seq<u8>, again: Seq<u8>)
    requires
        key == again,
    ensures
        address_hash_of(key) == address_hash_of(again),
        address_hash_of(key).len() == address_hash_of(again).len(),
{
}

/// Decodes the address text `s` to the 20-byte hash it carries. Text that
/// is not base58, does not decode to 25 bytes, has another version byte or
/// a wrong checksum is `InvalidAddressFormat`.
pub fn decode_address(s: &str) -> (res: Result<Vec<u8>, BtcOrdinalsError>)
    ensures
        match res {
            Ok(h) => decoded_address_hash(s@) == Some(h@),
            Err(e) => decoded_address_hash(s@) is None && e == BtcOrdinalsError::InvalidAddressFormat,
        },
{
    let payload = match base58_decode(s) {
        Some(p) => p,
        None => return Err(BtcOrdinalsError::InvalidAddressFormat),
    };
    if payload.len() != 25 || payload[0] != P2PKH_VERSION {
        return Err(BtcOrdinalsError::InvalidAddressFormat);
    }
    let mut body: Vec<u8> = Vec::new();
    let mut i: usize = 0;
    while i < 21
        invariant
            i <= 21,
            payload@.len() == 25,
            body@ == payload@.subrange(0, i as int),
        decreases 21 - i,
    {
        body.push(payload[i]);
        i = i + 1;
        assert(body@ =~= payload@.subrange(0, i as int));
    }
    let once = sha256(body.as_slice());
    let twice = sha256(once.as_slice());
    let mut ok: bool = true;
    let mut j: usize = 0;
    assert(twice@.subrange(0, 0) =~= payload@.subrange(21, 21));
    while j < 4
        invariant
            j <= 4,
            payload@.len() == 25,
            twice@.len() == 32,
            ok == (twice@.subrange(0, j as int) == payload@.subrange(21, 21 + j as int)),
        decreases 4 - j,
    {
        let same = twice[j] == payload[21 + j];
        proof {
            let a = twice@.subrange(0, j as int);
            let b = payload@.subrange(21, 21 + j as int);
            assert(twice@.subrange(0, j + 1) =~= a.push(twice@[j as int]));
            assert(payload@.subrange(21, 21 + j + 1) =~= b.push(payload@[21 + j]));
            if a.push(twice@[j as int]) == b.push(payload@[21 + j]) {
                assert(a =~= a.push(twice@[j as int]).drop_last());
                assert(b =~= b.push(payload@[21 + j]).drop_last());
                assert(a.push(twice@[j as int])[j as int] == twice@[j as int]);
            }
        }
        ok = ok && same;
        j = j + 1;
    }
    if !ok {
        return Err(BtcOrdinalsError::InvalidAddressFormat);
    }
    let mut hash: Vec<u8> = Vec::new();
    let mut k: usize = 1;
    while k < 21
        invariant
            1 <= k <= 21,
            payload@.len() == 25,
            hash@ == payload@.subrange(1, k as int),
        decreases 21 - k,
    {
        hash.push(payload[k]);
        k = k + 1;
        assert(hash@ =~= payload@.subrange(1, k as int));
    }
    Ok(hash)
}

/// Compares two 20-byte hashes, looking at every byte whatever the outcome.
pub fn hashes_equal(a: &[u8], b: &[u8]) -> (r: bool)
    requires
        a@.len() == 20,
        b@.len() == 20,
    ensures
        r == (a@ == b@),
{
    let mut diff: u8 = 0;
    let mut i: usize = 0;
    assert(a@.subrange(0, 0) =~= b@.subrange(0, 0));
    while i < 20
        invariant
            i <= 20,
            a@.len() == 20,
            b@.len() == 20,
            (diff == 0) == (a@.subrange(0, i as int) == b@.subrange(0, i as int)),
        decreases 20 - i,
    {
        let x = a[i];
        let y = b[i];
        let next = diff | (x ^ y);
        assert((next == 0) == (diff == 0 && x == y)) by (bit_vector)
            requires
                next == diff | (x ^ y),
        ;
        proof {
            let p = a@.subrange(0, i as int);
            let q = b@.subrange(0, i as int);
            assert(a@.subrange(0, i + 1) =~= p.push(x));
            assert(b@.subrange(0, i + 1) =~= q.push(y));
            if p.push(x) == q.push(y) {
                assert(p =~= p.push(x).drop_last());
                assert(q =~= q.push(y).drop_last());
                assert(p.push(x)[i as int] == x);
            }
        }
        diff = next;
        i = i + 1;
    }
    assert(a@.subrange(0, 20) =~= a@);
    assert(b@.subrange(0, 20) =~= b@);
    diff == 0
}

} // verus!
