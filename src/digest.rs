//! The digest that a Bitcoin wallet signs for a message: the double SHA-256
//! of the message framed as
//! `0x18 "Bitcoin Signed Message:\n" || compact_size(len) || message`.
use solana_secp256k1_ecdsa::hash::sha256::Sha256;
use solana_secp256k1_ecdsa::hash::Secp256k1EcdsaHash;
use vstd::prelude::*;

verus! {

/// The SHA-256 digest of `data`.
pub uninterp spec fn sha256_of(data: Seq<u8>) -> Seq<u8>;

/// Relies on `solana_secp256k1_ecdsa::hash::sha256::Sha256::hash`: the
/// SHA-256 digest of `data`, 32 bytes.
#[verifier::external_body]
pub(crate) fn sha256(data: &[u8]) -> (r: Vec<u8>)
    ensures
        r@ == sha256_of(data@),
        r@.len() == 32,
{
    Sha256::hash(data).to_vec()
}

/// `n` as `k` little-endian bytes (the high part beyond `k` bytes is dropped).
pub open spec fn le_bytes(n: nat, k: nat) -> Seq<u8>
    decreases k,
{
    if k == 0 {
        seq![]
    } else {
        seq![(n % 256) as u8] + le_bytes(n / 256, (k - 1) as nat)
    }
}

/// Bitcoin's variable-length integer ("compact size") encoding of `n`.
pub open spec fn compact_size(n: nat) -> Seq<u8> {
    if n <= 252 {
        seq![n as u8]
    } else if n <= 0xffff {
        seq![0xfdu8] + le_bytes(n, 2)
    } else if n <= 0xffff_ffff {
        seq![0xfeu8] + le_bytes(n, 4)
    } else {
        seq![0xffu8] + le_bytes(n, 8)
    }
}

/// The fixed prefix of a Bitcoin signed message: the length byte 24
/// followed by the text `Bitcoin Signed Message:\n`.
pub open spec fn signed_message_prefix() -> Seq<u8> {
    seq![
        0x18u8, 0x42u8, 0x69u8, 0x74u8, 0x63u8, 0x6fu8, 0x69u8, 0x6eu8, 0x20u8, 0x53u8, 0x69u8,
        0x67u8, 0x6eu8, 0x65u8, 0x64u8, 0x20u8, 0x4du8, 0x65u8, 0x73u8, 0x73u8, 0x61u8, 0x67u8,
        0x65u8, 0x3au8, 0x0au8,
    ]
}

/// The bytes that are hashed to give the digest of `message`.
pub open spec fn framed_message(message: Seq<u8>) -> Seq<u8> {
    signed_message_prefix() + compact_size(message.len()) + message
}

/// The digest that is signed for `message`.
pub open spec fn message_digest_of(message: Seq<u8>) -> Seq<u8> {
    sha256_of(sha256_of(framed_message(message)))
}

fn push_le_bytes(out: &mut Vec<u8>, v: u64, k: usize)
    ensures
        final(out)@ == old(out)@ + le_bytes(v as nat, k as nat),
    decreases k,
{
    if k > 0 {
        let ghost before = out@;
        out.push((v % 256) as u8);
        push_le_bytes(out, v / 256, k - 1);
        assert(final(out)@ =~= before + le_bytes(v as nat, k as nat));
    }
}

fn push_compact_size(out: &mut Vec<u8>, n: u64)
    ensures
        final(out)@ == old(out)@ + compact_size(n as nat),
{
    if n <= 252 {
        out.push(n as u8);
        assert(final(out)@ =~= old(out)@ + compact_size(n as nat));
    } else {
        let ghost before = out@;
        let k: usize;
        if n <= 0xffff {
            out.push(0xfdu8);
            k = 2;
        } else if n <= 0xffff_ffff {
            out.push(0xfeu8);
            k = 4;
        } else {
            out.push(0xffu8);
            k = 8;
        }
        push_le_bytes(out, n, k);
        assert(final(out)@ =~= before + compact_size(n as nat));
    }
}

/// The bytes that are hashed to give the digest of `message`: the fixed
/// prefix, the message length as a compact size, then the message.
pub fn frame_message(message: &[u8]) -> (r: Vec<u8>)
    ensures
        r@ == framed_message(message@),
{
    let mut out: Vec<u8> = vec![
        0x18u8, 0x42u8, 0x69u8, 0x74u8, 0x63u8, 0x6fu8, 0x69u8, 0x6eu8, 0x20u8, 0x53u8, 0x69u8,
        0x67u8, 0x6eu8, 0x65u8, 0x64u8, 0x20u8, 0x4du8, 0x65u8, 0x73u8, 0x73u8, 0x61u8, 0x67u8,
        0x65u8, 0x3au8, 0x0au8,
    ];
    assert(out@ =~= signed_message_prefix());
    push_compact_size(&mut out, message.len() as u64);
    let ghost head = out@;
    let mut i: usize = 0;
    while i < message.len()
        invariant
            i <= message@.len(),
            out@ == head + message@.subrange(0, i as int),
        decreases message@.len() - i,
    {
        out.push(message[i]);
        i = i + 1;
        assert(out@ =~= head + message@.subrange(0, i as int));
    }
    assert(message@.subrange(0, message@.len() as int) =~= message@);
    out
}

/// The 32-byte digest that a Bitcoin wallet signs for `message`: SHA-256
/// applied twice to the framed message.
pub fn message_digest(message: &[u8]) -> (r: Vec<u8>)
    ensures
        r@ == message_digest_of(message@),
        r@.len() == 32,
{
    let framed = frame_message(message);
    let once = sha256(framed.as_slice());
    sha256(once.as_slice())
}

} // verus!
