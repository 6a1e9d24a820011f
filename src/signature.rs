//! Parsing of a compact ECDSA signature: `r || s`, optionally followed by a
//! recovery id.
use vstd::prelude::*;

verus! {

/// `256^n`.
pub open spec fn pow256(n: nat) -> nat
    decreases n,
{
    if n == 0 {
        1
    } else {
        256 * pow256((n - 1) as nat)
    }
}

/// The unsigned integer that `s` encodes, most significant byte first.
pub open spec fn be_nat(s: Seq<u8>) -> nat
    decreases s.len(),
{
    if s.len() == 0 {
        0
    } else {
        s[0] as nat * pow256((s.len() - 1) as nat) + be_nat(s.drop_first())
    }
}

/// The order of the secp256k1 group, as 32 big-endian bytes.
pub open spec fn curve_order_bytes() -> Seq<u8> {
    seq![
        0xffu8, 0xffu8, 0xffu8, 0xffu8, 0xffu8, 0xffu8, 0xffu8, 0xffu8,
        0xffu8, 0xffu8, 0xffu8, 0xffu8, 0xffu8, 0xffu8, 0xffu8, 0xfeu8,
        0xbau8, 0xaeu8, 0xdcu8, 0xe6u8, 0xafu8, 0x48u8, 0xa0u8, 0x3bu8,
        0xbfu8, 0xd2u8, 0x5eu8, 0x8cu8, 0xd0u8, 0x36u8, 0x41u8, 0x41u8,
    ]
}

/// The order of the secp256k1 group.
pub open spec fn curve_order() -> nat {
    be_nat(curve_order_bytes())
}

/// A 32-byte big-endian scalar that is neither zero nor at least the group
/// order.
pub open spec fn scalar_in_range(x: Seq<u8>) -> bool {
    x.len() == 32 && 0 < be_nat(x) && be_nat(x) < curve_order()
}

/// `bytes` is an accepted signature encoding: 64 bytes `r || s`, or 65
/// bytes `r || s || recovery_id`, with `r`, `s` in range and the recovery
/// id at most 3.
pub open spec fn valid_signature_encoding(bytes: Seq<u8>) -> bool {
    (bytes.len() == 64 || bytes.len() == 65)
        && scalar_in_range(bytes.subrange(0, 32))
        && scalar_in_range(bytes.subrange(32, 64))
        && (bytes.len() == 65 ==> bytes[64] <= 3)
}

/// A parsed signature.
#[derive(Debug, Clone, PartialEq, Eq)]
pub struct Signature {
    /// `r`, 32 bytes, most significant first.
    pub r: Vec<u8>,
    /// `s`, 32 bytes, most significant first.
    pub s: Vec<u8>,
    /// Which of the candidate keys signed, when the encoding carries it.
    pub recovery_id: Option<u8>,
}

impl Signature {
    /// A canonical signature: `r` and `s` are 32-byte scalars in range, and
    /// the recovery id, when present, is at most 3.
    pub open spec fn wf(&self) -> bool {
        &&& scalar_in_range(self.r@)
        &&& scalar_in_range(self.s@)
        &&& match self.recovery_id {
            Some(id) => id <= 3,
            None => true,
        }
    }

    /// The structure that `bytes` encodes, for a valid encoding.
    pub open spec fn decodes_from(&self, bytes: Seq<u8>) -> bool {
        &&& self.r@ == bytes.subrange(0, 32)
        &&& self.s@ == bytes.subrange(32, 64)
        &&& self.recovery_id == if bytes.len() == 65 {
            Some(bytes[64])
        } else {
            None::<u8>
        }
    }
}

proof fn lemma_be_nat_bound(s: Seq<u8>)
    ensures
        be_nat(s) < pow256(s.len()),
    decreases s.len(),
{
    if s.len() > 0 {
        let p = pow256((s.len() - 1) as nat);
        lemma_be_nat_bound(s.drop_first());
        let a = s[0] as nat;
        assert(a * p + p <= 256 * p) by (nonlinear_arith)
            requires
                a <= 255,
        ;
    }
}

proof fn lemma_be_nat_first(a: Seq<u8>, b: Seq<u8>)
    requires
        a.len() == b.len(),
        a.len() > 0,
    ensures
        a[0] < b[0] ==> be_nat(a) < be_nat(b),
        a[0] > b[0] ==> be_nat(a) > be_nat(b),
        a[0] == b[0] ==> (be_nat(a) < be_nat(b) <==> be_nat(a.drop_first()) < be_nat(
            b.drop_first(),
        )),
{
    let p = pow256((a.len() - 1) as nat);
    lemma_be_nat_bound(a.drop_first());
    lemma_be_nat_bound(b.drop_first());
    let x = a[0] as nat;
    let y = b[0] as nat;
    if x < y {
        assert(x * p + p <= y * p) by (nonlinear_arith)
            requires
                x + 1 <= y,
        ;
    } else if x > y {
        assert(y * p + p <= x * p) by (nonlinear_arith)
            requires
                y + 1 <= x,
        ;
    }
}

proof fn lemma_be_nat_zeros(s: Seq<u8>)
    requires
        forall|i: int| 0 <= i < s.len() ==> s[i] == 0,
    ensures
        be_nat(s) == 0,
    decreases s.len(),
{
    if s.len() > 0 {
        lemma_be_nat_zeros(s.drop_first());
    }
}

/// Whether the 32-byte big-endian number `a` is below `b`, looking at every
/// byte whatever the outcome.
fn be_less_than(a: &[u8], b: &[u8]) -> (r: bool)
    requires
        a@.len() == 32,
        b@.len() == 32,
    ensures
        r == (be_nat(a@) < be_nat(b@)),
{
    let mut decided: bool = false;
    let mut less: bool = false;
    let mut i: usize = 0;
    assert(a@.skip(0) =~= a@);
    assert(b@.skip(0) =~= b@);
    while i < 32
        invariant
            i <= 32,
            a@.len() == 32,
            b@.len() == 32,
            decided ==> less == (be_nat(a@) < be_nat(b@)),
            !decided ==> !less,
            !decided ==> ((be_nat(a@) < be_nat(b@)) == (be_nat(a@.skip(i as int)) < be_nat(
                b@.skip(i as int),
            ))),
        decreases 32 - i,
    {
        let x = a[i];
        let y = b[i];
        proof {
            if !decided {
                lemma_be_nat_first(a@.skip(i as int), b@.skip(i as int));
                assert(a@.skip(i as int).drop_first() =~= a@.skip(i + 1));
                assert(b@.skip(i as int).drop_first() =~= b@.skip(i + 1));
            }
        }
        if !decided && x != y {
            decided = true;
            less = x < y;
        }
        i = i + 1;
    }
    proof {
        if !decided {
            assert(a@.skip(32) =~= Seq::<u8>::empty());
            assert(b@.skip(32) =~= Seq::<u8>::empty());
            assert(be_nat(a@.skip(32)) == 0);
            assert(be_nat(b@.skip(32)) == 0);
        }
    }
    less
}

/// Whether `x` is a scalar in `1 .. n - 1`, where `n` is the group order.
fn scalar_is_in_range(x: &[u8]) -> (r: bool)
    requires
        x@.len() == 32,
    ensures
        r == scalar_in_range(x@),
{
    let zero: Vec<u8> = vec![0u8; 32];
    let order: Vec<u8> = vec![
        0xffu8, 0xffu8, 0xffu8, 0xffu8, 0xffu8, 0xffu8, 0xffu8, 0xffu8,
        0xffu8, 0xffu8, 0xffu8, 0xffu8, 0xffu8, 0xffu8, 0xffu8, 0xfeu8,
        0xbau8, 0xaeu8, 0xdcu8, 0xe6u8, 0xafu8, 0x48u8, 0xa0u8, 0x3bu8,
        0xbfu8, 0xd2u8, 0x5eu8, 0x8cu8, 0xd0u8, 0x36u8, 0x41u8, 0x41u8,
    ];
    assert(order@ =~= curve_order_bytes());
    proof {
        lemma_be_nat_zeros(zero@);
    }
    let above_zero = be_less_than(zero.as_slice(), x);
    let below_order = be_less_than(x, order.as_slice());
    above_zero && below_order
}

fn copy_range(bytes: &[u8], start: usize, end: usize) -> (r: Vec<u8>)
    requires
        start <= end <= bytes@.len(),
    ensures
        r@ == bytes@.subrange(start as int, end as int),
{
    let mut out: Vec<u8> = Vec::new();
    let mut i: usize = start;
    while i < end
        invariant
            start <= i <= end,
            end <= bytes@.len(),
            out@ == bytes@.subrange(start as int, i as int),
        decreases end - i,
    {
        out.push(bytes[i]);
        i = i + 1;
        assert(out@ =~= bytes@.subrange(start as int, i as int));
    }
    out
}

/// A signature of any length but 64 or 65 bytes is never accepted.
pub proof fn lemma_wrong_length_rejected(bytes: Seq<u8>)
    requires
        bytes.len() != 64,
        bytes.len() != 65,
    ensures
        !valid_signature_encoding(bytes),
{
}

/// Parses `bytes` as `r || s` (64 bytes) or `r || s || recovery_id` (65
/// bytes). Any other length, `r` or `s` zero or not below the group order,
/// or a recovery id above 3 is `InvalidSignature`; nothing is truncated or
/// padded.
pub fn decode_signature(bytes: &[u8]) -> (res: Result<Signature, crate::error::BtcOrdinalsError>)
    ensures
        match res {
            Ok(sig) => valid_signature_encoding(bytes@) && sig.decodes_from(bytes@) && sig.wf(),
            Err(e) => !valid_signature_encoding(bytes@)
                && e == crate::error::BtcOrdinalsError::InvalidSignature,
        },
{
    let len = bytes.len();
    if len != 64 && len != 65 {
        return Err(crate::error::BtcOrdinalsError::InvalidSignature);
    }
    let r = copy_range(bytes, 0, 32);
    let s = copy_range(bytes, 32, 64);
    let r_ok = scalar_is_in_range(r.as_slice());
    let s_ok = scalar_is_in_range(s.as_slice());
    let recovery_id: Option<u8> = if len == 65 {
        Some(bytes[64])
    } else {
        None
    };
    let id_ok = match recovery_id {
        Some(v) => v <= 3,
        None => true,
    };
    if r_ok && s_ok && id_ok {
        Ok(Signature { r, s, recovery_id })
    } else {
        Err(crate::error::BtcOrdinalsError::InvalidSignature)
    }
}

} // verus!
