use vstd::prelude::*;

verus! {

/// The MD5 digest of a byte sequence.
pub uninterp spec fn md5_of(data: Seq<u8>) -> Seq<u8>;

/// Relies on `md5::compute`: the 16-byte digest of `data`, a function of the
/// bytes alone.
#[verifier::external_body]
pub(crate) fn md5_digest(data: &[u8]) -> (r: Vec<u8>)
    ensures
        r@ == md5_of(data@),
        r@.len() == 16,
{
    md5::compute(data).0.to_vec()
}

/// `256` to the power `e`.
pub open spec fn pow256(e: nat) -> nat
    decreases e,
{
    if e == 0 {
        1
    } else {
        256 * pow256((e - 1) as nat)
    }
}

/// The `count` low-order bytes of `x`, least significant first.
pub open spec fn le_bytes(x: nat, count: nat) -> Seq<u8>
    decreases count,
{
    if count == 0 {
        Seq::empty()
    } else {
        seq![(x % 256) as u8] + le_bytes(x / 256, (count - 1) as nat)
    }
}

/// The number whose little-endian bytes are `b`.
pub open spec fn le_value(b: Seq<u8>) -> nat
    decreases b.len(),
{
    if b.len() == 0 {
        0
    } else {
        b[0] as nat + 256 * le_value(b.drop_first())
    }
}

proof fn lemma_pow256_monotonic(a: nat, b: nat)
    requires
        a <= b,
    ensures
        pow256(a) <= pow256(b),
    decreases b,
{
    if a < b {
        lemma_pow256_monotonic(a, (b - 1) as nat);
    }
}

/// The eight bytes of `x`, least significant first.
pub fn u64_le_bytes(x: u64) -> (r: Vec<u8>)
    ensures
        r@ == le_bytes(x as nat, 8),
{
    let mut r: Vec<u8> = Vec::new();
    let mut rest: u64 = x;
    let mut i: usize = 0;
    while i < 8
        invariant
            i <= 8,
            r@ + le_bytes(rest as nat, (8 - i) as nat) == le_bytes(x as nat, 8),
        decreases 8 - i,
    {
        let ghost tail = le_bytes(rest as nat / 256, (8 - i - 1) as nat);
        assert(le_bytes(rest as nat, (8 - i) as nat) == seq![(rest as nat % 256) as u8] + tail);
        let b = (rest % 256) as u8;
        r.push(b);
        rest = rest / 256;
        i = i + 1;
        assert(r@ + tail =~= (r@.drop_last()) + (seq![b] + tail));
    }
    assert(le_bytes(rest as nat, 0) =~= Seq::<u8>::empty());
    assert(r@ + Seq::<u8>::empty() =~= r@);
    r
}

/// The number whose little-endian bytes are the first eight of `b`.
pub fn le_u64_prefix(b: &Vec<u8>) -> (v: u64)
    requires
        b@.len() >= 8,
    ensures
        v == le_value(b@.subrange(0, 8)),
{
    let mut v: u64 = 0;
    let mut k: usize = 8;
    proof {
        assert(b@.subrange(8, 8) =~= Seq::<u8>::empty());
    }
    while k > 0
        invariant
            k <= 8,
            b@.len() >= 8,
            v as nat == le_value(b@.subrange(k as int, 8)),
            (v as nat) < pow256((8 - k) as nat),
        decreases k,
    {
        k = k - 1;
        proof {
            lemma_pow256_monotonic((7 - k) as nat, 7);
            reveal_with_fuel(pow256, 8);
            assert(pow256(7) == 0x100000000000000nat);
            let p = pow256((7 - k) as nat);
            assert(pow256((8 - k) as nat) == 256 * p);
            assert((b[k as int] as nat) + 256 * (v as nat) < 256 * p) by (nonlinear_arith)
                requires
                    (v as nat) < p,
                    (b[k as int] as nat) < 256,
            ;
            assert(b@.subrange(k as int, 8).drop_first() =~= b@.subrange(k + 1, 8));
        }
        v = b[k] as u64 + 256 * v;
    }
    v
}

} // verus!
