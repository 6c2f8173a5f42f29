//! Integers as byte strings: the little-endian and big-endian readings that
//! the wire formats of scalars and field elements rest on.
use vstd::prelude::*;

verus! {

/// The natural number that `bytes` spell in little-endian order.
pub open spec fn le_value(bytes: Seq<u8>) -> nat
    decreases bytes.len(),
{
    if bytes.len() == 0 {
        0
    } else {
        bytes[0] as nat + 256 * le_value(bytes.subrange(1, bytes.len() as int))
    }
}

/// The natural number that `bytes` spell in big-endian order.
pub open spec fn be_value(bytes: Seq<u8>) -> nat
    decreases bytes.len(),
{
    if bytes.len() == 0 {
        0
    } else {
        256 * be_value(bytes.drop_last()) + bytes.last() as nat
    }
}

/// 256 raised to the power `n`.
pub open spec fn pow256(n: nat) -> nat
    decreases n,
{
    if n == 0 {
        1
    } else {
        256 * pow256((n - 1) as nat)
    }
}

/// A big-endian reading of `n` bytes is below `256^n`.
pub proof fn lemma_be_value_bound(bytes: Seq<u8>)
    ensures
        be_value(bytes) < pow256(bytes.len()),
    decreases bytes.len(),
{
    if bytes.len() > 0 {
        lemma_be_value_bound(bytes.drop_last());
    }
}

/// Two byte strings of one length that spell the same little-endian
/// number are the same string.
pub proof fn lemma_le_value_injective(a: Seq<u8>, b: Seq<u8>)
    requires
        a.len() == b.len(),
        le_value(a) == le_value(b),
    ensures
        a == b,
    decreases a.len(),
{
    if a.len() > 0 {
        let ra = a.subrange(1, a.len() as int);
        let rb = b.subrange(1, b.len() as int);
        assert(a[0] == b[0] && le_value(ra) == le_value(rb));
        lemma_le_value_injective(ra, rb);
        assert forall|i: int| 0 <= i < a.len() implies a[i] == b[i] by {
            if i > 0 {
                assert(a[i] == ra[i - 1]);
                assert(b[i] == rb[i - 1]);
            }
        }
    }
    assert(a =~= b);
}

/// Bytes that are all zero spell zero.
pub proof fn lemma_le_value_zeros(bytes: Seq<u8>)
    requires
        forall|i: int| 0 <= i < bytes.len() ==> bytes[i] == 0,
    ensures
        le_value(bytes) == 0,
    decreases bytes.len(),
{
    if bytes.len() > 0 {
        lemma_le_value_zeros(bytes.subrange(1, bytes.len() as int));
    }
}

/// Where only the first byte may differ from zero, the little-endian value
/// is that byte.
pub proof fn lemma_le_value_low_byte(bytes: Seq<u8>)
    requires
        bytes.len() > 0,
        forall|i: int| 1 <= i < bytes.len() ==> bytes[i] == 0,
    ensures
        le_value(bytes) == bytes[0],
{
    lemma_le_value_zeros(bytes.subrange(1, bytes.len() as int));
}

/// The little-endian value of a concatenation.
pub proof fn lemma_le_value_concat(a: Seq<u8>, b: Seq<u8>)
    ensures
        le_value(a + b) == le_value(a) + pow256(a.len()) * le_value(b),
    decreases a.len(),
{
    if a.len() == 0 {
        assert(a + b =~= b);
        assert(pow256(0) == 1);
        assert(1 * le_value(b) == le_value(b));
    } else {
        let rest = a.subrange(1, a.len() as int);
        assert((a + b).subrange(1, (a + b).len() as int) =~= rest + b);
        assert((a + b)[0] == a[0]);
        lemma_le_value_concat(rest, b);
        let x = le_value(rest);
        let p = pow256(rest.len());
        let y = le_value(b);
        assert(pow256(a.len()) == 256 * p);
        assert(256 * (x + p * y) == 256 * x + (256 * p) * y) by (nonlinear_arith);
    }
}

/// The big-endian value of a concatenation.
pub proof fn lemma_be_value_concat(a: Seq<u8>, b: Seq<u8>)
    ensures
        be_value(a + b) == be_value(a) * pow256(b.len()) + be_value(b),
    decreases b.len(),
{
    if b.len() == 0 {
        assert(a + b =~= a);
        assert(pow256(0) == 1);
        assert(be_value(a) * 1 == be_value(a));
    } else {
        let front = b.drop_last();
        assert((a + b).drop_last() =~= a + front);
        assert((a + b).last() == b.last());
        lemma_be_value_concat(a, front);
        let x = be_value(a);
        let p = pow256(front.len());
        let y = be_value(front);
        assert(pow256(b.len()) == 256 * p);
        assert(256 * (x * p + y) == x * (256 * p) + 256 * y) by (nonlinear_arith);
    }
}

/// Reading bytes backwards in little-endian order is reading them in
/// big-endian order.
pub proof fn lemma_le_value_reverse(s: Seq<u8>)
    ensures
        le_value(s.reverse()) == be_value(s),
    decreases s.len(),
{
    if s.len() > 0 {
        let r = s.reverse();
        assert(r.subrange(1, r.len() as int) =~= s.drop_last().reverse());
        lemma_le_value_reverse(s.drop_last());
    }
}

/// Zero bytes behind a little-endian number do not change it.
pub proof fn lemma_le_value_zero_padding(a: Seq<u8>, zeros: Seq<u8>)
    requires
        forall|i: int| 0 <= i < zeros.len() ==> zeros[i] == 0,
    ensures
        le_value(a + zeros) == le_value(a),
{
    lemma_le_value_concat(a, zeros);
    lemma_le_value_zeros(zeros);
}

/// A big-endian number is at least its first byte, shifted to its place.
pub proof fn lemma_be_value_leading_byte(s: Seq<u8>)
    requires
        s.len() > 0,
    ensures
        be_value(s) >= s[0] * pow256((s.len() - 1) as nat),
{
    let head = s.subrange(0, 1);
    let tail = s.subrange(1, s.len() as int);
    assert(s =~= head + tail);
    lemma_be_value_concat(head, tail);
    assert(head.drop_last() =~= Seq::<u8>::empty());
    assert(be_value(head) == s[0]) by {
        reveal_with_fuel(be_value, 2);
    }
}

/// `256^m <= 256^n` for `m <= n`.
pub proof fn lemma_pow256_monotonic(m: nat, n: nat)
    requires
        m <= n,
    ensures
        pow256(m) <= pow256(n),
        pow256(m) > 0,
    decreases n,
{
    if m < n {
        lemma_pow256_monotonic(m, (n - 1) as nat);
    } else if n > 0 {
        lemma_pow256_monotonic((m - 1) as nat, (n - 1) as nat);
    }
}

/// The `n` low bytes of `x`, the lowest first.
pub open spec fn le_bytes(x: nat, n: nat) -> Seq<u8>
    decreases n,
{
    if n == 0 {
        Seq::<u8>::empty()
    } else {
        seq![(x % 256) as u8] + le_bytes(x / 256, (n - 1) as nat)
    }
}

/// Appends the eight bytes of `x`, the lowest first, to `out`.
pub fn push_u64_le(out: &mut Vec<u8>, x: u64)
    ensures
        final(out)@ == old(out)@ + le_bytes(x as nat, 8),
{
    let mut rest: u64 = x;
    let mut i: usize = 0;
    while i < 8
        invariant
            i <= 8,
            out@ + le_bytes(rest as nat, (8 - i) as nat) == old(out)@ + le_bytes(x as nat, 8),
        decreases 8 - i,
    {
        let ghost before = out@;
        out.push((rest % 256) as u8);
        proof {
            let tail = le_bytes((rest / 256) as nat, (8 - i - 1) as nat);
            assert(le_bytes(rest as nat, (8 - i) as nat) == seq![(rest % 256) as u8] + tail);
            assert(out@ + tail =~= before + (seq![(rest % 256) as u8] + tail));
        }
        rest = rest / 256;
        i += 1;
    }
    proof {
        assert(out@ + le_bytes(rest as nat, 0) =~= out@);
    }
}

/// Appends the 32 bytes of `part` to `out`.
pub fn push_32(out: &mut Vec<u8>, part: &[u8; 32])
    ensures
        final(out)@ == old(out)@ + part@,
{
    let mut i: usize = 0;
    while i < 32
        invariant
            i <= 32,
            out@ == old(out)@ + part@.subrange(0, i as int),
        decreases 32 - i,
    {
        let ghost before = out@;
        out.push(part[i]);
        proof {
            assert(out@ =~= old(out)@ + part@.subrange(0, i + 1));
        }
        i += 1;
    }
    proof {
        assert(part@.subrange(0, 32) =~= part@);
    }
}

/// The 32 bytes of `bytes` that start at `at`.
pub fn take_32(bytes: &[u8], at: usize) -> (r: [u8; 32])
    requires
        at + 32 <= bytes@.len(),
    ensures
        r@ == bytes@.subrange(at as int, at + 32),
{
    let mut r = [0u8; 32];
    let n = bytes.len();
    let mut i: usize = 0;
    while i < 32
        invariant
            i <= 32,
            n == bytes@.len(),
            at + 32 <= n,
            forall|j: int| 0 <= j < i ==> r@[j] == bytes@[at + j],
        decreases 32 - i,
    {
        r[i] = bytes[at + i];
        i += 1;
    }
    proof {
        assert(r@ =~= bytes@.subrange(at as int, at + 32));
    }
    r
}

} // verus!
