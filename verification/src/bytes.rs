//! Little-endian byte strings: their integer value, and the helpers that cut
//! and join fixed-size buffers.
use vstd::prelude::*;

verus! {

/// `256^k`: the number of distinct strings of `k` bytes.
pub open spec fn radix(k: nat) -> nat
    decreases k,
{
    if k == 0 {
        1
    } else {
        256 * radix((k - 1) as nat)
    }
}

/// The integer that a little-endian byte string stands for.
pub open spec fn le_value(s: Seq<u8>) -> nat
    decreases s.len(),
{
    if s.len() == 0 {
        0
    } else {
        s[0] as nat + 256 * le_value(s.drop_first())
    }
}

/// The `k` low bytes of `n`, little-endian.
pub open spec fn le_bytes(n: nat, k: nat) -> Seq<u8>
    decreases k,
{
    if k == 0 {
        Seq::empty()
    } else {
        seq![(n % 256) as u8] + le_bytes(n / 256, (k - 1) as nat)
    }
}

/// The byte string of `k` zeros.
pub open spec fn zeros(k: nat) -> Seq<u8> {
    Seq::new(k, |i: int| 0u8)
}

/// A string of `k` bytes stands for an integer below `256^k`.
pub proof fn lemma_le_value_bound(s: Seq<u8>)
    ensures
        le_value(s) < radix(s.len()),
    decreases s.len(),
{
    if s.len() > 0 {
        lemma_le_value_bound(s.drop_first());
    }
}

/// The value of a joined string is the sum of its parts, the second one scaled.
pub proof fn lemma_le_value_concat(a: Seq<u8>, b: Seq<u8>)
    ensures
        le_value(a + b) == le_value(a) + radix(a.len()) * le_value(b),
    decreases a.len(),
{
    if a.len() == 0 {
        assert(a + b =~= b);
        let v = le_value(b);
        assert(1 * v == v) by (nonlinear_arith);
    } else {
        lemma_le_value_concat(a.drop_first(), b);
        assert((a + b).drop_first() =~= a.drop_first() + b);
        let r = radix((a.len() - 1) as nat);
        let v = le_value(b);
        assert(radix(a.len()) == 256 * r);
        assert(256 * (r * v) == (256 * r) * v) by (nonlinear_arith);
        assert(a.drop_first().len() == a.len() - 1);
        assert((a + b)[0] == a[0]);
    }
}

/// One more byte on top adds that byte times the weight of its position.
pub proof fn lemma_le_value_take_next(s: Seq<u8>, i: int)
    requires
        0 <= i < s.len(),
    ensures
        le_value(s.take(i + 1)) == le_value(s.take(i)) + s[i] as nat * radix(i as nat),
        le_value(s.take(i)) < radix(i as nat),
{
    lemma_le_value_bound(s.take(i));
    assert(s.take(i + 1) =~= s.take(i) + seq![s[i]]);
    lemma_le_value_concat(s.take(i), seq![s[i]]);
    assert(seq![s[i]].drop_first() =~= Seq::<u8>::empty());
    assert(le_value(seq![s[i]]) == s[i] as nat) by {
        reveal_with_fuel(le_value, 2);
    }
    let r = radix(i as nat);
    let b = s[i] as nat;
    assert(r * b == b * r) by (nonlinear_arith);
}

/// A string is the little-endian expansion of its value.
pub proof fn lemma_le_bytes_of_value(s: Seq<u8>)
    ensures
        le_bytes(le_value(s), s.len()) == s,
    decreases s.len(),
{
    if s.len() == 0 {
        assert(le_bytes(0, 0) =~= s);
    } else {
        let n = le_value(s);
        lemma_le_bytes_of_value(s.drop_first());
        assert(n % 256 == s[0] as nat);
        assert(n / 256 == le_value(s.drop_first()));
        assert(seq![s[0]] + s.drop_first() =~= s);
    }
}

/// The expansion of `n` to `k` bytes has length `k`, and stands for `n` where
/// `n` fits.
pub proof fn lemma_value_of_le_bytes(n: nat, k: nat)
    ensures
        le_bytes(n, k).len() == k,
        n < radix(k) ==> le_value(le_bytes(n, k)) == n,
    decreases k,
{
    if k > 0 {
        lemma_value_of_le_bytes(n / 256, (k - 1) as nat);
        assert(le_bytes(n, k).drop_first() =~= le_bytes(n / 256, (k - 1) as nat));
    }
}

/// Strings of one length that stand for one integer are the same string.
pub proof fn lemma_le_value_injective(a: Seq<u8>, b: Seq<u8>)
    requires
        a.len() == b.len(),
        le_value(a) == le_value(b),
    ensures
        a == b,
{
    lemma_le_bytes_of_value(a);
    lemma_le_bytes_of_value(b);
}

/// Only strings of zeros stand for zero.
pub proof fn lemma_le_value_zero(s: Seq<u8>)
    ensures
        le_value(s) == 0 <==> s == zeros(s.len()),
    decreases s.len(),
{
    if s.len() == 0 {
        assert(s =~= zeros(0));
    } else {
        lemma_le_value_zero(s.drop_first());
        if s == zeros(s.len()) {
            assert(s.drop_first() =~= zeros((s.len() - 1) as nat));
        }
        if le_value(s) == 0 {
            assert(s.drop_first() == zeros((s.len() - 1) as nat));
            assert(s =~= zeros(s.len())) by {
                assert forall|i: int| 0 <= i < s.len() implies s[i] == 0u8 by {
                    if i > 0 {
                        assert(s[i] == s.drop_first()[i - 1]);
                    }
                }
            }
        }
    }
}

/// Zero expands to zeros.
pub proof fn lemma_le_bytes_zero(k: nat)
    ensures
        le_bytes(0, k) == zeros(k),
    decreases k,
{
    if k > 0 {
        lemma_le_bytes_zero((k - 1) as nat);
    }
    assert(le_bytes(0, k) =~= zeros(k));
}

/// The powers of 256 that bound 8, 16, 31 and 32 bytes.
pub proof fn lemma_radix_32()
    ensures
        radix(8) == 0x1_0000_0000_0000_0000,
        radix(16) == 0x1_0000_0000_0000_0000_0000_0000_0000_0000nat,
        radix(31)
            == 0x100_0000_0000_0000_0000_0000_0000_0000_0000_0000_0000_0000_0000_0000_0000_0000nat,
        radix(32)
            == 0x1_0000_0000_0000_0000_0000_0000_0000_0000_0000_0000_0000_0000_0000_0000_0000_0000nat,
{
    reveal_with_fuel(radix, 33);
}

/// `true` iff every byte is zero.
pub fn is_all_zero(bytes: &[u8]) -> (r: bool)
    ensures
        r == (bytes@ == zeros(bytes@.len())),
{
    let mut i: usize = 0;
    while i < bytes.len()
        invariant
            i <= bytes@.len(),
            forall|j: int| 0 <= j < i ==> bytes@[j] == 0u8,
        decreases bytes@.len() - i,
    {
        if bytes[i] != 0 {
            assert(zeros(bytes@.len())[i as int] == 0u8);
            return false;
        }
        i += 1;
    }
    assert(bytes@ =~= zeros(bytes@.len()));
    true
}

/// `true` iff the two arrays hold the same bytes.
pub(crate) fn same_bytes<const N: usize>(a: &[u8; N], b: &[u8; N]) -> (r: bool)
    ensures
        r == (a@ == b@),
{
    let mut i: usize = 0;
    while i < N
        invariant
            i <= N,
            forall|j: int| 0 <= j < i ==> a@[j] == b@[j],
        decreases N - i,
    {
        if a[i] != b[i] {
            return false;
        }
        i += 1;
    }
    assert(a@ =~= b@);
    true
}

/// The `M` bytes that start at `off`.
pub(crate) fn cut<const N: usize, const M: usize>(bytes: &[u8; N], off: usize) -> (r: [u8; M])
    requires
        off + M <= N,
    ensures
        r@ == bytes@.subrange(off as int, off + M),
{
    let mut out = [0u8; M];
    let mut i: usize = 0;
    while i < M
        invariant
            i <= M,
            off + M <= N,
            forall|j: int| 0 <= j < i ==> out@[j] == bytes@[off + j],
        decreases M - i,
    {
        out[i] = bytes[off + i];
        i += 1;
    }
    assert(out@ =~= bytes@.subrange(off as int, off + M));
    out
}

/// `bytes` with the `M` bytes that start at `off` replaced by `part`.
pub(crate) fn put<const N: usize, const M: usize>(
    bytes: [u8; N],
    off: usize,
    part: &[u8; M],
) -> (r: [u8; N])
    requires
        off + M <= N,
    ensures
        r@ == bytes@.subrange(0, off as int) + part@ + bytes@.subrange(off + M, N as int),
{
    let mut out = bytes;
    let mut i: usize = 0;
    while i < M
        invariant
            i <= M,
            off + M <= N,
            forall|j: int| 0 <= j < i ==> out@[off + j] == part@[j],
            forall|j: int| 0 <= j < off ==> out@[j] == bytes@[j],
            forall|j: int| off + M <= j < N ==> out@[j] == bytes@[j],
        decreases M - i,
    {
        out[off + i] = part[i];
        i += 1;
    }
    let ghost joined = bytes@.subrange(0, off as int) + part@ + bytes@.subrange(
        off + M,
        N as int,
    );
    assert(out@ =~= joined) by {
        assert forall|j: int| 0 <= j < N implies out@[j] == joined[j] by {
            if off <= j < off + M {
                assert(out@[off + (j - off)] == part@[j - off]);
            }
        }
    }
    out
}

} // verus!
