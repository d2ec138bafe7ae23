//! Little-endian byte sequences read as unsigned integers.

use vstd::prelude::*;

verus! {

/// `256^k`, the number of values that `k` bytes can hold.
pub open spec fn pow256(k: nat) -> nat
    decreases k,
{
    if k == 0 {
        1
    } else {
        256 * pow256((k - 1) as nat)
    }
}

/// The unsigned integer whose little-endian bytes are `s` (lowest byte first).
pub open spec fn le_value(s: Seq<u8>) -> nat
    decreases s.len(),
{
    if s.len() == 0 {
        0
    } else {
        s[0] as nat + 256 * le_value(s.drop_first())
    }
}

/// Byte `i` of `s`, or zero past its end: the byte sequence extended by zeros.
pub open spec fn byte_at(s: Seq<u8>, i: int) -> u8 {
    if 0 <= i < s.len() {
        s[i]
    } else {
        0
    }
}

/// Every byte of `s` from position `k` on is zero, so that the value needs at most `k` bytes.
pub open spec fn high_bytes_zero(s: Seq<u8>, k: nat) -> bool {
    forall|i: int| k <= i < s.len() ==> s[i] == 0
}

/// `s` cut or zero-extended to exactly `k` bytes.
pub open spec fn resized(s: Seq<u8>, k: nat) -> Seq<u8> {
    Seq::new(k, |i: int| byte_at(s, i))
}

pub proof fn lemma_pow256_positive(k: nat)
    ensures
        pow256(k) >= 1,
    decreases k,
{
    if k > 0 {
        lemma_pow256_positive((k - 1) as nat);
    }
}

/// A value of `k` bytes is below `256^k`.
pub proof fn lemma_le_value_bound(s: Seq<u8>)
    ensures
        le_value(s) < pow256(s.len()),
    decreases s.len(),
{
    if s.len() > 0 {
        lemma_le_value_bound(s.drop_first());
        let r = le_value(s.drop_first());
        let p = pow256((s.len() - 1) as nat);
        assert(s[0] as nat + 256 * r < 256 * p) by (nonlinear_arith)
            requires
                s[0] < 256,
                r < p,
        ;
    }
}

/// A nonzero byte at position `k` or later makes the value at least `256^k`.
pub proof fn lemma_le_value_high_byte(s: Seq<u8>, k: nat, i: int)
    requires
        k <= i < s.len(),
        s[i] != 0,
    ensures
        le_value(s) >= pow256(k),
    decreases s.len(),
{
    if i == 0 {
        assert(pow256(0) == 1);
    } else {
        lemma_le_value_high_byte(s.drop_first(), if k == 0 { 0 } else { (k - 1) as nat }, i - 1);
        if k == 0 {
            assert(s[i] == s.drop_first()[i - 1]);
            lemma_pow256_positive(0);
            assert(le_value(s.drop_first()) >= 1);
        }
    }
}

/// Zero-extending `s` to `k` bytes, or cutting off only zero bytes, keeps its value.
pub proof fn lemma_resized_value(s: Seq<u8>, k: nat)
    requires
        high_bytes_zero(s, k),
    ensures
        le_value(resized(s, k)) == le_value(s),
    decreases s.len() + k,
{
    if s.len() == 0 {
        lemma_zeros_value(k);
        assert(resized(s, k) =~= Seq::new(k, |i: int| 0u8));
    } else if k == 0 {
        assert(s[0] == 0);
        lemma_resized_value(s.drop_first(), 0);
        assert(resized(s.drop_first(), 0) =~= Seq::<u8>::empty());
        assert(resized(s, 0) =~= Seq::<u8>::empty());
    } else {
        let k1 = (k - 1) as nat;
        assert forall|i: int| k1 <= i < s.drop_first().len() implies s.drop_first()[i] == 0 by {
            assert(s.drop_first()[i] == s[i + 1]);
        }
        lemma_resized_value(s.drop_first(), k1);
        assert(resized(s, k).drop_first() =~= resized(s.drop_first(), k1));
    }
}

/// A run of zero bytes has value zero.
pub proof fn lemma_zeros_value(k: nat)
    ensures
        le_value(Seq::new(k, |i: int| 0u8)) == 0,
    decreases k,
{
    if k > 0 {
        lemma_zeros_value((k - 1) as nat);
        assert(Seq::new(k, |i: int| 0u8).drop_first() =~= Seq::new((k - 1) as nat, |i: int| 0u8));
    }
}

/// The value needs at most `k` bytes exactly when every byte from position `k` on is zero.
pub proof fn lemma_fits_iff_high_bytes_zero(s: Seq<u8>, k: nat)
    ensures
        le_value(s) < pow256(k) <==> high_bytes_zero(s, k),
{
    if high_bytes_zero(s, k) {
        lemma_resized_value(s, k);
        lemma_le_value_bound(resized(s, k));
    } else {
        let i = choose|i: int| k <= i < s.len() && s[i] != 0;
        lemma_le_value_high_byte(s, k, i);
    }
}

} // verus!

verus! {

/// Byte sequences of one length with one value are the same sequence.
pub proof fn lemma_le_value_injective(a: Seq<u8>, b: Seq<u8>)
    requires
        a.len() == b.len(),
        le_value(a) == le_value(b),
    ensures
        a == b,
    decreases a.len(),
{
    if a.len() > 0 {
        let ra = le_value(a.drop_first());
        let rb = le_value(b.drop_first());
        assert(a[0] as nat + 256 * ra == b[0] as nat + 256 * rb);
        assert(a[0] == b[0] && ra == rb) by (nonlinear_arith)
            requires
                a[0] as nat + 256 * ra == b[0] as nat + 256 * rb,
                a[0] < 256,
                b[0] < 256,
        ;
        lemma_le_value_injective(a.drop_first(), b.drop_first());
        assert(a =~= b) by {
            assert forall|i: int| 0 <= i < a.len() implies a[i] == b[i] by {
                if i > 0 {
                    assert(a[i] == a.drop_first()[i - 1]);
                    assert(b[i] == b.drop_first()[i - 1]);
                }
            }
        }
    }
}

} // verus!
