//! Bit-level vocabulary shared by the serial routines: bit sequences and
//! their numeric values.

use vstd::arithmetic::power2::pow2;
use vstd::prelude::*;

verus! {

/// The most significant bit of a byte.
pub open spec fn msb(x: u8) -> bool {
    x & 0x80u8 != 0u8
}

/// Value of a bit sequence read most significant bit first.
pub open spec fn bits_value(bits: Seq<bool>) -> nat
    decreases bits.len(),
{
    if bits.len() == 0 {
        0
    } else {
        2 * bits_value(bits.drop_last()) + (if bits.last() { 1nat } else { 0nat })
    }
}

/// The bits of `x`, most significant first.
pub open spec fn byte_bits(x: u8) -> Seq<bool> {
    Seq::new(8, |i: int| msb((x << (i as u8)) as u8))
}

/// Every `stride`-th element of `s` starting at `start`, `n` of them.
pub open spec fn strided(s: Seq<bool>, start: int, stride: int, n: nat) -> Seq<bool> {
    Seq::new(n, |i: int| s[start + stride * i])
}

/// `b` is `a` followed by exactly `k` further elements.
pub open spec fn extends<T>(a: Seq<T>, b: Seq<T>, k: nat) -> bool {
    &&& b.len() == a.len() + k
    &&& forall|i: int| 0 <= i < a.len() ==> #[trigger] b[i] == a[i]
}

pub proof fn lemma_bits_value_push(bits: Seq<bool>, b: bool)
    ensures
        bits_value(bits.push(b)) == 2 * bits_value(bits) + (if b { 1nat } else { 0nat }),
{
    assert(bits.push(b).drop_last() =~= bits);
}

/// The value of a bit sequence is below two to the power of its length.
pub proof fn lemma_bits_value_bound(bits: Seq<bool>)
    ensures
        bits_value(bits) < pow2(bits.len()),
    decreases bits.len(),
{
    if bits.len() > 0 {
        lemma_bits_value_bound(bits.drop_last());
        assert(pow2(bits.len()) == 2 * pow2((bits.len() - 1) as nat)) by {
            vstd::arithmetic::power2::lemma_pow2_unfold(bits.len());
        }
    } else {
        vstd::arithmetic::power2::lemma2_to64();
    }
}

/// Reading `a` then `b` gives `a`'s value shifted past `b`, plus `b`'s value.
pub proof fn lemma_bits_value_concat(a: Seq<bool>, b: Seq<bool>)
    ensures
        bits_value(a + b) == bits_value(a) * pow2(b.len()) + bits_value(b),
    decreases b.len(),
{
    if b.len() == 0 {
        assert(a + b =~= a);
        vstd::arithmetic::power2::lemma2_to64();
        assert(bits_value(a) * pow2(0) == bits_value(a));
    } else {
        let b0 = b.drop_last();
        let l: nat = if b.last() { 1nat } else { 0nat };
        lemma_bits_value_concat(a, b0);
        assert((a + b).drop_last() =~= a + b0);
        assert((a + b).last() == b.last());
        assert(bits_value(a + b) == 2 * bits_value(a + b0) + l);
        assert(bits_value(b) == 2 * bits_value(b0) + l);
        vstd::arithmetic::power2::lemma_pow2_unfold(b.len());
        assert(pow2(b.len()) == 2 * pow2(b0.len()));
        assert(bits_value(a) * pow2(b.len()) == 2 * (bits_value(a) * pow2(b0.len()))) by (nonlinear_arith)
            requires pow2(b.len()) == 2 * pow2(b0.len());
    }
}

/// The first `n` bits of a byte, read back, give its `n` top bits.
pub proof fn lemma_byte_prefix_value(x: u8, n: u8)
    requires
        n <= 8,
    ensures
        bits_value(Seq::new(n as nat, |i: int| msb((x << (i as u8)) as u8))) == (x as u16 >> ((8 - n) as u16)),
    decreases n,
{
    let s = Seq::new(n as nat, |i: int| msb((x << (i as u8)) as u8));
    if n == 0 {
        assert((x as u16 >> 8u16) == 0) by (bit_vector);
    } else {
        let m = (n - 1) as u8;
        lemma_byte_prefix_value(x, m);
        assert(s.drop_last() =~= Seq::new(m as nat, |i: int| msb((x << (i as u8)) as u8)));
        let hi = x as u16 >> ((8 - m) as u16);
        let b = msb((x << m) as u8);
        assert(s.last() == b);
        assert(hi * 2 + (if (x << m) & 0x80u8 != 0u8 { 1u16 } else { 0u16 }) == (x as u16 >> ((8 - n) as u16))) by (bit_vector)
            requires m < 8, n == m + 1, hi == x as u16 >> ((8 - m) as u16);
    }
}

/// The bits of a byte, most significant first, read back give the byte.
pub proof fn lemma_byte_bits_value(x: u8)
    ensures
        bits_value(byte_bits(x)) == x,
{
    lemma_byte_prefix_value(x, 8);
    assert(byte_bits(x) =~= Seq::new(8, |i: int| msb((x << (i as u8)) as u8)));
    assert((x as u16 >> 0u16) == x as u16) by (bit_vector);
}

} // verus!
