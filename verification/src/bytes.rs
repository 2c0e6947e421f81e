//! Byte sequences read as unsigned numbers, little- and big-endian.

use vstd::prelude::*;
use vstd::arithmetic::power2::*;
use vstd::arithmetic::div_mod::*;
use vstd::arithmetic::mul::*;

verus! {

/// The number whose base-256 digits are `s`, least significant first.
pub open spec fn le_value(s: Seq<u8>) -> nat
    decreases s.len(),
{
    if s.len() == 0 {
        0
    } else {
        s[0] as nat + 256 * le_value(s.drop_first())
    }
}

/// The number whose base-256 digits are `s`, most significant first.
pub open spec fn be_value(s: Seq<u8>) -> nat {
    le_value(s.reverse())
}

/// The 32 big-endian bytes of `v` (its value modulo 2^256).
pub open spec fn be_bytes(v: nat) -> Seq<u8> {
    Seq::new(32, |i: int| ((v / pow2((8 * (31 - i)) as nat)) % 256) as u8)
}

/// The number whose 32 bytes are those of `v` in the opposite order.
pub open spec fn byte_reversed(v: nat) -> nat {
    le_value(be_bytes(v))
}

pub proof fn lemma_pow2_byte_step(k: nat)
    ensures
        pow2(8 * (k + 1)) == 256 * pow2(8 * k),
        pow2(8 * k) > 0,
{
    lemma_pow2_adds(8, 8 * k);
    lemma2_to64();
    lemma_pow2_pos(8 * k);
    assert(8 * (k + 1) == 8 + 8 * k);
}

/// A little-endian number of `n` bytes is below 2^(8n).
pub proof fn lemma_le_value_bound(s: Seq<u8>)
    ensures
        le_value(s) < pow2(8 * s.len()),
    decreases s.len(),
{
    if s.len() == 0 {
        lemma2_to64();
    } else {
        let t = s.drop_first();
        lemma_le_value_bound(t);
        lemma_pow2_byte_step(t.len());
        assert(8 * s.len() == 8 * (t.len() + 1));
    }
}

/// Splitting a sequence splits its little-endian value.
pub proof fn lemma_le_value_split(s: Seq<u8>, k: int)
    requires
        0 <= k <= s.len(),
    ensures
        le_value(s) == le_value(s.take(k)) + pow2(8 * (k as nat)) * le_value(s.skip(k)),
    decreases k,
{
    if k == 0 {
        assert(s.take(0) =~= Seq::<u8>::empty());
        assert(s.skip(0) =~= s);
        lemma2_to64();
        assert(le_value(s.take(0)) == 0);
        assert(pow2(8 * (0 as nat)) == 1);
        assert(le_value(s) == le_value(s.take(0)) + pow2(8 * (0 as nat)) * le_value(s.skip(0)));
    } else {
        let t = s.drop_first();
        lemma_le_value_split(t, k - 1);
        assert(s.take(k).drop_first() =~= t.take(k - 1));
        assert(le_value(s) == s[0] as nat + 256 * le_value(t));
        assert(le_value(s.take(k)) == s[0] as nat + 256 * le_value(t.take(k - 1)));
        assert(s.skip(k) =~= t.skip(k - 1));
        lemma_pow2_byte_step((k - 1) as nat);
        let a = le_value(t.take(k - 1));
        let b = le_value(t.skip(k - 1));
        let p = pow2(8 * ((k - 1) as nat));
        assert(256 * (p * b) == (256 * p) * b) by {
            lemma_mul_is_associative(256, p as int, b as int);
        }
        assert(8 * (k as nat) == 8 * (((k - 1) as nat) + 1));
        assert(pow2(8 * (k as nat)) == 256 * p);
        assert(le_value(t) == a + p * b);
        assert(le_value(s) == (s[0] as nat + 256 * a) + (256 * p) * b) by (nonlinear_arith)
            requires
                le_value(s) == s[0] as nat + 256 * le_value(t),
                le_value(t) == a + p * b,
        ;
    }
}

/// The digit of weight 2^(8j) in a little-endian value is the j-th byte.
pub proof fn lemma_le_value_digit(s: Seq<u8>, j: int)
    requires
        0 <= j < s.len(),
    ensures
        (le_value(s) / pow2(8 * (j as nat))) % 256 == s[j] as nat,
{
    lemma_le_value_split(s, j);
    lemma_le_value_bound(s.take(j));
    let p = pow2(8 * (j as nat));
    lemma_pow2_pos(8 * (j as nat));
    let hi = le_value(s.skip(j));
    let lo = le_value(s.take(j));
    assert(s.take(j).len() == j);
    lemma_mul_is_commutative(p as int, hi as int);
    lemma_fundamental_div_mod_converse(le_value(s) as int, p as int, hi as int, lo as int);
    assert(s.skip(j).drop_first() =~= s.skip(j + 1));
    assert(hi == s[j] as nat + 256 * le_value(s.skip(j + 1)));
    lemma_fundamental_div_mod_converse(hi as int, 256, le_value(s.skip(j + 1)) as int, s[j] as int);
}

/// A single byte reads as itself.
pub proof fn lemma_le_value_single(s: Seq<u8>)
    requires
        s.len() == 1,
    ensures
        le_value(s) == s[0] as nat,
{
    assert(s.drop_first() =~= Seq::<u8>::empty());
    assert(le_value(Seq::<u8>::empty()) == 0);
}

/// Bytes that are all zero read as zero.
pub proof fn lemma_le_value_zeros(s: Seq<u8>)
    requires
        forall|i: int| 0 <= i < s.len() ==> s[i] == 0,
    ensures
        le_value(s) == 0,
    decreases s.len(),
{
    if s.len() > 0 {
        lemma_le_value_zeros(s.drop_first());
    }
}

/// Reading 32 bytes big-endian gives the byte-reversal of reading them little-endian.
pub proof fn lemma_be_value_is_reversed_le(s: Seq<u8>)
    requires
        s.len() == 32,
    ensures
        be_value(s) == byte_reversed(le_value(s)),
{
    assert forall|i: int| 0 <= i < 32 implies #[trigger] be_bytes(le_value(s))[i] == s.reverse()[i] by {
        lemma_le_value_digit(s, 31 - i);
    }
    assert(be_bytes(le_value(s)) =~= s.reverse());
}

/// The first `n` base-256 digits of `v`, least significant first.
pub open spec fn le_digits(v: nat, n: nat) -> Seq<u8> {
    Seq::new(n, |i: int| ((v / pow2((8 * i) as nat)) % 256) as u8)
}

/// The first `n` digits of `v` read back give `v` modulo 2^(8n).
pub proof fn lemma_le_value_of_digits(v: nat, n: nat)
    ensures
        le_value(le_digits(v, n)) == v % pow2(8 * n),
    decreases n,
{
    lemma2_to64();
    if n == 0 {
        assert(pow2(0) == 1);
    } else {
        let d = le_digits(v, n);
        let q = v / 256;
        lemma_le_value_of_digits(q, (n - 1) as nat);
        assert forall|i: int| 0 <= i < n - 1 implies #[trigger] d.drop_first()[i] == le_digits(q, (n - 1) as nat)[i] by {
            lemma_pow2_byte_step(i as nat);
            lemma_pow2_pos(8 * (i as nat));
            lemma_div_denominator(v as int, 256, pow2(8 * (i as nat)) as int);
            assert(8 * (i + 1) == 8 * ((i as nat) + 1));
        }
        assert(d.drop_first() =~= le_digits(q, (n - 1) as nat));
        assert(pow2((8 * 0int) as nat) == 1);
        assert(d[0] == v % 256);
        lemma_pow2_byte_step((n - 1) as nat);
        assert(8 * n == 8 * (((n - 1) as nat) + 1));
        lemma_mod_breakdown(v as int, 256, pow2(8 * ((n - 1) as nat)) as int);
    }
}

/// The 32 big-endian bytes of a number below 2^256 read back as the number.
pub proof fn lemma_be_value_of_be_bytes(v: nat)
    requires
        v < pow2(256),
    ensures
        be_value(be_bytes(v)) == v,
{
    assert forall|i: int| 0 <= i < 32 implies #[trigger] be_bytes(v).reverse()[i] == le_digits(v, 32)[i] by {
        assert(31 - (31 - i) == i);
    }
    assert(be_bytes(v).reverse() =~= le_digits(v, 32));
    lemma_le_value_of_digits(v, 32);
    lemma_small_mod(v, pow2(256));
}

/// Reversing the byte order twice gives back any number below 2^256.
pub proof fn lemma_byte_reversed_twice(v: nat)
    requires
        v < pow2(256),
    ensures
        byte_reversed(byte_reversed(v)) == v,
{
    let s = be_bytes(v);
    lemma_be_value_is_reversed_le(s);
    lemma_be_value_of_be_bytes(v);
}

/// A byte-reversed number is below 2^256.
pub proof fn lemma_byte_reversed_bound(v: nat)
    ensures
        byte_reversed(v) < pow2(256),
{
    lemma_le_value_bound(be_bytes(v));
}

} // verus!
