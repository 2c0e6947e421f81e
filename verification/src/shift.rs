//! Shifting a word by a number of bit places, byte by byte over its 32
//! big-endian bytes.
//!
//! Both shifts move bytes toward the low end of the array (for `shift_right`)
//! or toward its high end (for `shift_left`) and carry bits between
//! neighbouring array entries in the same direction. Read against the
//! big-endian layout this amounts to shifting the word's byte-reversal:
//! `shift_right(x, p)` is `rev(rev(x) >> p)` and `shift_left(x, p)` is
//! `rev(rev(x) << p)`, where `rev` reverses the order of the 32 bytes.

use vstd::prelude::*;
use vstd::arithmetic::power2::*;
use vstd::arithmetic::div_mod::*;
use vstd::arithmetic::mul::*;
use vstd::bits::{lemma_u32_shl_is_mul, lemma_u32_pow2_no_overflow};
use crate::bytes::{le_value, be_value, be_bytes, byte_reversed, lemma_le_value_bound,
    lemma_le_value_split, lemma_le_value_zeros, lemma_le_value_single, lemma_be_value_is_reversed_le, lemma_pow2_byte_step,
    lemma_byte_reversed_twice, lemma_byte_reversed_bound, lemma_be_value_of_be_bytes};
use crate::word::{Word, word_modulus, word_to_be_bytes, word_from_be_bytes, lemma_word_modulus_is_pow2};

verus! {

/// What `shift_right` makes of a word's number.
pub open spec fn shifted_right(v: nat, places: nat) -> nat {
    byte_reversed(byte_reversed(v) / pow2(places))
}

/// What `shift_left` makes of a word's number.
pub open spec fn shifted_left(v: nat, places: nat) -> nat {
    byte_reversed((byte_reversed(v) * pow2(places)) % word_modulus())
}

/// Entry `i` takes entry `i + k`; the last `k` entries become zero.
spec fn bytes_down(t: Seq<u8>, k: int) -> Seq<u8> {
    Seq::new(t.len(), |i: int| if i + k < t.len() { t[i + k] } else { 0u8 })
}

/// Entry `i` takes entry `i - k`; the first `k` entries become zero.
spec fn bytes_up(t: Seq<u8>, k: int) -> Seq<u8> {
    Seq::new(t.len(), |i: int| if i >= k { t[i - k] } else { 0u8 })
}

/// Each entry drops its low `s` bits and takes the low `s` bits of the next entry on top.
spec fn bits_down(t: Seq<u8>, s: u8) -> Seq<u8> {
    Seq::new(
        t.len(),
        |i: int|
            if i + 1 < t.len() {
                (t[i] >> s) | (t[i + 1] << ((8 - s) as u8))
            } else {
                t[i] >> s
            },
    )
}

/// Each entry drops its high `s` bits and takes the high `s` bits of the previous entry below.
spec fn bits_up(t: Seq<u8>, s: u8) -> Seq<u8> {
    Seq::new(
        t.len(),
        |i: int|
            if i >= 1 {
                (t[i] << s) | (t[i - 1] >> ((8 - s) as u8))
            } else {
                t[i] << s
            },
    )
}

proof fn lemma_small_pow2(s: u8)
    requires
        s < 32,
    ensures
        (1u32 << (s as u32)) as nat == pow2(s as nat),
        pow2(s as nat) > 0,
{
    lemma_u32_pow2_no_overflow(s as nat);
    lemma_u32_shl_is_mul(1, s as u32);
    lemma_pow2_pos(s as nat);
}

proof fn lemma_bits_down_pair(x: u8, y: u8, s: u8)
    by (bit_vector)
    requires
        1 <= s <= 7,
    ensures
        (((x >> s) | (y << ((8 - s) as u8))) as u32) * (1u32 << (s as u32)) + (x as u32) % (1u32
            << (s as u32)) == (x as u32) + 256 * ((y as u32) % (1u32 << (s as u32))),
{
}

proof fn lemma_bits_down_last(x: u8, s: u8)
    by (bit_vector)
    requires
        1 <= s <= 7,
    ensures
        ((x >> s) as u32) * (1u32 << (s as u32)) + (x as u32) % (1u32 << (s as u32)) == x as u32,
{
}

proof fn lemma_bits_up_pair(x: u8, y: u8, s: u8)
    by (bit_vector)
    requires
        1 <= s <= 7,
    ensures
        (((x << s) | (y >> ((8 - s) as u8))) as u32) + 256 * ((x >> ((8 - s) as u8)) as u32) == (
        x as u32) * (1u32 << (s as u32)) + ((y >> ((8 - s) as u8)) as u32),
{
}

proof fn lemma_bits_up_first(x: u8, s: u8)
    by (bit_vector)
    requires
        1 <= s <= 7,
    ensures
        ((x << s) as u32) + 256 * ((x >> ((8 - s) as u8)) as u32) == (x as u32) * (1u32 << (
        s as u32)),
{
}

/// Moving entries `k` places down divides the little-endian value by 2^(8k).
proof fn lemma_bytes_down(t: Seq<u8>, k: int)
    requires
        0 <= k <= t.len(),
    ensures
        le_value(bytes_down(t, k)) == le_value(t) / pow2(8 * (k as nat)),
{
    let out = bytes_down(t, k);
    let n = t.len() as int;
    lemma_le_value_split(out, n - k);
    assert(out.take(n - k) =~= t.skip(k));
    lemma_le_value_zeros(out.skip(n - k));
    lemma_le_value_split(t, k);
    lemma_le_value_bound(t.take(k));
    lemma_pow2_pos(8 * (k as nat));
    let p = pow2(8 * (k as nat));
    lemma_mul_is_commutative(p as int, le_value(t.skip(k)) as int);
    lemma_fundamental_div_mod_converse(
        le_value(t) as int,
        p as int,
        le_value(t.skip(k)) as int,
        le_value(t.take(k)) as int,
    );
}

/// Moving entries `k` places up multiplies the little-endian value by 2^(8k),
/// dropping what no longer fits.
proof fn lemma_bytes_up(t: Seq<u8>, k: int)
    requires
        0 <= k <= t.len(),
    ensures
        le_value(bytes_up(t, k)) == (le_value(t) * pow2(8 * (k as nat))) % pow2(8 * t.len()),
{
    let out = bytes_up(t, k);
    let n = t.len() as int;
    lemma_le_value_split(out, k);
    lemma_le_value_zeros(out.take(k));
    assert(out.skip(k) =~= t.take(n - k));
    lemma_le_value_split(t, n - k);
    lemma_le_value_bound(out);
    let pk = pow2(8 * (k as nat));
    let pnk = pow2(8 * ((n - k) as nat));
    let pn = pow2(8 * t.len());
    lemma_pow2_adds(8 * (k as nat), 8 * ((n - k) as nat));
    assert(8 * (k as nat) + 8 * ((n - k) as nat) == 8 * t.len());
    let lo = le_value(t.take(n - k));
    let hi = le_value(t.skip(n - k));
    assert(le_value(t) * pk == le_value(out) + pn * hi) by (nonlinear_arith)
        requires
            le_value(t) == lo + pnk * hi,
            le_value(out) == pk * lo,
            pn == pk * pnk,
    ;
    lemma_pow2_pos(8 * t.len());
    lemma_mul_is_commutative(pn as int, hi as int);
    lemma_fundamental_div_mod_converse(
        (le_value(t) * pk) as int,
        pn as int,
        hi as int,
        le_value(out) as int,
    );
}

/// Carrying bits `s` places down divides the little-endian value by 2^s,
/// the remainder being the low bits of the first entry.
proof fn lemma_bits_down(t: Seq<u8>, s: u8)
    requires
        1 <= s <= 7,
        t.len() >= 1,
    ensures
        le_value(bits_down(t, s)) * pow2(s as nat) + (t[0] as nat) % pow2(s as nat) == le_value(t),
    decreases t.len(),
{
    lemma_small_pow2(s);
    let p = pow2(s as nat);
    let out = bits_down(t, s);
    let x = t[0];
    if t.len() == 1 {
        lemma_bits_down_last(x, s);
        lemma_le_value_single(out);
        lemma_le_value_single(t);
    } else {
        let t2 = t.drop_first();
        lemma_bits_down(t2, s);
        assert(out.drop_first() =~= bits_down(t2, s));
        let y = t[1];
        lemma_bits_down_pair(x, y, s);
        let o0 = out[0] as nat;
        let r2 = le_value(bits_down(t2, s));
        let lx = (x as nat) % p;
        let ly = (y as nat) % p;
        assert((o0 + 256 * r2) * p + lx == x as nat + 256 * le_value(t2)) by (nonlinear_arith)
            requires
                o0 * p + lx == x as nat + 256 * ly,
                r2 * p + ly == le_value(t2),
        ;
    }
}

/// Carrying bits `s` places up multiplies the little-endian value by 2^s,
/// the overflow being the high bits of the last entry.
proof fn lemma_bits_up(t: Seq<u8>, s: u8)
    requires
        1 <= s <= 7,
        t.len() >= 1,
    ensures
        le_value(bits_up(t, s)) + pow2(8 * t.len()) * ((t.last() >> ((8 - s) as u8)) as nat)
            == le_value(t) * pow2(s as nat),
    decreases t.len(),
{
    lemma_small_pow2(s);
    let p = pow2(s as nat);
    let out = bits_up(t, s);
    let n = t.len() as int;
    if n == 1 {
        lemma_bits_up_first(t[0], s);
        lemma_le_value_single(out);
        lemma_le_value_single(t);
        lemma2_to64();
    } else {
        let t2 = t.take(n - 1);
        lemma_bits_up(t2, s);
        assert(out.take(n - 1) =~= bits_up(t2, s));
        lemma_le_value_split(out, n - 1);
        lemma_le_value_split(t, n - 1);
        let x = t[n - 1];
        let y = t[n - 2];
        lemma_bits_up_pair(x, y, s);
        lemma_le_value_single(out.skip(n - 1));
        lemma_le_value_single(t.skip(n - 1));
        let b = pow2(8 * ((n - 1) as nat));
        lemma_pow2_byte_step((n - 1) as nat);
        assert(8 * (((n - 1) as nat) + 1) == 8 * t.len());
        let o = out[n - 1] as nat;
        let hx = (x >> ((8 - s) as u8)) as nat;
        let hy = (y >> ((8 - s) as u8)) as nat;
        let r2 = le_value(bits_up(t2, s));
        let l2 = le_value(t2);
        assert((r2 + b * o) + (256 * b) * hx == (l2 + b * (x as nat)) * p) by (nonlinear_arith)
            requires
                o + 256 * hx == (x as nat) * p + hy,
                r2 + b * hy == l2 * p,
        ;
    }
}

/// Shifts the word's 32 big-endian bytes by `places` bits, moving bytes
/// toward index 0 and carrying bits from each entry into the one before it.
pub fn shift_right(num: &Word, places: usize) -> (r: Word)
    requires
        places < 264,
    ensures
        r@ == shifted_right(num@, places as nat),
{
    let mut bytes: [u8; 32] = word_to_be_bytes(num);
    let byte_shift: usize = places / 8;
    let bit_shift: u8 = (places % 8) as u8;
    let ghost orig = bytes@;

    if byte_shift > 0 {
        let mut i: usize = 0;
        while i < 32 - byte_shift
            invariant
                byte_shift <= 32,
                i <= 32 - byte_shift,
                bytes@.len() == 32,
                forall|j: int| 0 <= j < i ==> bytes@[j] == orig[j + byte_shift],
                forall|j: int| i <= j < 32 ==> bytes@[j] == orig[j],
            decreases 32 - i,
        {
            bytes[i] = bytes[i + byte_shift];
            i += 1;
        }
        for i in (32 - byte_shift)..32
            invariant
                byte_shift <= 32,
                bytes@.len() == 32,
                forall|j: int| 0 <= j < 32 - byte_shift ==> bytes@[j] == orig[j + byte_shift],
                forall|j: int| 32 - byte_shift <= j < i ==> bytes@[j] == 0,
        {
            bytes[i] = 0;
        }
    }
    proof {
        assert(bytes@ =~= bytes_down(orig, byte_shift as int));
        lemma_bytes_down(orig, byte_shift as int);
    }
    let ghost mid = bytes@;

    if bit_shift > 0 {
        let mut i: usize = 0;
        while i < 31
            invariant
                1 <= bit_shift <= 7,
                i <= 31,
                bytes@.len() == 32,
                mid.len() == 32,
                forall|j: int| 0 <= j < i ==> bytes@[j] == bits_down(mid, bit_shift)[j],
                forall|j: int| i <= j < 32 ==> bytes@[j] == mid[j],
            decreases 31 - i,
        {
            bytes[i] = (bytes[i] >> bit_shift) | (bytes[i + 1] << (8 - bit_shift));
            i += 1;
        }
        bytes[31] = bytes[31] >> bit_shift;
        proof {
            assert(bytes@ =~= bits_down(mid, bit_shift));
            lemma_bits_down(mid, bit_shift);
            lemma_small_pow2(bit_shift);
            lemma_fundamental_div_mod_converse(
                le_value(mid) as int,
                pow2(bit_shift as nat) as int,
                le_value(bytes@) as int,
                ((mid[0] as nat) % pow2(bit_shift as nat)) as int,
            );
        }
    }
    proof {
        let x = byte_reversed(num@);
        assert(le_value(orig) == x);
        lemma_pow2_pos(8 * (byte_shift as nat));
        lemma_pow2_pos(bit_shift as nat);
        lemma_div_denominator(x as int, pow2(8 * (byte_shift as nat)) as int, pow2(bit_shift as nat) as int);
        lemma_pow2_adds(8 * (byte_shift as nat), bit_shift as nat);
        assert(8 * (byte_shift as nat) + bit_shift as nat == places as nat);
        if bit_shift == 0 {
            lemma2_to64();
        }
        assert(le_value(bytes@) == x / pow2(places as nat));
        lemma_be_value_is_reversed_le(bytes@);
    }
    word_from_be_bytes(&bytes)
}

/// Shifts the word's 32 big-endian bytes by `places` bits, moving bytes
/// toward index 31 and carrying bits from each entry into the one after it.
pub fn shift_left(num: &Word, places: usize) -> (r: Word)
    requires
        places < 264,
    ensures
        r@ == shifted_left(num@, places as nat),
{
    let mut bytes: [u8; 32] = word_to_be_bytes(num);
    let byte_shift: usize = places / 8;
    let bit_shift: u8 = (places % 8) as u8;
    let ghost orig = bytes@;

    if byte_shift > 0 {
        let mut i: usize = 31;
        while i >= byte_shift
            invariant
                1 <= byte_shift <= 32,
                byte_shift <= i + 1,
                i <= 31,
                bytes@.len() == 32,
                forall|j: int| i < j < 32 ==> bytes@[j] == orig[j - byte_shift],
                forall|j: int| 0 <= j <= i ==> bytes@[j] == orig[j],
            decreases i,
        {
            bytes[i] = bytes[i - byte_shift];
            i -= 1;
        }
        for i in 0..byte_shift
            invariant
                1 <= byte_shift <= 32,
                bytes@.len() == 32,
                forall|j: int| byte_shift <= j < 32 ==> bytes@[j] == orig[j - byte_shift],
                forall|j: int| 0 <= j < i ==> bytes@[j] == 0,
        {
            bytes[i] = 0;
        }
    }
    proof {
        assert(bytes@ =~= bytes_up(orig, byte_shift as int));
        lemma_bytes_up(orig, byte_shift as int);
    }
    let ghost mid = bytes@;

    if bit_shift > 0 {
        let mut i: usize = 31;
        while i > 0
            invariant
                1 <= bit_shift <= 7,
                i <= 31,
                bytes@.len() == 32,
                mid.len() == 32,
                forall|j: int| i < j < 32 ==> bytes@[j] == bits_up(mid, bit_shift)[j],
                forall|j: int| 0 <= j <= i ==> bytes@[j] == mid[j],
            decreases i,
        {
            bytes[i] = (bytes[i] << bit_shift) | (bytes[i - 1] >> (8 - bit_shift));
            i -= 1;
        }
        bytes[0] = bytes[0] << bit_shift;
        proof {
            assert(bytes@ =~= bits_up(mid, bit_shift));
            lemma_bits_up(mid, bit_shift);
            lemma_le_value_bound(bytes@);
            lemma_pow2_pos(256);
            let hi = (mid.last() >> ((8 - bit_shift) as u8)) as nat;
            lemma_mul_is_commutative(pow2(256) as int, hi as int);
            lemma_fundamental_div_mod_converse(
                (le_value(mid) * pow2(bit_shift as nat)) as int,
                pow2(256) as int,
                hi as int,
                le_value(bytes@) as int,
            );
        }
    }
    proof {
        let x = byte_reversed(num@);
        let m = pow2(256);
        lemma_word_modulus_is_pow2();
        assert(le_value(orig) == x);
        assert(8 * orig.len() == 256);
        let pk = pow2(8 * (byte_shift as nat));
        let ps = pow2(bit_shift as nat);
        lemma_pow2_adds(8 * (byte_shift as nat), bit_shift as nat);
        assert(8 * (byte_shift as nat) + bit_shift as nat == places as nat);
        if bit_shift == 0 {
            lemma2_to64();
        } else {
            lemma_pow2_pos(256);
            lemma_mul_mod_noop_left((x * pk) as int, ps as int, m as int);
            lemma_mul_is_associative(x as int, pk as int, ps as int);
        }
        assert(le_value(bytes@) == (x * pow2(places as nat)) % word_modulus());
        lemma_be_value_is_reversed_le(bytes@);
    }
    word_from_be_bytes(&bytes)
}

proof fn lemma_byte_reversed_zero()
    ensures
        byte_reversed(0) == 0,
{
    assert forall|i: int| 0 <= i < 32 implies #[trigger] be_bytes(0)[i] == 0 by {
        lemma_pow2_pos((8 * (31 - i)) as nat);
    }
    lemma_le_value_zeros(be_bytes(0));
}

/// Shifting by zero places leaves a word's number as it is.
pub proof fn law_shift_by_zero(v: nat)
    requires
        v < word_modulus(),
    ensures
        shifted_right(v, 0) == v,
        shifted_left(v, 0) == v,
{
    lemma_word_modulus_is_pow2();
    lemma2_to64();
    lemma_byte_reversed_bound(v);
    lemma_byte_reversed_twice(v);
    lemma_small_mod(byte_reversed(v), pow2(256));
}

/// Two right shifts are one right shift by the sum of the places.
pub proof fn law_shift_right_composes(v: nat, a: nat, b: nat)
    ensures
        shifted_right(shifted_right(v, a), b) == shifted_right(v, a + b),
{
    let x = byte_reversed(v);
    lemma_byte_reversed_bound(v);
    lemma_pow2_pos(a);
    lemma_pow2_pos(b);
    lemma_div_is_ordered_by_denominator(x as int, 1, pow2(a) as int);
    let y = x / pow2(a);
    lemma_byte_reversed_twice(y);
    lemma_div_denominator(x as int, pow2(a) as int, pow2(b) as int);
    lemma_pow2_adds(a, b);
}

/// Two left shifts are one left shift by the sum of the places.
pub proof fn law_shift_left_composes(v: nat, a: nat, b: nat)
    ensures
        shifted_left(shifted_left(v, a), b) == shifted_left(v, a + b),
{
    lemma_word_modulus_is_pow2();
    let m = word_modulus();
    let x = byte_reversed(v);
    lemma_pow2_pos(256);
    let y = (x * pow2(a)) % m;
    lemma_mod_bound((x * pow2(a)) as int, m as int);
    lemma_byte_reversed_twice(y);
    lemma_mul_mod_noop_left((x * pow2(a)) as int, pow2(b) as int, m as int);
    lemma_mul_is_associative(x as int, pow2(a) as int, pow2(b) as int);
    lemma_pow2_adds(a, b);
}

/// Shifting by 256 places or more gives zero.
pub proof fn law_shift_past_width(v: nat, p: nat)
    requires
        p >= 256,
    ensures
        shifted_right(v, p) == 0,
        shifted_left(v, p) == 0,
{
    lemma_word_modulus_is_pow2();
    let x = byte_reversed(v);
    lemma_byte_reversed_bound(v);
    if p > 256 {
        lemma_pow2_strictly_increases(256, p);
    }
    lemma_pow2_pos(256);
    lemma_fundamental_div_mod_converse(x as int, pow2(p) as int, 0, x as int);
    lemma_pow2_adds(256, (p - 256) as nat);
    lemma_mul_is_associative(x as int, pow2((p - 256) as nat) as int, pow2(256) as int);
    lemma_mul_is_commutative(pow2(256) as int, pow2((p - 256) as nat) as int);
    lemma_mod_multiples_basic((x * pow2((p - 256) as nat)) as int, pow2(256) as int);
    lemma_byte_reversed_zero();
}

/// A right shift after a left shift by the same places keeps the bits of the
/// byte-reversed number that the left shift did not push out.
pub proof fn law_shift_right_after_left(v: nat, p: nat)
    requires
        p <= 256,
    ensures
        shifted_right(shifted_left(v, p), p) == byte_reversed(byte_reversed(v) % pow2((256 - p) as nat)),
{
    lemma_word_modulus_is_pow2();
    let x = byte_reversed(v);
    let m = word_modulus();
    let pp = pow2(p);
    let q = pow2((256 - p) as nat);
    lemma_pow2_pos(p);
    lemma_pow2_pos((256 - p) as nat);
    lemma_pow2_adds(p, (256 - p) as nat);
    assert(m == pp * q);
    let y = (x * pp) % m;
    lemma_mod_bound((x * pp) as int, m as int);
    lemma_byte_reversed_twice(y);
    lemma_mod_breakdown((x * pp) as int, pp as int, q as int);
    lemma_div_by_multiple(x as int, pp as int);
    lemma_mod_multiples_basic(x as int, pp as int);
    lemma_mod_bound(x as int, q as int);
    lemma_mul_is_commutative(pp as int, (x % q) as int);
    assert(y == (x % q) * pp);
    lemma_fundamental_div_mod_converse(y as int, pp as int, (x % q) as int, 0);
}

/// A left shift after a right shift by the same places clears the low bits of
/// the byte-reversed number.
pub proof fn law_shift_left_after_right(v: nat, p: nat)
    ensures
        shifted_left(shifted_right(v, p), p) == byte_reversed(
            (byte_reversed(v) - byte_reversed(v) % pow2(p)) as nat,
        ),
{
    lemma_word_modulus_is_pow2();
    let x = byte_reversed(v);
    lemma_byte_reversed_bound(v);
    lemma_pow2_pos(p);
    let y = x / pow2(p);
    lemma_div_is_ordered_by_denominator(x as int, 1, pow2(p) as int);
    lemma_byte_reversed_twice(y);
    lemma_fundamental_div_mod(x as int, pow2(p) as int);
    lemma_mul_is_commutative(y as int, pow2(p) as int);
    lemma_mod_bound(x as int, pow2(p) as int);
    lemma_small_mod((y * pow2(p)) as nat, pow2(256));
}

/// A right shift by whole bytes multiplies the word's number by 2^(8k), dropping
/// what no longer fits.
pub proof fn law_whole_byte_shift_right(v: nat, k: nat)
    requires
        v < word_modulus(),
        k <= 32,
    ensures
        shifted_right(v, 8 * k) == (v * pow2(8 * k)) % word_modulus(),
{
    lemma_word_modulus_is_pow2();
    let s = be_bytes(v);
    let t = bytes_down(s, k as int);
    lemma_bytes_down(s, k as int);
    lemma_be_value_is_reversed_le(t);
    assert(t.reverse() =~= bytes_up(s.reverse(), k as int));
    lemma_bytes_up(s.reverse(), k as int);
    lemma_be_value_of_be_bytes(v);
}

/// A left shift by whole bytes divides the word's number by 2^(8k).
pub proof fn law_whole_byte_shift_left(v: nat, k: nat)
    requires
        v < word_modulus(),
        k <= 32,
    ensures
        shifted_left(v, 8 * k) == v / pow2(8 * k),
{
    lemma_word_modulus_is_pow2();
    let s = be_bytes(v);
    let t = bytes_up(s, k as int);
    lemma_bytes_up(s, k as int);
    assert(8 * s.len() == 256);
    lemma_be_value_is_reversed_le(t);
    assert(t.reverse() =~= bytes_down(s.reverse(), k as int));
    lemma_bytes_down(s.reverse(), k as int);
    lemma_be_value_of_be_bytes(v);
}

} // verus!
