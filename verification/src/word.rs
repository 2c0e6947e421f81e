//! 256-bit unsigned words, held as four 64-bit limbs, least significant first.
//!
//! The arithmetic that the machine performs on words is carried out by the
//! `U256` type of the `ethers` crate; the functions here convert between the two.

use vstd::prelude::*;
use vstd::arithmetic::div_mod::*;
use vstd::arithmetic::power2::*;
use ethers::types::U256;
use crate::bytes::{be_bytes, be_value};

verus! {

/// 2^64
pub open spec fn limb_base() -> nat {
    0x10000000000000000nat
}

/// 2^256, the number of distinct words.
pub open spec fn word_modulus() -> nat {
    0x10000000000000000000000000000000000000000000000000000000000000000nat
}

/// A 256-bit unsigned integer; `limbs[0]` holds the least significant 64 bits.
#[derive(Clone, Copy, Debug, PartialEq, Eq)]
pub struct Word {
    pub limbs: [u64; 4],
}

impl View for Word {
    type V = nat;

    /// The number that the word stands for.
    open spec fn view(&self) -> nat {
        self.limbs[0] as nat + self.limbs[1] as nat * 0x10000000000000000nat + self.limbs[2] as nat
            * 0x100000000000000000000000000000000nat + self.limbs[3] as nat
            * 0x1000000000000000000000000000000000000000000000000nat
    }
}

/// The word that stands for `v` modulo 2^256.
pub open spec fn word_of(v: nat) -> Word {
    Word {
        limbs: [
            (v % limb_base()) as u64,
            ((v / 0x10000000000000000nat) % limb_base()) as u64,
            ((v / 0x100000000000000000000000000000000nat) % limb_base()) as u64,
            ((v / 0x1000000000000000000000000000000000000000000000000nat) % limb_base()) as u64,
        ],
    }
}

/// 2^256 written as a power of two.
pub proof fn lemma_word_modulus_is_pow2()
    ensures
        pow2(256) == word_modulus(),
        pow2(64) == limb_base(),
{
    lemma2_to64();
    lemma_pow2_adds(64, 64);
    assert(pow2(128) == 0x100000000000000000000000000000000nat);
    lemma_pow2_adds(128, 128);
}

/// A word is determined by the number it stands for.
pub proof fn lemma_word_of_value(w: Word)
    ensures
        word_of(w@) == w,
{
    let l0 = w.limbs[0] as int;
    let l1 = w.limbs[1] as int;
    let l2 = w.limbs[2] as int;
    let l3 = w.limbs[3] as int;
    let x = w@ as int;
    let b: int = 0x10000000000000000int;
    lemma_fundamental_div_mod_converse(x, b, l1 + l2 * b + l3 * 0x100000000000000000000000000000000int, l0);
    lemma_fundamental_div_mod_converse(l1 + l2 * b + l3 * 0x100000000000000000000000000000000int, b, l2 + l3 * b, l1);
    lemma_fundamental_div_mod_converse(x, 0x100000000000000000000000000000000int, l2 + l3 * b, l0 + l1 * b);
    lemma_fundamental_div_mod_converse(l2 + l3 * b, b, l3, l2);
    lemma_fundamental_div_mod_converse(x, 0x1000000000000000000000000000000000000000000000000int, l3, l0 + l1 * b + l2 * 0x100000000000000000000000000000000int);
    lemma_fundamental_div_mod_converse(l3, b, 0, l3);
    assert(word_of(x as nat).limbs =~= w.limbs);
}

/// The word for a number below 2^256 stands for that number.
pub proof fn lemma_value_of_word_of(v: nat)
    requires
        v < word_modulus(),
    ensures
        word_of(v)@ == v,
{
    let b: int = 0x10000000000000000int;
    let q1 = (v as int) / b;
    let q2 = (v as int) / 0x100000000000000000000000000000000int;
    let q3 = (v as int) / 0x1000000000000000000000000000000000000000000000000int;
    lemma_fundamental_div_mod(v as int, b);
    lemma_fundamental_div_mod(q1, b);
    lemma_div_denominator(v as int, b, b);
    lemma_fundamental_div_mod(q2, b);
    lemma_div_denominator(v as int, 0x100000000000000000000000000000000int, b);
    lemma_fundamental_div_mod(q3, b);
    lemma_div_denominator(v as int, 0x1000000000000000000000000000000000000000000000000int, b);
    assert(v as int / (0x1000000000000000000000000000000000000000000000000int * b) == 0);
}

/// The decimal digits of `v`, most significant first, with no leading zeros.
pub open spec fn decimal_digits(v: nat) -> Seq<char>
    decreases v,
{
    if v < 10 {
        seq![(48 + v) as char]
    } else {
        decimal_digits(v / 10).push((48 + v % 10) as char)
    }
}

impl Word {
    /// The word's number in decimal.
    pub fn to_decimal(&self) -> (r: String)
        ensures
            r@ == decimal_digits(self@),
    {
        word_to_decimal(self)
    }

    /// The word that stands for `x`.
    pub fn from_u32(x: u32) -> (w: Word)
        ensures
            w@ == x as nat,
    {
        Word { limbs: [x as u64, 0, 0, 0] }
    }

    /// Whether the word stands for zero.
    pub fn is_zero(&self) -> (r: bool)
        ensures
            r == (self@ == 0),
    {
        self.limbs[0] == 0 && self.limbs[1] == 0 && self.limbs[2] == 0 && self.limbs[3] == 0
    }

    /// Whether the word's number fits in 32 bits.
    pub fn fits_u32(&self) -> (r: bool)
        ensures
            r == (self@ < 0x100000000),
    {
        self.limbs[1] == 0 && self.limbs[2] == 0 && self.limbs[3] == 0 && self.limbs[0] <= 0xffff_ffff
    }

    /// The word's number as a `u32`.
    pub fn as_u32(&self) -> (r: u32)
        requires
            self@ < 0x100000000,
        ensures
            r as nat == self@,
    {
        self.limbs[0] as u32
    }
}

/// Sum modulo 2^256, by `U256::overflowing_add` (its carry flag is dropped).
#[verifier::external_body]
pub(crate) fn word_add(a: Word, b: Word) -> (r: Word)
    ensures
        r@ == (a@ + b@) % word_modulus(),
{
    Word { limbs: U256(a.limbs).overflowing_add(U256(b.limbs)).0 .0 }
}

/// Difference modulo 2^256, by `U256::overflowing_sub` (its borrow flag is dropped).
#[verifier::external_body]
pub(crate) fn word_sub(a: Word, b: Word) -> (r: Word)
    ensures
        r@ == (a@ - b@) % (word_modulus() as int),
{
    Word { limbs: U256(a.limbs).overflowing_sub(U256(b.limbs)).0 .0 }
}

/// Product modulo 2^256, by `U256::overflowing_mul` (its overflow flag is dropped).
#[verifier::external_body]
pub(crate) fn word_mul(a: Word, b: Word) -> (r: Word)
    ensures
        r@ == (a@ * b@) % word_modulus(),
{
    Word { limbs: U256(a.limbs).overflowing_mul(U256(b.limbs)).0 .0 }
}

/// Quotient rounded down, the first half of `U256::div_mod`, which panics on a zero divisor.
#[verifier::external_body]
pub(crate) fn word_div(a: Word, b: Word) -> (r: Word)
    requires
        b@ != 0,
    ensures
        r@ == a@ / b@,
{
    Word { limbs: U256(a.limbs).div_mod(U256(b.limbs)).0 .0 }
}

/// Numeric order, by `U256`'s `<` (its `Ord` compares limbs from the most significant).
#[verifier::external_body]
pub(crate) fn word_lt(a: Word, b: Word) -> (r: bool)
    ensures
        r == (a@ < b@),
{
    U256(a.limbs) < U256(b.limbs)
}

/// The 32 big-endian bytes of a word, by `U256::to_big_endian`.
#[verifier::external_body]
pub(crate) fn word_to_be_bytes(w: &Word) -> (r: [u8; 32])
    ensures
        r@ == be_bytes(w@),
{
    let mut out = [0u8; 32];
    U256(w.limbs).to_big_endian(&mut out);
    out
}

/// The word that big-endian `bytes` (at most 32 of them) stand for, by `U256::from_big_endian`.
#[verifier::external_body]
pub(crate) fn word_from_be_bytes(bytes: &[u8]) -> (r: Word)
    requires
        bytes@.len() <= 32,
    ensures
        r@ == be_value(bytes@),
{
    Word { limbs: U256::from_big_endian(bytes).0 }
}

/// The decimal digits of a word, by `U256`'s `Display` (which writes `0` for zero).
#[verifier::external_body]
fn word_to_decimal(w: &Word) -> (r: String)
    ensures
        r@ == decimal_digits(w@),
{
    format!("{}", U256(w.limbs))
}

} // verus!
