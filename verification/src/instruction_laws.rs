//! What each implemented instruction does to the machine, stated over the
//! words' numbers, the call data and the code alone.

use vstd::prelude::*;
use vstd::arithmetic::power2::pow2;
use vstd::arithmetic::div_mod::{
    lemma_add_mod_noop, lemma_small_mod, lemma_fundamental_div_mod, lemma_mod_bound,
    lemma_div_is_ordered_by_denominator,
};
use vstd::arithmetic::mul::lemma_mul_is_commutative;
use crate::bytes::{be_value, le_value, lemma_le_value_bound, lemma_le_value_digit};
use crate::word::{word_of, lemma_value_of_word_of, lemma_word_modulus_is_pow2};
use crate::shift::shifted_right;
use crate::machine::{MachineView, StepOutcome, Fault, spec_step, calldata_window};

verus! {

/// The byte `b` is the next instruction of `code` for state `m`, and reading it
/// does not take the counter past its maximum.
pub open spec fn next_instruction_is(m: MachineView, code: Seq<u8>, b: u8) -> bool {
    m.pos < code.len() && code[m.pos as int] == b && m.pc < u32::MAX
}

/// `ADD`, `MUL`, `SUB`, `DIV` and `LT` on top word `a` and second word `b`:
/// the sum and product modulo 2^256; a difference that gives `a` back when `b`
/// is added modulo 2^256; the quotient rounded down (division by zero faults);
/// one exactly when `a < b` as 256-bit numbers, else zero. Either way the two
/// words are replaced by the one result, the rest of the stack untouched.
pub proof fn law_arithmetic(m: MachineView, code: Seq<u8>, calldata: Seq<u8>, op: u8)
    requires
        op == 0x01 || op == 0x02 || op == 0x03 || op == 0x04 || op == 0x10,
        next_instruction_is(m, code, op),
        m.stack.len() >= 2,
    ensures
        ({
            let n = m.stack.len();
            let a = m.stack[n - 1]@;
            let b = m.stack[n - 2]@;
            if op == 0x04 && b == 0 {
                spec_step(m, code, calldata) == StepOutcome::Faulted(Fault::DivisionByZero)
            } else {
                spec_step(m, code, calldata) matches StepOutcome::Stepped(_, next) && {
                    let r = next.stack.last()@;
                    &&& next.stack.len() == n - 1
                    &&& next.stack.take(n - 2) == m.stack.take(n - 2)
                    &&& r < pow2(256)
                    &&& op == 0x01 ==> r == (a + b) % pow2(256)
                    &&& op == 0x02 ==> r == (a * b) % pow2(256)
                    &&& op == 0x03 ==> (r + b) % pow2(256) == a
                    &&& op == 0x04 ==> r * b <= a < r * b + b
                    &&& op == 0x10 ==> r == if a < b { 1nat } else { 0nat }
                    &&& next.pos == m.pos + 1
                    &&& next.pc == m.pc + 1
                    &&& next.memory == m.memory
                }
            }
        }),
{
    lemma_word_modulus_is_pow2();
    let n = m.stack.len();
    let a = m.stack[n - 1]@;
    let b = m.stack[n - 2]@;
    let md = pow2(256);
    if op == 0x01 {
        lemma_mod_bound((a + b) as int, md as int);
        lemma_value_of_word_of((a + b) % md);
    } else if op == 0x02 {
        lemma_mod_bound((a * b) as int, md as int);
        lemma_value_of_word_of((a * b) % md);
    } else if op == 0x03 {
        let d = (a - b) % (md as int);
        lemma_mod_bound(a - b, md as int);
        lemma_value_of_word_of(d as nat);
        lemma_small_mod(b, md);
        lemma_small_mod(a, md);
        lemma_add_mod_noop(a - b, b as int, md as int);
    } else if op == 0x04 {
        if b != 0 {
            lemma_fundamental_div_mod(a as int, b as int);
            lemma_mod_bound(a as int, b as int);
            lemma_mul_is_commutative(b as int, (a / b) as int);
            lemma_div_is_ordered_by_denominator(a as int, 1, b as int);
            lemma_value_of_word_of(a / b);
        }
    } else {
        lemma_value_of_word_of(if a < b { 1nat } else { 0nat });
    }
    match spec_step(m, code, calldata) {
        StepOutcome::Stepped(_, next) => {
            assert(next.stack.take(n - 2) =~= m.stack.take(n - 2));
        },
        _ => {},
    }
}

/// `CALLDATALOAD` at an offset `o` within the call data pushes, in place of the
/// offset, the word whose 32 big-endian bytes are the call data from `o` on,
/// zero past its end; with 32 bytes available it is their big-endian number.
pub proof fn law_calldataload(m: MachineView, code: Seq<u8>, calldata: Seq<u8>)
    requires
        next_instruction_is(m, code, 0x35),
        m.stack.len() >= 1,
        m.stack.last()@ <= calldata.len(),
        m.stack.last()@ < 0x100000000,
    ensures
        spec_step(m, code, calldata) matches StepOutcome::Stepped(_, next) && {
            let o = m.stack.last()@;
            let v = next.stack.last()@;
            &&& next.stack.drop_last() == m.stack.drop_last()
            &&& v < pow2(256)
            &&& forall|i: int|
                0 <= i < 32 ==> #[trigger] ((v / pow2((8 * (31 - i)) as nat)) % 256) == if o + i
                    < calldata.len() {
                    calldata[o + i] as nat
                } else {
                    0nat
                }
            &&& o + 32 <= calldata.len() ==> v == be_value(calldata.subrange(o as int, o + 32int))
            &&& o + 32 <= calldata.len() ==> v % 256 == calldata[o + 31int] as nat
        },
{
    lemma_word_modulus_is_pow2();
    let o = m.stack.last()@;
    let window = calldata_window(calldata, o);
    let r = window.reverse();
    lemma_le_value_bound(r);
    assert(8 * r.len() == 256);
    let v = be_value(window);
    lemma_value_of_word_of(v);
    assert forall|i: int| 0 <= i < 32 implies #[trigger] ((v / pow2((8 * (31 - i)) as nat)) % 256)
        == if o + i < calldata.len() {
        calldata[o + i] as nat
    } else {
        0nat
    } by {
        lemma_le_value_digit(r, 31 - i);
        assert(r[31 - i] == window[i]);
    }
    if o + 32 <= calldata.len() {
        assert(window =~= calldata.subrange(o as int, o + 32int));
        assert(pow2((8 * (31 - 31int)) as nat) == 1) by {
            vstd::arithmetic::power2::lemma2_to64();
        }
        assert(((v / pow2((8 * (31 - 31int)) as nat)) % 256) == calldata[o + 31int] as nat);
    }
}

/// `CALLDATASIZE` pushes the number of bytes of call data (for fewer than 2^32).
pub proof fn law_calldatasize(m: MachineView, code: Seq<u8>, calldata: Seq<u8>)
    requires
        next_instruction_is(m, code, 0x36),
        calldata.len() < 0x100000000,
    ensures
        spec_step(m, code, calldata) matches StepOutcome::Stepped(_, next) && {
            &&& next.stack.drop_last() == m.stack
            &&& next.stack.last()@ == calldata.len()
        },
{
    lemma_word_modulus_is_pow2();
    lemma_value_of_word_of(calldata.len());
    match spec_step(m, code, calldata) {
        StepOutcome::Stepped(_, next) => {
            assert(next.stack.drop_last() =~= m.stack);
        },
        _ => {},
    }
}

/// `DUP1` on a non-empty stack pushes a copy of the top word.
pub proof fn law_dup1(m: MachineView, code: Seq<u8>, calldata: Seq<u8>)
    requires
        next_instruction_is(m, code, 0x80),
        m.stack.len() >= 1,
    ensures
        spec_step(m, code, calldata) matches StepOutcome::Stepped(_, next) && next.stack
            == m.stack.push(m.stack.last()),
{
}

/// `JUMPI` with offset `o` on top and condition `c` below (both below 2^32) takes
/// both off the stack and sets the counter to `o` when `c` is one, leaving it
/// after the instruction otherwise; the read position just moves past `JUMPI`.
pub proof fn law_jumpi(m: MachineView, code: Seq<u8>, calldata: Seq<u8>)
    requires
        next_instruction_is(m, code, 0x57),
        m.stack.len() >= 2,
        m.stack.last()@ < 0x100000000,
        m.stack[m.stack.len() - 2]@ < 0x100000000,
    ensures
        spec_step(m, code, calldata) matches StepOutcome::Stepped(_, next) && {
            let n = m.stack.len();
            &&& next.stack == m.stack.take(n - 2)
            &&& next.pc == if m.stack[n - 2]@ == 1 { m.stack.last()@ as int } else { m.pc + 1 }
            &&& next.pos == m.pos + 1
        },
{
}

/// `PUSH1`, `PUSH2` and `PUSH4` with all operand bytes in the code push one word
/// per operand byte, whose number is that byte, in code order.
pub proof fn law_push(m: MachineView, code: Seq<u8>, calldata: Seq<u8>, op: u8, width: nat)
    requires
        (op == 0x60 && width == 1) || (op == 0x61 && width == 2) || (op == 0x63 && width == 4),
        next_instruction_is(m, code, op),
        m.pos + 1 + width <= code.len(),
        m.pc + 1 + width <= u32::MAX,
    ensures
        spec_step(m, code, calldata) matches StepOutcome::Stepped(_, next) && {
            let n = m.stack.len();
            &&& next.stack.len() == n + width
            &&& next.stack.take(n as int) == m.stack
            &&& forall|k: int| 0 <= k < width ==> #[trigger] next.stack[n + k]@ == code[m.pos + 1 + k] as nat
            &&& next.pos == m.pos + 1 + width
            &&& next.pc == m.pc + 1 + width
        },
{
    lemma_word_modulus_is_pow2();
    match spec_step(m, code, calldata) {
        StepOutcome::Stepped(_, next) => {
            let n = m.stack.len();
            assert(next.stack.take(n as int) =~= m.stack);
            assert forall|k: int| 0 <= k < width implies #[trigger] next.stack[n + k]@ == code[m.pos + 1 + k] as nat by {
                lemma_value_of_word_of(code[m.pos + 1 + k] as nat);
            }
        },
        _ => {},
    }
}

/// `SHR` with a shift `s` below 264 on top and a value `x` below replaces both by
/// the word that `shift_right(x, s)` gives.
pub proof fn law_shr(m: MachineView, code: Seq<u8>, calldata: Seq<u8>)
    requires
        next_instruction_is(m, code, 0x1c),
        m.stack.len() >= 2,
        m.stack.last()@ < 264,
    ensures
        spec_step(m, code, calldata) matches StepOutcome::Stepped(_, next) && {
            let n = m.stack.len();
            &&& next.stack.drop_last() == m.stack.take(n - 2)
            &&& next.stack.last() == word_of(shifted_right(m.stack[n - 2]@, m.stack.last()@))
        },
{
    match spec_step(m, code, calldata) {
        StepOutcome::Stepped(_, next) => {
            assert(next.stack.drop_last() =~= m.stack.take(m.stack.len() - 2));
        },
        _ => {},
    }
}

/// `MSTORE` with two words on the stack and an address below 2^32 always faults:
/// its 32 bytes would start at byte address 255.
pub proof fn law_mstore_faults(m: MachineView, code: Seq<u8>, calldata: Seq<u8>)
    requires
        next_instruction_is(m, code, 0x52),
        m.stack.len() >= 2,
        m.stack.last()@ < 0x100000000,
    ensures
        spec_step(m, code, calldata) == StepOutcome::Faulted(Fault::MemoryAddressOverflow),
{
    let a = m.stack.last()@ as u32;
    assert(((a | 0xffu32) as u8) == 255u8) by (bit_vector);
}

} // verus!
