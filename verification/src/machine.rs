//! The machine: a stack of words, 512 bytes of memory, a read position in the
//! code and an instruction counter, advanced one instruction at a time.

use vstd::prelude::*;
use crate::bytes::{be_value, be_bytes, lemma_le_value_single};
use crate::word::{
    Word, word_of, word_modulus, lemma_word_of_value, word_add, word_sub, word_mul, word_div,
    word_lt, word_to_be_bytes, word_from_be_bytes,
};
use crate::shift::{shift_right, shifted_right};
use crate::opcode::{Opcode, decode_opcode};

verus! {

/// Why execution stops before the code runs out.
#[derive(Clone, Copy, Debug, PartialEq, Eq)]
pub enum Fault {
    /// The call data is shorter than the four bytes of a function selector.
    CalldataTooShort,
    /// The instruction counter would pass `u32::MAX`.
    PcOverflow,
    /// The byte encodes no instruction.
    UndefinedOpcode(u8),
    /// The byte encodes an instruction that the machine does not know how to dispatch.
    UnknownOpcode(u8),
    /// The instruction is not implemented.
    NotImplemented(Opcode),
    /// An instruction needs more words than the stack holds.
    StackUnderflow,
    /// `DUP1` on an empty stack.
    InconsistentProgram,
    /// A `PUSH` instruction runs past the end of the code.
    OperandMissing,
    /// A word used as an offset, shift, address or condition does not fit in 32 bits.
    WordTooLarge,
    /// A call data offset lies past the end of the call data.
    CalldataOffsetTooLarge,
    /// Division by zero.
    DivisionByZero,
    /// A shift by more than 263 places.
    ShiftTooLarge,
    /// A 32-byte store whose last address does not fit in a byte.
    MemoryAddressOverflow,
}

/// What an executed instruction did, beyond what the machine now shows.
#[derive(Clone, Copy, Debug, PartialEq, Eq)]
pub enum Effect {
    /// `ADD`, `MUL`, `SUB`, `DIV` or `LT` took `a` (the top) and `b` and pushed `result`.
    Arithmetic { a: Word, b: Word, result: Word },
    /// `SHR` took `shift` (the top) and `value` and pushed `result`.
    ShiftRight { shift: Word, places: u32, value: Word, result: Word },
    /// `CALLDATALOAD` took `offset` and pushed the 32 bytes of call data from `start`, its value.
    CalldataLoad { start: usize, offset: Word, data: Word },
    /// `CALLDATASIZE` pushed the length of the call data.
    CalldataSize { len: usize },
    /// `MSTORE` wrote 32 bytes at `address`.
    Store { address: u8 },
    /// `JUMPI` took `offset` (the top) and `condition`; the counter became `target` when
    /// the condition was one.
    JumpI { offset: Word, target: u32, condition: Word },
    /// A `PUSH` instruction pushed its `width` operand bytes, one word each.
    Push { width: usize },
    /// `DUP1` pushed a copy of `value`.
    Dup { value: Word },
}

/// One executed instruction: the counter it was read at, and what it did.
#[derive(Clone, Copy, Debug, PartialEq, Eq)]
pub struct Step {
    pub pc: u32,
    pub opcode: Opcode,
    pub effect: Effect,
}

/// The state of a machine between two instructions.
pub struct MachineView {
    pub stack: Seq<Word>,
    pub memory: Seq<u8>,
    pub pos: nat,
    pub pc: u32,
}

/// The result of one step on a machine state.
pub enum StepOutcome {
    /// The code is exhausted; nothing was read.
    Halted,
    /// An instruction ran and left the given state.
    Stepped(Step, MachineView),
    /// An instruction could not run.
    Faulted(Fault),
}

/// A running machine.
pub struct Machine {
    /// The operand stack; its top is the last entry.
    pub stack: Vec<Word>,
    /// Byte-addressed memory.
    pub memory: Vec<u8>,
    /// The position in the code of the next byte to read.
    pub pos: usize,
    /// The instruction counter, advanced by one for each byte read.
    pub pc: u32,
}

impl View for Machine {
    type V = MachineView;

    open spec fn view(&self) -> MachineView {
        MachineView { stack: self.stack@, memory: self.memory@, pos: self.pos as nat, pc: self.pc }
    }
}

/// The size of memory in bytes.
pub open spec fn memory_size() -> nat {
    512
}

impl Machine {
    /// Memory keeps its size.
    pub open spec fn wf(&self) -> bool {
        self.memory@.len() == memory_size()
    }
}

/// A fresh machine: empty stack, zeroed memory, reading from the start at counter zero.
pub open spec fn initial_state() -> MachineView {
    MachineView {
        stack: Seq::empty(),
        memory: Seq::new(memory_size(), |i: int| 0u8),
        pos: 0,
        pc: 0,
    }
}

pub open spec fn with_stack(m: MachineView, stack: Seq<Word>) -> MachineView {
    MachineView { stack: stack, memory: m.memory, pos: m.pos, pc: m.pc }
}

/// The stack without its top `n` words.
pub open spec fn popped(m: MachineView, n: nat) -> Seq<Word> {
    m.stack.take(m.stack.len() - n)
}

/// The word `n` places below the top (`0` is the top).
pub open spec fn stack_at(m: MachineView, n: nat) -> Word {
    m.stack[m.stack.len() - 1 - n]
}

/// What `ADD`, `MUL`, `SUB`, `DIV` and `LT` compute from the top word `a` and the next word `b`.
pub open spec fn arithmetic_value(op: Opcode, a: nat, b: nat) -> nat {
    match op {
        Opcode::ADD => (a + b) % word_modulus(),
        Opcode::MUL => (a * b) % word_modulus(),
        Opcode::SUB => ((a - b) % (word_modulus() as int)) as nat,
        Opcode::DIV => a / b,
        _ => if a < b { 1 } else { 0 },
    }
}

pub open spec fn is_arithmetic(op: Opcode) -> bool {
    op == Opcode::ADD || op == Opcode::MUL || op == Opcode::SUB || op == Opcode::DIV || op
        == Opcode::LT
}

pub open spec fn spec_arithmetic(op: Opcode, m: MachineView) -> Result<(Effect, MachineView), Fault> {
    if m.stack.len() < 2 {
        Err(Fault::StackUnderflow)
    } else {
        let a = stack_at(m, 0);
        let b = stack_at(m, 1);
        if op == Opcode::DIV && b@ == 0 {
            Err(Fault::DivisionByZero)
        } else {
            let result = word_of(arithmetic_value(op, a@, b@));
            Ok((Effect::Arithmetic { a, b, result }, with_stack(m, popped(m, 2).push(result))))
        }
    }
}

pub open spec fn spec_shift_right(m: MachineView) -> Result<(Effect, MachineView), Fault> {
    if m.stack.len() < 2 {
        Err(Fault::StackUnderflow)
    } else {
        let shift = stack_at(m, 0);
        let value = stack_at(m, 1);
        if shift@ >= 0x100000000 {
            Err(Fault::WordTooLarge)
        } else if shift@ >= 264 {
            Err(Fault::ShiftTooLarge)
        } else {
            let result = word_of(shifted_right(value@, shift@));
            Ok(
                (
                    Effect::ShiftRight { shift, places: shift@ as u32, value, result },
                    with_stack(m, popped(m, 2).push(result)),
                ),
            )
        }
    }
}

/// The 32 bytes of call data from `offset`, zero past its end.
pub open spec fn calldata_window(calldata: Seq<u8>, offset: nat) -> Seq<u8> {
    Seq::new(32, |i: int| if offset + i < calldata.len() { calldata[offset + i] } else { 0u8 })
}

pub open spec fn spec_calldataload(m: MachineView, calldata: Seq<u8>) -> Result<(Effect, MachineView), Fault> {
    if m.stack.len() < 1 {
        Err(Fault::StackUnderflow)
    } else {
        let offset = stack_at(m, 0);
        if offset@ >= 0x100000000 {
            Err(Fault::WordTooLarge)
        } else if offset@ > calldata.len() {
            Err(Fault::CalldataOffsetTooLarge)
        } else {
            let data = word_of(be_value(calldata_window(calldata, offset@)));
            Ok(
                (
                    Effect::CalldataLoad { start: offset@ as usize, offset, data },
                    with_stack(m, popped(m, 1).push(data)),
                ),
            )
        }
    }
}

/// Memory after writing `data` from `address` on.
pub open spec fn written(memory: Seq<u8>, address: nat, data: Seq<u8>) -> Seq<u8> {
    Seq::new(
        memory.len(),
        |j: int| if address <= j < address + data.len() { data[j - address] } else { memory[j] },
    )
}

/// The byte address that `MSTORE` writes at, for a 32-bit address word.
pub open spec fn store_address(address: nat) -> u8 {
    ((address as u32) | 0xffu32) as u8
}

pub open spec fn spec_mstore(m: MachineView) -> Result<(Effect, MachineView), Fault> {
    if m.stack.len() < 2 {
        Err(Fault::StackUnderflow)
    } else {
        let address = stack_at(m, 0);
        let value = stack_at(m, 1);
        if address@ >= 0x100000000 {
            Err(Fault::WordTooLarge)
        } else if store_address(address@) > 224 {
            Err(Fault::MemoryAddressOverflow)
        } else {
            let a = store_address(address@);
            Ok(
                (
                    Effect::Store { address: a },
                    MachineView {
                        stack: popped(m, 2),
                        memory: written(m.memory, a as nat, be_bytes(value@)),
                        pos: m.pos,
                        pc: m.pc,
                    },
                ),
            )
        }
    }
}

pub open spec fn spec_jumpi(m: MachineView) -> Result<(Effect, MachineView), Fault> {
    if m.stack.len() < 2 {
        Err(Fault::StackUnderflow)
    } else {
        let offset = stack_at(m, 0);
        let condition = stack_at(m, 1);
        if offset@ >= 0x100000000 || condition@ >= 0x100000000 {
            Err(Fault::WordTooLarge)
        } else {
            let target = offset@ as u32;
            Ok(
                (
                    Effect::JumpI { offset, target, condition },
                    MachineView {
                        stack: popped(m, 2),
                        memory: m.memory,
                        pos: m.pos,
                        pc: if condition@ == 1 { target } else { m.pc },
                    },
                ),
            )
        }
    }
}

/// The words that a `PUSH` of `width` bytes read at `pos` pushes, one per byte.
pub open spec fn operand_words(code: Seq<u8>, pos: nat, width: nat) -> Seq<Word> {
    Seq::new(width, |k: int| word_of(code[pos + k] as nat))
}

pub open spec fn spec_push(m: MachineView, code: Seq<u8>, width: nat) -> Result<(Effect, MachineView), Fault> {
    let available = code.len() - m.pos;
    let counts_left = u32::MAX - m.pc;
    if available >= width && counts_left >= width {
        Ok(
            (
                Effect::Push { width: width as usize },
                MachineView {
                    stack: m.stack + operand_words(code, m.pos, width),
                    memory: m.memory,
                    pos: m.pos + width,
                    pc: (m.pc + width) as u32,
                },
            ),
        )
    } else if available <= counts_left {
        Err(Fault::OperandMissing)
    } else {
        Err(Fault::PcOverflow)
    }
}

pub open spec fn spec_dup1(m: MachineView) -> Result<(Effect, MachineView), Fault> {
    if m.stack.len() == 0 {
        Err(Fault::InconsistentProgram)
    } else {
        let value = stack_at(m, 0);
        Ok((Effect::Dup { value }, with_stack(m, m.stack.push(value))))
    }
}

/// What instruction `op` does to state `m`, whose read position is already past `op`.
pub open spec fn spec_execute(op: Opcode, m: MachineView, code: Seq<u8>, calldata: Seq<u8>) -> Result<(Effect, MachineView), Fault> {
    match op {
        Opcode::ADD | Opcode::MUL | Opcode::SUB | Opcode::DIV | Opcode::LT => spec_arithmetic(op, m),
        Opcode::SHR => spec_shift_right(m),
        Opcode::CALLDATALOAD => spec_calldataload(m, calldata),
        Opcode::CALLDATASIZE => {
            let len = calldata.len();
            Ok(
                (
                    Effect::CalldataSize { len: len as usize },
                    with_stack(m, m.stack.push(word_of((len as u32) as nat))),
                ),
            )
        },
        Opcode::MSTORE => spec_mstore(m),
        Opcode::JUMPI => spec_jumpi(m),
        Opcode::PUSH1 => spec_push(m, code, 1),
        Opcode::PUSH2 => spec_push(m, code, 2),
        Opcode::PUSH4 => spec_push(m, code, 4),
        Opcode::DUP1 => spec_dup1(m),
        Opcode::MSTORE8 => Err(Fault::UnknownOpcode(0x53)),
        _ => Err(Fault::NotImplemented(op)),
    }
}

/// One step: read the byte at the read position, decode it and run the instruction.
pub open spec fn spec_step(m: MachineView, code: Seq<u8>, calldata: Seq<u8>) -> StepOutcome {
    if m.pos >= code.len() {
        StepOutcome::Halted
    } else if m.pc == u32::MAX {
        StepOutcome::Faulted(Fault::PcOverflow)
    } else {
        let byte = code[m.pos as int];
        let fetched = MachineView {
            stack: m.stack,
            memory: m.memory,
            pos: m.pos + 1,
            pc: (m.pc + 1) as u32,
        };
        match decode_opcode(byte) {
            None => StepOutcome::Faulted(Fault::UndefinedOpcode(byte)),
            Some(op) => match spec_execute(op, fetched, code, calldata) {
                Ok((effect, next)) => StepOutcome::Stepped(Step { pc: m.pc, opcode: op, effect }, next),
                Err(fault) => StepOutcome::Faulted(fault),
            },
        }
    }
}

/// Whether an instruction's outcome `r`, with the machine going from `before`
/// to `after`, is the outcome `expected`; a fault changes nothing.
pub open spec fn executes_as(
    expected: Result<(Effect, MachineView), Fault>,
    r: Result<Effect, Fault>,
    before: MachineView,
    after: MachineView,
) -> bool {
    match expected {
        Ok((effect, next)) => r == Ok::<Effect, Fault>(effect) && after == next,
        Err(fault) => r == Err::<Effect, Fault>(fault) && after == before,
    }
}

/// What one read does: the byte at `pos` with the counter value it is read at,
/// and the advanced position and counter; nothing at the end of the code.
pub open spec fn next_read(code: Seq<u8>, pos: usize, pc: u32) -> (Option<(u8, u32)>, usize, u32) {
    if pos < code.len() {
        (Some((code[pos as int], pc)), (pos + 1) as usize, (pc + 1) as u32)
    } else {
        (None, pos, pc)
    }
}

/// `n` reads in a row: what each returned, and the final position and counter.
pub open spec fn reads(code: Seq<u8>, pos: usize, pc: u32, n: nat) -> (Seq<Option<(u8, u32)>>, usize, u32)
    decreases n,
{
    if n == 0 {
        (Seq::empty(), pos, pc)
    } else {
        let (first, pos1, pc1) = next_read(code, pos, pc);
        let (rest, pos2, pc2) = reads(code, pos1, pc1, (n - 1) as nat);
        (seq![first] + rest, pos2, pc2)
    }
}

/// Reads in a row return the code's bytes in order, each with the counter one
/// above the last, then nothing; position and counter advance together.
pub proof fn law_successive_reads(code: Seq<u8>, pos: usize, pc: u32, n: nat)
    requires
        pos <= code.len() <= usize::MAX,
        pc + (code.len() - pos) <= u32::MAX,
    ensures
        ({
            let (rs, last_pos, last_pc) = reads(code, pos, pc, n);
            let read = if pos + n <= code.len() { n as int } else { code.len() - pos };
            &&& rs.len() == n
            &&& forall|k: int|
                0 <= k < n ==> #[trigger] rs[k] == if pos + k < code.len() {
                    Some((code[pos + k], (pc + k) as u32))
                } else {
                    None
                }
            &&& last_pos == pos + read
            &&& last_pc == pc + read
        }),
    decreases n,
{
    if n > 0 {
        let (first, pos1, pc1) = next_read(code, pos, pc);
        law_successive_reads(code, pos1, pc1, (n - 1) as nat);
        let (rest, _, _) = reads(code, pos1, pc1, (n - 1) as nat);
        let (rs, _, _) = reads(code, pos, pc, n);
        assert(rs == seq![first] + rest);
        assert forall|k: int| 0 <= k < n implies #[trigger] rs[k] == if pos + k < code.len() {
            Some((code[pos + k], (pc + k) as u32))
        } else {
            None
        } by {
            if k > 0 {
                assert(rs[k] == rest[k - 1]);
            }
        }
    }
}

/// Reads the byte at `pos` in `code`, returning it with the counter value it was
/// read at, and advances both the position and the counter; `None` at the end.
pub fn _next(code: &[u8], pos: &mut usize, pc: &mut u32) -> (r: Option<(u8, u32)>)
    requires
        *old(pos) < code@.len() ==> *old(pc) < u32::MAX,
    ensures
        *old(pos) < code@.len() ==> {
            &&& r == Some((code@[*old(pos) as int], *old(pc)))
            &&& *final(pos) == *old(pos) + 1
            &&& *final(pc) == *old(pc) + 1
        },
        *old(pos) >= code@.len() ==> {
            &&& r is None
            &&& *final(pos) == *old(pos)
            &&& *final(pc) == *old(pc)
        },
        (r, *final(pos), *final(pc)) == next_read(code@, *old(pos), *old(pc)),
{
    if *pos < code.len() {
        let byte = code[*pos];
        *pos += 1;
        let old_pc = *pc;
        *pc += 1;
        Some((byte, old_pc))
    } else {
        None
    }
}

/// Copies the first 32 bytes of `value` into `memory` from `address` on.
pub fn write_memory(memory: &mut Vec<u8>, address: u8, value: &[u8])
    requires
        address as nat + 31 <= 255,
        address as nat + 32 <= old(memory)@.len(),
        value@.len() >= 32,
    ensures
        final(memory)@ == written(old(memory)@, address as nat, value@.take(32)),
{
    for i in 0..32u8
        invariant
            address as nat + 31 <= 255,
            address as nat + 32 <= memory@.len(),
            value@.len() >= 32,
            memory@.len() == old(memory)@.len(),
            forall|j: int|
                #![trigger memory@[j]]
                0 <= j < memory@.len() ==> memory@[j] == if address <= j < address + i {
                    value@[j - address]
                } else {
                    old(memory)@[j]
                },
    {
        memory[(address + i) as usize] = value[i as usize];
    }
    assert(memory@ =~= written(old(memory)@, address as nat, value@.take(32)));
}

impl Machine {
    /// A fresh machine: empty stack, 512 zeroed bytes of memory, counter zero.
    pub fn new() -> (m: Machine)
        ensures
            m@ == initial_state(),
            m.wf(),
    {
        let m = Machine { stack: Vec::new(), memory: vec![0u8; 512], pos: 0, pc: 0 };
        assert(m.memory@ =~= initial_state().memory);
        m
    }

    /// `ADD`, `MUL`, `SUB`, `DIV` or `LT` on the top two words.
    fn arithmetic(&mut self, op: Opcode) -> (r: Result<Effect, Fault>)
        requires
            is_arithmetic(op),
        ensures
            executes_as(spec_arithmetic(op, old(self)@), r, old(self)@, final(self)@),
    {
        let n = self.stack.len();
        if n < 2 {
            return Err(Fault::StackUnderflow);
        }
        let a = self.stack[n - 1];
        let b = self.stack[n - 2];
        let result = match op {
            Opcode::ADD => word_add(a, b),
            Opcode::MUL => word_mul(a, b),
            Opcode::SUB => word_sub(a, b),
            Opcode::DIV => {
                if b.is_zero() {
                    return Err(Fault::DivisionByZero);
                }
                word_div(a, b)
            },
            _ => if word_lt(a, b) {
                Word::from_u32(1)
            } else {
                Word::from_u32(0)
            },
        };
        proof {
            lemma_word_of_value(result);
        }
        self.stack.pop();
        self.stack.pop();
        self.stack.push(result);
        proof {
            assert(self.stack@ =~= popped(old(self)@, 2).push(result));
        }
        Ok(Effect::Arithmetic { a, b, result })
    }

    /// `SHR`: shifts the second word right by the top word.
    fn shift(&mut self) -> (r: Result<Effect, Fault>)
        ensures
            executes_as(spec_shift_right(old(self)@), r, old(self)@, final(self)@),
    {
        let n = self.stack.len();
        if n < 2 {
            return Err(Fault::StackUnderflow);
        }
        let shift = self.stack[n - 1];
        let value = self.stack[n - 2];
        if !shift.fits_u32() {
            return Err(Fault::WordTooLarge);
        }
        let places = shift.as_u32();
        if places >= 264 {
            return Err(Fault::ShiftTooLarge);
        }
        let result = shift_right(&value, places as usize);
        proof {
            lemma_word_of_value(result);
        }
        self.stack.pop();
        self.stack.pop();
        self.stack.push(result);
        proof {
            assert(self.stack@ =~= popped(old(self)@, 2).push(result));
        }
        Ok(Effect::ShiftRight { shift, places, value, result })
    }

    /// `CALLDATALOAD`: replaces the top word, an offset, by the 32 bytes of call data there.
    fn calldataload(&mut self, calldata: &[u8]) -> (r: Result<Effect, Fault>)
        ensures
            executes_as(spec_calldataload(old(self)@, calldata@), r, old(self)@, final(self)@),
    {
        let n = self.stack.len();
        if n < 1 {
            return Err(Fault::StackUnderflow);
        }
        let offset = self.stack[n - 1];
        if !offset.fits_u32() {
            return Err(Fault::WordTooLarge);
        }
        let offset_usize = offset.as_u32() as usize;
        if offset_usize > calldata.len() {
            return Err(Fault::CalldataOffsetTooLarge);
        }
        let calldata_len = calldata.len();
        let available_bytes = calldata_len - offset_usize;
        let to_read = if available_bytes < 32 {
            available_bytes
        } else {
            32
        };
        let mut data = [0u8; 32];
        for i in 0..to_read
            invariant
                to_read <= 32,
                to_read == available_bytes || to_read == 32,
                to_read <= available_bytes,
                available_bytes == calldata@.len() - offset_usize,
                offset_usize <= calldata@.len(),
                calldata_len == calldata@.len(),
                data@.len() == 32,
                forall|j: int|
                    #![trigger data@[j]]
                    0 <= j < 32 ==> data@[j] == if j < i {
                        calldata@[offset_usize + j]
                    } else {
                        0u8
                    },
        {
            assert(offset_usize + i < calldata@.len());
            data[i] = calldata[offset_usize + i];
        }
        proof {
            assert(data@ =~= calldata_window(calldata@, offset@));
        }
        let data_256 = word_from_be_bytes(&data);
        proof {
            lemma_word_of_value(data_256);
        }
        self.stack.pop();
        self.stack.push(data_256);
        proof {
            assert(self.stack@ =~= popped(old(self)@, 1).push(data_256));
        }
        Ok(Effect::CalldataLoad { start: offset_usize, offset, data: data_256 })
    }

    /// `CALLDATASIZE`: pushes the length of the call data, modulo 2^32.
    fn calldatasize(&mut self, calldata: &[u8]) -> (effect: Effect)
        ensures
            spec_execute(Opcode::CALLDATASIZE, old(self)@, Seq::empty(), calldata@)
                == Ok::<(Effect, MachineView), Fault>((effect, final(self)@)),
    {
        let len = calldata.len();
        let size = Word::from_u32(len as u32);
        proof {
            lemma_word_of_value(size);
        }
        self.stack.push(size);
        Effect::CalldataSize { len }
    }

    /// `MSTORE`: writes the second word's 32 bytes at the address that the top word gives.
    fn mstore(&mut self) -> (r: Result<Effect, Fault>)
        requires
            old(self).wf(),
        ensures
            executes_as(spec_mstore(old(self)@), r, old(self)@, final(self)@),
    {
        let n = self.stack.len();
        if n < 2 {
            return Err(Fault::StackUnderflow);
        }
        let address = self.stack[n - 1];
        let value = self.stack[n - 2];
        if !address.fits_u32() {
            return Err(Fault::WordTooLarge);
        }
        let address_byte = (address.as_u32() | 0xFF) as u8;
        if address_byte > 224 {
            return Err(Fault::MemoryAddressOverflow);
        }
        let bytes = word_to_be_bytes(&value);
        self.stack.pop();
        self.stack.pop();
        write_memory(&mut self.memory, address_byte, &bytes);
        proof {
            assert(bytes@.take(32) =~= bytes@);
            assert(self.stack@ =~= popped(old(self)@, 2));
        }
        Ok(Effect::Store { address: address_byte })
    }

    /// `JUMPI`: sets the counter to the top word when the second word is one.
    fn jumpi(&mut self) -> (r: Result<Effect, Fault>)
        ensures
            executes_as(spec_jumpi(old(self)@), r, old(self)@, final(self)@),
    {
        let n = self.stack.len();
        if n < 2 {
            return Err(Fault::StackUnderflow);
        }
        let offset = self.stack[n - 1];
        let condition = self.stack[n - 2];
        if !offset.fits_u32() || !condition.fits_u32() {
            return Err(Fault::WordTooLarge);
        }
        let target = offset.as_u32();
        self.stack.pop();
        self.stack.pop();
        if condition.as_u32() == 1u32 {
            self.pc = target;
        }
        proof {
            assert(self.stack@ =~= popped(old(self)@, 2));
        }
        Ok(Effect::JumpI { offset, target, condition })
    }

    /// `PUSH1`, `PUSH2`, `PUSH4`: reads `width` operand bytes and pushes each as a word.
    fn push_operands(&mut self, code: &[u8], width: usize) -> (r: Result<Effect, Fault>)
        requires
            old(self).pos <= code@.len(),
            1 <= width <= 4,
        ensures
            executes_as(spec_push(old(self)@, code@, width as nat), r, old(self)@, final(self)@),
    {
        let available = code.len() - self.pos;
        let counts_left = u32::MAX - self.pc;
        if !(available >= width && counts_left as usize >= width) {
            if available <= counts_left as usize {
                return Err(Fault::OperandMissing);
            } else {
                return Err(Fault::PcOverflow);
            }
        }
        let ghost start = self@;
        for k in 0..width
            invariant
                start.pos + width <= code@.len(),
                start.pc + width <= u32::MAX,
                self.pos == start.pos + k,
                self.pc == start.pc + k,
                self.memory@ == start.memory,
                self.stack@ =~= start.stack + operand_words(code@, start.pos, k as nat),
        {
            match _next(code, &mut self.pos, &mut self.pc) {
                Some((value, _value_pc)) => {
                    let operand: [u8; 1] = [value];
                    let word = word_from_be_bytes(&operand);
                    proof {
                        assert(operand@.reverse() =~= seq![value]);
                        lemma_le_value_single(seq![value]);
                        lemma_word_of_value(word);
                        assert(word == operand_words(code@, start.pos, (k + 1) as nat)[k as int]);
                    }
                    self.stack.push(word);
                },
                None => {
                    proof {
                        assert(false);
                    }
                },
            }
        }
        Ok(Effect::Push { width })
    }

    /// `DUP1`: pushes a copy of the top word.
    fn dup1(&mut self) -> (r: Result<Effect, Fault>)
        ensures
            executes_as(spec_dup1(old(self)@), r, old(self)@, final(self)@),
    {
        let n = self.stack.len();
        if n == 0 {
            return Err(Fault::InconsistentProgram);
        }
        let value = self.stack[n - 1];
        self.stack.push(value);
        Ok(Effect::Dup { value })
    }

    /// Reads, decodes and runs the next instruction of `code`. `Ok(None)` when the
    /// code is exhausted; on a fault the machine is left as it was.
    pub fn step(&mut self, code: &[u8], calldata: &[u8]) -> (r: Result<Option<Step>, Fault>)
        requires
            old(self).wf(),
        ensures
            final(self).wf(),
            match spec_step(old(self)@, code@, calldata@) {
                StepOutcome::Halted => r == Ok::<Option<Step>, Fault>(None) && final(self)@ == old(self)@,
                StepOutcome::Stepped(s, next) => r == Ok::<Option<Step>, Fault>(Some(s)) && final(self)@ == next,
                StepOutcome::Faulted(f) => r == Err::<Option<Step>, Fault>(f) && final(self)@ == old(self)@,
            },
    {
        if self.pos >= code.len() {
            return Ok(None);
        }
        if self.pc == u32::MAX {
            return Err(Fault::PcOverflow);
        }
        let saved_pos = self.pos;
        let saved_pc = self.pc;
        let (byte, byte_pc) = match _next(code, &mut self.pos, &mut self.pc) {
            Some(read) => read,
            None => {
                proof {
                    assert(false);
                }
                return Ok(None);
            },
        };
        let op = match Opcode::from_u8(byte) {
            Some(op) => op,
            None => {
                self.pos = saved_pos;
                self.pc = saved_pc;
                return Err(Fault::UndefinedOpcode(byte));
            },
        };
        let outcome = match op {
            Opcode::ADD | Opcode::MUL | Opcode::SUB | Opcode::DIV | Opcode::LT => self.arithmetic(op),
            Opcode::SHR => self.shift(),
            Opcode::CALLDATALOAD => self.calldataload(calldata),
            Opcode::CALLDATASIZE => Ok(self.calldatasize(calldata)),
            Opcode::MSTORE => self.mstore(),
            Opcode::JUMPI => self.jumpi(),
            Opcode::PUSH1 => self.push_operands(code, 1),
            Opcode::PUSH2 => self.push_operands(code, 2),
            Opcode::PUSH4 => self.push_operands(code, 4),
            Opcode::DUP1 => self.dup1(),
            Opcode::MSTORE8 => Err(Fault::UnknownOpcode(byte)),
            _ => Err(Fault::NotImplemented(op)),
        };
        match outcome {
            Ok(effect) => Ok(Some(Step { pc: byte_pc, opcode: op, effect })),
            Err(fault) => {
                self.pos = saved_pos;
                self.pc = saved_pc;
                Err(fault)
            },
        }
    }
}

/// A step that runs an instruction moves the read position forward and not past the end.
pub proof fn lemma_step_advances(m: MachineView, code: Seq<u8>, calldata: Seq<u8>)
    requires
        m.pos <= code.len(),
    ensures
        spec_step(m, code, calldata) matches StepOutcome::Stepped(_, next) ==> m.pos < next.pos
            <= code.len(),
{
}

/// Runs steps from state `m` until the code is exhausted or an instruction faults.
pub open spec fn spec_run(m: MachineView, code: Seq<u8>, calldata: Seq<u8>) -> Result<MachineView, Fault>
    decreases code.len() - m.pos,
{
    match spec_step(m, code, calldata) {
        StepOutcome::Halted => Ok(m),
        StepOutcome::Faulted(f) => Err(f),
        StepOutcome::Stepped(_, next) => if m.pos < next.pos <= code.len() {
            spec_run(next, code, calldata)
        } else {
            Ok(next)
        },
    }
}

/// The outcome of a call: its call data must hold a function selector, then the
/// code runs from a fresh machine.
pub open spec fn call_outcome(input: Seq<u8>, code: Seq<u8>) -> Result<MachineView, Fault> {
    if input.len() < 4 {
        Err(Fault::CalldataTooShort)
    } else {
        spec_run(initial_state(), code, input)
    }
}

/// Runs `code` on call data `input` from a fresh machine until the code is
/// exhausted, returning the final machine, or the fault that stopped it.
pub fn execute_call(input: &Vec<u8>, code: &[u8]) -> (r: Result<Machine, Fault>)
    ensures
        match call_outcome(input@, code@) {
            Ok(m) => r matches Ok(machine) && machine@ == m && machine.wf(),
            Err(f) => r == Err::<Machine, Fault>(f),
        },
{
    if input.len() < 4 {
        return Err(Fault::CalldataTooShort);
    }
    let calldata = input.as_slice();
    let mut machine = Machine::new();
    loop
        invariant
            machine.wf(),
            machine.pos <= code@.len(),
            calldata@ == input@,
            input@.len() >= 4,
            spec_run(machine@, code@, calldata@) == call_outcome(input@, code@),
        decreases code@.len() - machine.pos,
    {
        proof {
            lemma_step_advances(machine@, code@, calldata@);
        }
        match machine.step(code, calldata) {
            Ok(None) => return Ok(machine),
            Ok(Some(_)) => {},
            Err(fault) => return Err(fault),
        }
    }
}

/// How many words an instruction takes off the stack.
pub open spec fn stack_pops(op: Opcode) -> nat {
    match op {
        Opcode::ADD | Opcode::MUL | Opcode::SUB | Opcode::DIV | Opcode::LT | Opcode::SHR
        | Opcode::MSTORE | Opcode::JUMPI => 2,
        Opcode::CALLDATALOAD => 1,
        _ => 0,
    }
}

/// How many words an instruction puts on the stack.
pub open spec fn stack_pushes(op: Opcode) -> nat {
    match op {
        Opcode::ADD | Opcode::MUL | Opcode::SUB | Opcode::DIV | Opcode::LT | Opcode::SHR
        | Opcode::CALLDATALOAD | Opcode::CALLDATASIZE | Opcode::PUSH1 | Opcode::DUP1 => 1,
        Opcode::PUSH2 => 2,
        Opcode::PUSH4 => 4,
        _ => 0,
    }
}

/// How many operand bytes follow an instruction in the code.
pub open spec fn operand_width(op: Opcode) -> nat {
    match op {
        Opcode::PUSH1 => 1,
        Opcode::PUSH2 => 2,
        Opcode::PUSH4 => 4,
        _ => 0,
    }
}

/// An instruction that runs takes its fixed number of words off the top of the
/// stack, puts its fixed number on, and leaves the words below untouched.
pub proof fn law_stack_effect(m: MachineView, code: Seq<u8>, calldata: Seq<u8>)
    ensures
        spec_step(m, code, calldata) matches StepOutcome::Stepped(s, next) ==> {
            let kept = m.stack.len() - stack_pops(s.opcode);
            &&& kept >= 0
            &&& next.stack.len() == kept + stack_pushes(s.opcode)
            &&& next.stack.take(kept) == m.stack.take(kept)
        },
{
    match spec_step(m, code, calldata) {
        StepOutcome::Stepped(s, next) => {
            let kept = m.stack.len() - stack_pops(s.opcode);
            assert(next.stack.take(kept) =~= m.stack.take(kept));
        },
        _ => {},
    }
}

/// An instruction that runs moves the read position past itself and its
/// operands; the counter follows it, except where `JUMPI` sets it.
pub proof fn law_position_and_counter(m: MachineView, code: Seq<u8>, calldata: Seq<u8>)
    ensures
        spec_step(m, code, calldata) matches StepOutcome::Stepped(s, next) ==> {
            &&& s.pc == m.pc
            &&& next.pos == m.pos + 1 + operand_width(s.opcode)
            &&& s.opcode != Opcode::JUMPI ==> next.pc == m.pc + 1 + operand_width(s.opcode)
            &&& s.opcode == Opcode::JUMPI ==> (s.effect matches Effect::JumpI { target, condition, .. }
                && next.pc == if condition@ == 1 { target as int } else { m.pc + 1 })
        },
{
}

/// Only `MSTORE` changes memory, and nothing changes its size.
pub proof fn law_memory_effect(m: MachineView, code: Seq<u8>, calldata: Seq<u8>)
    ensures
        spec_step(m, code, calldata) matches StepOutcome::Stepped(s, next) ==> {
            &&& next.memory.len() == m.memory.len()
            &&& s.opcode != Opcode::MSTORE ==> next.memory == m.memory
        },
{
}

/// Every 32-bit address word names byte 255 for `MSTORE`, whose 32 bytes do not
/// fit below 256: a store that gets past its operand checks always faults.
pub proof fn law_mstore_always_overflows(m: MachineView)
    requires
        m.stack.len() >= 2,
        stack_at(m, 0)@ < 0x100000000,
    ensures
        spec_mstore(m) == Err::<(Effect, MachineView), Fault>(Fault::MemoryAddressOverflow),
{
    let a = stack_at(m, 0)@ as u32;
    assert(((a | 0xffu32) as u8) == 255u8) by (bit_vector);
}

/// Reading back after a write gives the bytes written, and every other byte as before.
pub proof fn law_read_after_write(memory: Seq<u8>, address: nat, data: Seq<u8>, j: int)
    requires
        0 <= j < memory.len(),
    ensures
        written(memory, address, data).len() == memory.len(),
        address <= j < address + data.len() ==> written(memory, address, data)[j] == data[j - address],
        !(address <= j < address + data.len()) ==> written(memory, address, data)[j] == memory[j],
{
}

/// A run that ends without a fault has read the whole code, and memory keeps its size.
pub proof fn law_run_reads_all_code(m: MachineView, code: Seq<u8>, calldata: Seq<u8>)
    requires
        m.pos <= code.len(),
    ensures
        spec_run(m, code, calldata) matches Ok(last) ==> last.pos == code.len() && last.memory.len()
            == m.memory.len(),
    decreases code.len() - m.pos,
{
    lemma_step_advances(m, code, calldata);
    law_memory_effect(m, code, calldata);
    match spec_step(m, code, calldata) {
        StepOutcome::Stepped(_, next) => {
            law_run_reads_all_code(next, code, calldata);
        },
        _ => {},
    }
}

/// Memory cut into rows of 32 bytes.
pub fn memory_rows(memory: &Vec<u8>) -> (rows: Vec<Vec<u8>>)
    requires
        memory@.len() % 32 == 0,
    ensures
        rows@.len() == memory@.len() / 32,
        forall|i: int|
            0 <= i < rows@.len() ==> #[trigger] rows@[i]@ == memory@.subrange(32 * i, 32 * i + 32),
{
    let len = memory.len();
    let count = len / 32;
    let mut rows: Vec<Vec<u8>> = Vec::new();
    for k in 0..count
        invariant
            len == memory@.len(),
            count == memory@.len() / 32,
            memory@.len() % 32 == 0,
            rows@.len() == k,
            forall|i: int|
                0 <= i < k ==> #[trigger] rows@[i]@ == memory@.subrange(32 * i, 32 * i + 32),
    {
        assert(32 * k + 32 <= len) by (nonlinear_arith)
            requires
                k < count,
                count == len / 32,
        ;
        let start: usize = 32 * k;
        let mut row: Vec<u8> = Vec::new();
        for j in start..start + 32
            invariant
                start + 32 <= len,
                len == memory@.len(),
                row@ == memory@.subrange(start as int, j as int),
        {
            row.push(memory[j]);
            assert(row@ =~= memory@.subrange(start as int, j + 1));
        }
        rows.push(row);
    }
    rows
}

} // verus!
