use evm_interp::{execute_call, Effect, Fault, Machine, Opcode, Word};

const SELECTOR: [u8; 4] = [0x38, 0xed, 0x17, 0x39];

fn small(x: u64) -> Word {
    Word { limbs: [x, 0, 0, 0] }
}

fn run(code: &[u8]) -> Result<Machine, Fault> {
    execute_call(&SELECTOR.to_vec(), code)
}

fn final_stack(code: &[u8]) -> Vec<Word> {
    run(code).expect("the program runs to the end").stack
}

#[test]
fn add_pushes_the_sum() {
    assert_eq!(final_stack(&[0x60, 0x02, 0x60, 0x03, 0x01]), vec![small(5)]);
}

#[test]
fn add_wraps_around() {
    // 0 - 1 is the largest word; adding 2 wraps to 1
    let stack = final_stack(&[0x60, 0x01, 0x60, 0x00, 0x03, 0x60, 0x02, 0x01]);
    assert_eq!(stack, vec![small(1)]);
}

#[test]
fn sub_takes_the_second_word_from_the_top_word() {
    assert_eq!(final_stack(&[0x60, 0x02, 0x60, 0x05, 0x03]), vec![small(3)]);
    let wrapped = Word { limbs: [u64::MAX - 2, u64::MAX, u64::MAX, u64::MAX] };
    assert_eq!(final_stack(&[0x60, 0x05, 0x60, 0x02, 0x03]), vec![wrapped]);
}

#[test]
fn mul_multiplies() {
    assert_eq!(final_stack(&[0x60, 0x04, 0x60, 0x03, 0x02]), vec![small(12)]);
}

#[test]
fn mul_wraps_around() {
    // (2^256 - 1) * 2 = 2^256 - 2 modulo 2^256
    let stack = final_stack(&[0x60, 0x01, 0x60, 0x00, 0x03, 0x60, 0x02, 0x02]);
    assert_eq!(stack, vec![Word { limbs: [u64::MAX - 1, u64::MAX, u64::MAX, u64::MAX] }]);
}

#[test]
fn div_divides_the_top_word_by_the_second() {
    assert_eq!(final_stack(&[0x60, 0x02, 0x60, 0x07, 0x04]), vec![small(3)]);
}

#[test]
fn div_by_zero_faults() {
    assert_eq!(run(&[0x60, 0x00, 0x60, 0x07, 0x04]).err(), Some(Fault::DivisionByZero));
}

#[test]
fn lt_compares_the_top_word_with_the_second() {
    assert_eq!(final_stack(&[0x60, 0x02, 0x60, 0x01, 0x10]), vec![small(1)]);
    assert_eq!(final_stack(&[0x60, 0x01, 0x60, 0x02, 0x10]), vec![small(0)]);
    assert_eq!(final_stack(&[0x60, 0x02, 0x60, 0x02, 0x10]), vec![small(0)]);
}

#[test]
fn shr_shifts_the_second_word_by_the_top_word() {
    assert_eq!(final_stack(&[0x60, 0x01, 0x60, 0x08, 0x1c]), vec![small(0x100)]);
}

#[test]
fn shr_by_more_than_263_places_faults() {
    // shift = 0xff + 0xff = 510
    let code = [0x60, 0x01, 0x60, 0xff, 0x60, 0xff, 0x01, 0x1c];
    assert_eq!(run(&code).err(), Some(Fault::ShiftTooLarge));
}

#[test]
fn a_word_above_32_bits_as_an_offset_faults() {
    // 0 - 1, then CALLDATALOAD at that offset
    assert_eq!(run(&[0x60, 0x01, 0x60, 0x00, 0x03, 0x35]).err(), Some(Fault::WordTooLarge));
}

#[test]
fn calldataload_reads_32_bytes_padded_with_zeros() {
    let input = vec![0xaa, 0xbb, 0xcc, 0xdd, 0x01, 0x02, 0x03];
    let machine = execute_call(&input, &[0x60, 0x04, 0x35]).unwrap();
    assert_eq!(machine.stack, vec![Word { limbs: [0, 0, 0, 0x0102_0300_0000_0000] }]);
    let at_end = execute_call(&input, &[0x60, 0x07, 0x35]).unwrap();
    assert_eq!(at_end.stack, vec![small(0)]);
    let from_start = execute_call(&input, &[0x60, 0x00, 0x35]).unwrap();
    assert_eq!(from_start.stack, vec![Word { limbs: [0, 0, 0, 0xaabb_ccdd_0102_0300] }]);
}

#[test]
fn calldataload_past_the_end_faults() {
    let input = vec![0xaa, 0xbb, 0xcc, 0xdd, 0x01, 0x02, 0x03];
    assert_eq!(execute_call(&input, &[0x60, 0x08, 0x35]).err(), Some(Fault::CalldataOffsetTooLarge));
}

#[test]
fn calldatasize_pushes_the_length() {
    let input = vec![1u8; 68];
    assert_eq!(execute_call(&input, &[0x36]).unwrap().stack, vec![small(68)]);
}

#[test]
fn jumpi_sets_the_counter_but_not_the_read_position() {
    let code = [0x60, 0x01, 0x60, 0x42, 0x57, 0x36];
    let input = SELECTOR.to_vec();
    let mut machine = Machine::new();
    for _ in 0..2 {
        machine.step(&code, &input).unwrap();
    }
    let jump = machine.step(&code, &input).unwrap().unwrap();
    assert_eq!(jump.opcode, Opcode::JUMPI);
    assert_eq!(jump.pc, 4);
    assert_eq!(jump.effect, Effect::JumpI { offset: small(0x42), target: 0x42, condition: small(1) });
    assert_eq!(machine.pc, 0x42);
    assert_eq!(machine.pos, 5);
    let next = machine.step(&code, &input).unwrap().unwrap();
    assert_eq!(next.pc, 0x42);
    assert_eq!(next.opcode, Opcode::CALLDATASIZE);
    assert_eq!(machine.pc, 0x43);
    assert_eq!(machine.pos, 6);
    assert!(machine.step(&code, &input).unwrap().is_none());
}

#[test]
fn jumpi_with_a_condition_other_than_one_keeps_the_counter() {
    let code = [0x60, 0x02, 0x60, 0x42, 0x57];
    let machine = run(&code).unwrap();
    assert_eq!(machine.pc, 5);
    assert!(machine.stack.is_empty());
}

#[test]
fn mstore_always_overflows_its_byte_address() {
    assert_eq!(run(&[0x60, 0x01, 0x60, 0x00, 0x52]).err(), Some(Fault::MemoryAddressOverflow));
    assert_eq!(run(&[0x60, 0x01, 0x60, 0x20, 0x52]).err(), Some(Fault::MemoryAddressOverflow));
}

#[test]
fn push2_pushes_each_operand_byte_as_a_word() {
    assert_eq!(final_stack(&[0x61, 0xab, 0xcd]), vec![small(0xab), small(0xcd)]);
}

#[test]
fn push4_pushes_four_words() {
    assert_eq!(final_stack(&[0x63, 1, 2, 3, 4]), vec![small(1), small(2), small(3), small(4)]);
}

#[test]
fn push_past_the_end_of_the_code_faults() {
    assert_eq!(run(&[0x63, 1, 2]).err(), Some(Fault::OperandMissing));
    assert_eq!(run(&[0x60]).err(), Some(Fault::OperandMissing));
}

#[test]
fn dup1_copies_the_top_word() {
    assert_eq!(final_stack(&[0x60, 0x07, 0x80]), vec![small(7), small(7)]);
}

#[test]
fn dup1_on_an_empty_stack_faults() {
    assert_eq!(run(&[0x80]).err(), Some(Fault::InconsistentProgram));
}

#[test]
fn unimplemented_instructions_fault() {
    assert_eq!(run(&[0x00]).err(), Some(Fault::NotImplemented(Opcode::STOP)));
    assert_eq!(run(&[0x60, 0x01, 0x60, 0x01, 0x14]).err(), Some(Fault::NotImplemented(Opcode::EQ)));
}

#[test]
fn bytes_without_an_instruction_fault() {
    assert_eq!(run(&[0x0c]).err(), Some(Fault::UndefinedOpcode(0x0c)));
    assert_eq!(run(&[0xef]).err(), Some(Fault::UndefinedOpcode(0xef)));
}

#[test]
fn mstore8_is_not_dispatched() {
    assert_eq!(run(&[0x53]).err(), Some(Fault::UnknownOpcode(0x53)));
}

#[test]
fn popping_an_empty_stack_faults() {
    assert_eq!(run(&[0x01]).err(), Some(Fault::StackUnderflow));
    assert_eq!(run(&[0x60, 0x01, 0x57]).err(), Some(Fault::StackUnderflow));
}

#[test]
fn short_call_data_faults_before_any_instruction() {
    assert_eq!(execute_call(&vec![1, 2, 3], &[0x36]).err(), Some(Fault::CalldataTooShort));
}

#[test]
fn empty_code_halts_at_once() {
    let machine = run(&[]).unwrap();
    assert_eq!(machine.pos, 0);
    assert_eq!(machine.pc, 0);
    assert!(machine.stack.is_empty());
    assert_eq!(machine.memory, vec![0u8; 512]);
}

#[test]
fn the_counter_cannot_pass_its_maximum() {
    let code = [0x36];
    let input = SELECTOR.to_vec();
    let mut machine = Machine::new();
    machine.pc = u32::MAX;
    assert_eq!(machine.step(&code, &input).err(), Some(Fault::PcOverflow));
    assert_eq!(machine.pc, u32::MAX);
    assert_eq!(machine.pos, 0);

    let mut pushing = Machine::new();
    pushing.pc = u32::MAX - 1;
    assert_eq!(pushing.step(&[0x61, 1, 2], &input).err(), Some(Fault::PcOverflow));
}

#[test]
fn a_fault_leaves_the_machine_as_it_was() {
    let code = [0x60, 0x05, 0x01];
    let input = SELECTOR.to_vec();
    let mut machine = Machine::new();
    machine.step(&code, &input).unwrap();
    let stack = machine.stack.clone();
    let (pos, pc) = (machine.pos, machine.pc);
    assert_eq!(machine.step(&code, &input).err(), Some(Fault::StackUnderflow));
    assert_eq!(machine.stack, stack);
    assert_eq!((machine.pos, machine.pc), (pos, pc));
}

#[test]
fn a_finished_run_has_read_all_the_code() {
    let code = [0x60, 0x02, 0x61, 0x03, 0x04, 0x01, 0x80, 0x36];
    let machine = run(&code).unwrap();
    assert_eq!(machine.pos, code.len());
    assert_eq!(machine.pc as usize, code.len());
    assert_eq!(machine.memory.len(), 512);
}

#[test]
fn each_step_reports_what_it_did() {
    let code = [0x60, 0x02, 0x60, 0x03, 0x01, 0x36];
    let input = SELECTOR.to_vec();
    let mut machine = Machine::new();
    let first = machine.step(&code, &input).unwrap().unwrap();
    assert_eq!((first.pc, first.opcode, first.effect), (0, Opcode::PUSH1, Effect::Push { width: 1 }));
    machine.step(&code, &input).unwrap();
    let add = machine.step(&code, &input).unwrap().unwrap();
    assert_eq!(add.pc, 4);
    assert_eq!(add.effect, Effect::Arithmetic { a: small(3), b: small(2), result: small(5) });
    let size = machine.step(&code, &input).unwrap().unwrap();
    assert_eq!(size.effect, Effect::CalldataSize { len: 4 });
    assert_eq!(machine.stack, vec![small(5), small(4)]);
}

#[test]
fn stack_depth_changes_by_the_instruction_s_fixed_amounts() {
    let input = SELECTOR.to_vec();
    let code = [0x60, 0x09, 0x60, 0x08, 0x60, 0x07, 0x01];
    let mut machine = Machine::new();
    for _ in 0..3 {
        machine.step(&code, &input).unwrap();
    }
    assert_eq!(machine.stack.len(), 3);
    machine.step(&code, &input).unwrap();
    assert_eq!(machine.stack, vec![small(9), small(15)]);
}
