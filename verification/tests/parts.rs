use evm_interp::{_next, contract_calls, memory_rows, split_calldata, write_memory, Opcode, Transaction};

#[test]
fn next_reads_a_byte_and_advances_position_and_counter() {
    let code = [0x60u8, 0x2a];
    let mut pos = 0usize;
    let mut pc = 7u32;
    assert_eq!(_next(&code, &mut pos, &mut pc), Some((0x60, 7)));
    assert_eq!((pos, pc), (1, 8));
    assert_eq!(_next(&code, &mut pos, &mut pc), Some((0x2a, 8)));
    assert_eq!(_next(&code, &mut pos, &mut pc), None);
    assert_eq!((pos, pc), (2, 9));
}

#[test]
fn write_memory_copies_32_bytes_at_the_address() {
    let mut memory = vec![0xeeu8; 512];
    let value: Vec<u8> = (1..=40).collect();
    write_memory(&mut memory, 100, &value);
    assert_eq!(&memory[100..132], &value[..32]);
    assert_eq!(memory[99], 0xee);
    assert_eq!(memory[132], 0xee);
    assert!(memory[..100].iter().all(|b| *b == 0xee));
}

#[test]
fn write_memory_at_the_last_address_that_fits() {
    let mut memory = vec![0u8; 512];
    write_memory(&mut memory, 224, &[9u8; 32]);
    assert_eq!(&memory[224..256], &[9u8; 32]);
    assert_eq!(memory[256], 0);
}

#[test]
fn split_calldata_cuts_selector_and_words() {
    let mut calldata = vec![0x38, 0xed, 0x17, 0x39];
    calldata.extend((0..70).map(|i| i as u8));
    let layout = split_calldata(&calldata);
    assert_eq!(layout.selector, 0x38ed1739);
    assert_eq!(layout.words.len(), 3);
    assert_eq!(layout.words[0], (0..32).collect::<Vec<u8>>());
    assert_eq!(layout.words[1], (32..64).collect::<Vec<u8>>());
    assert_eq!(layout.words[2], (64..70).collect::<Vec<u8>>());
    assert_eq!(layout.words.concat(), calldata[4..].to_vec());
}

#[test]
fn split_calldata_of_a_bare_selector() {
    let layout = split_calldata(&vec![0, 0, 1, 2]);
    assert_eq!(layout.selector, 0x102);
    assert!(layout.words.is_empty());
}

#[test]
fn split_calldata_of_whole_words() {
    let calldata = vec![0xffu8; 4 + 64];
    let layout = split_calldata(&calldata);
    assert_eq!(layout.selector, 0xffff_ffff);
    assert_eq!(layout.words, vec![vec![0xffu8; 32], vec![0xffu8; 32]]);
}

#[test]
fn opcodes_decode_and_encode() {
    assert_eq!(Opcode::from_u8(0x01), Some(Opcode::ADD));
    assert_eq!(Opcode::from_u8(0x1c), Some(Opcode::SHR));
    assert_eq!(Opcode::from_u8(0x57), Some(Opcode::JUMPI));
    assert_eq!(Opcode::from_u8(0x63), Some(Opcode::PUSH4));
    assert_eq!(Opcode::from_u8(0x7f), Some(Opcode::PUSH32));
    assert_eq!(Opcode::from_u8(0xff), Some(Opcode::SELFDESTRUCT));
    assert_eq!(Opcode::from_u8(0x0c), None);
    assert_eq!(Opcode::from_u8(0xf6), None);
    for b in 0..=255u8 {
        if let Some(op) = Opcode::from_u8(b) {
            assert_eq!(op.to_u8(), b);
        }
    }
}

#[test]
fn contract_calls_keep_calls_with_a_recipient_and_call_data() {
    let txs = vec![
        Transaction { to: Some([1u8; 20]), input: vec![0x38, 0xed, 0x17, 0x39], hash: [0xa1; 32] },
        Transaction { to: None, input: vec![0x60, 0x80], hash: [0xa2; 32] },
        Transaction { to: Some([2u8; 20]), input: vec![], hash: [0xa3; 32] },
        Transaction { to: Some([3u8; 20]), input: vec![0xaa], hash: [0xa4; 32] },
    ];
    let calls = contract_calls(&txs);
    assert_eq!(calls.len(), 2);
    assert_eq!((calls[0].to, calls[0].input.clone(), calls[0].hash), ([1u8; 20], vec![0x38, 0xed, 0x17, 0x39], [0xa1; 32]));
    assert_eq!((calls[1].to, calls[1].input.clone(), calls[1].hash), ([3u8; 20], vec![0xaa], [0xa4; 32]));
    assert!(contract_calls(&vec![]).is_empty());
}

#[test]
fn memory_rows_cut_32_bytes_each() {
    let memory: Vec<u8> = (0..64u8).collect();
    let rows = memory_rows(&memory);
    assert_eq!(rows, vec![(0..32u8).collect::<Vec<u8>>(), (32..64u8).collect::<Vec<u8>>()]);
    assert_eq!(memory_rows(&vec![0u8; 512]).len(), 16);
    assert!(memory_rows(&vec![]).is_empty());
}

#[test]
fn successive_reads_return_the_code_in_order() {
    let code = [5u8, 6, 7];
    let mut pos = 0usize;
    let mut pc = 100u32;
    let mut got = Vec::new();
    for _ in 0..5 {
        got.push(_next(&code, &mut pos, &mut pc));
    }
    assert_eq!(got, vec![Some((5, 100)), Some((6, 101)), Some((7, 102)), None, None]);
    assert_eq!((pos, pc), (3, 103));
}
