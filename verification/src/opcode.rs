//! The instruction set: every byte value that names an instruction, and the
//! instruction it names.

use vstd::prelude::*;

verus! {

/// An instruction of the machine, named as in the Ethereum yellow paper.
#[allow(non_camel_case_types)]
#[derive(Clone, Copy, Debug, PartialEq, Eq)]
pub enum Opcode {
    STOP,
    ADD,
    MUL,
    SUB,
    DIV,
    SDIV,
    MOD,
    SMOD,
    ADDMOD,
    MULMOD,
    EXP,
    SIGNEXTEND,
    LT,
    GT,
    SLT,
    SGT,
    EQ,
    ISZERO,
    AND,
    OR,
    XOR,
    NOT,
    BYTE,
    SHL,
    SHR,
    SAR,
    KECCAK256,
    ADDRESS,
    BALANCE,
    ORIGIN,
    CALLER,
    CALLVALUE,
    CALLDATALOAD,
    CALLDATASIZE,
    CALLDATACOPY,
    CODESIZE,
    CODECOPY,
    GASPRICE,
    EXTCODESIZE,
    EXTCODECOPY,
    RETURNDATASIZE,
    RETURNDATACOPY,
    EXTCODEHASH,
    BLOCKHASH,
    COINBASE,
    TIMESTAMP,
    NUMBER,
    PREVRANDAO,
    GASLIMIT,
    CHAINID,
    SELFBALANCE,
    BASEFEE,
    BLOBHASH,
    BLOBBASEFEE,
    POP,
    MLOAD,
    MSTORE,
    MSTORE8,
    SLOAD,
    SSTORE,
    JUMP,
    JUMPI,
    PC,
    MSIZE,
    GAS,
    JUMPDEST,
    TLOAD,
    TSTORE,
    MCOPY,
    PUSH0,
    PUSH1,
    PUSH2,
    PUSH3,
    PUSH4,
    PUSH5,
    PUSH6,
    PUSH7,
    PUSH8,
    PUSH9,
    PUSH10,
    PUSH11,
    PUSH12,
    PUSH13,
    PUSH14,
    PUSH15,
    PUSH16,
    PUSH17,
    PUSH18,
    PUSH19,
    PUSH20,
    PUSH21,
    PUSH22,
    PUSH23,
    PUSH24,
    PUSH25,
    PUSH26,
    PUSH27,
    PUSH28,
    PUSH29,
    PUSH30,
    PUSH31,
    PUSH32,
    DUP1,
    DUP2,
    DUP3,
    DUP4,
    DUP5,
    DUP6,
    DUP7,
    DUP8,
    DUP9,
    DUP10,
    DUP11,
    DUP12,
    DUP13,
    DUP14,
    DUP15,
    DUP16,
    SWAP1,
    SWAP2,
    SWAP3,
    SWAP4,
    SWAP5,
    SWAP6,
    SWAP7,
    SWAP8,
    SWAP9,
    SWAP10,
    SWAP11,
    SWAP12,
    SWAP13,
    SWAP14,
    SWAP15,
    SWAP16,
    LOG0,
    LOG1,
    LOG2,
    LOG3,
    LOG4,
    CREATE,
    CALL,
    CALLCODE,
    RETURN,
    DELEGATECALL,
    CREATE2,
    STATICCALL,
    REVERT,
    INVALID,
    SELFDESTRUCT,
}

/// The byte that encodes each instruction.
pub open spec fn opcode_byte(op: Opcode) -> u8 {
    match op {
        Opcode::STOP => 0x00,
        Opcode::ADD => 0x01,
        Opcode::MUL => 0x02,
        Opcode::SUB => 0x03,
        Opcode::DIV => 0x04,
        Opcode::SDIV => 0x05,
        Opcode::MOD => 0x06,
        Opcode::SMOD => 0x07,
        Opcode::ADDMOD => 0x08,
        Opcode::MULMOD => 0x09,
        Opcode::EXP => 0x0a,
        Opcode::SIGNEXTEND => 0x0b,
        Opcode::LT => 0x10,
        Opcode::GT => 0x11,
        Opcode::SLT => 0x12,
        Opcode::SGT => 0x13,
        Opcode::EQ => 0x14,
        Opcode::ISZERO => 0x15,
        Opcode::AND => 0x16,
        Opcode::OR => 0x17,
        Opcode::XOR => 0x18,
        Opcode::NOT => 0x19,
        Opcode::BYTE => 0x1a,
        Opcode::SHL => 0x1b,
        Opcode::SHR => 0x1c,
        Opcode::SAR => 0x1d,
        Opcode::KECCAK256 => 0x20,
        Opcode::ADDRESS => 0x30,
        Opcode::BALANCE => 0x31,
        Opcode::ORIGIN => 0x32,
        Opcode::CALLER => 0x33,
        Opcode::CALLVALUE => 0x34,
        Opcode::CALLDATALOAD => 0x35,
        Opcode::CALLDATASIZE => 0x36,
        Opcode::CALLDATACOPY => 0x37,
        Opcode::CODESIZE => 0x38,
        Opcode::CODECOPY => 0x39,
        Opcode::GASPRICE => 0x3a,
        Opcode::EXTCODESIZE => 0x3b,
        Opcode::EXTCODECOPY => 0x3c,
        Opcode::RETURNDATASIZE => 0x3d,
        Opcode::RETURNDATACOPY => 0x3e,
        Opcode::EXTCODEHASH => 0x3f,
        Opcode::BLOCKHASH => 0x40,
        Opcode::COINBASE => 0x41,
        Opcode::TIMESTAMP => 0x42,
        Opcode::NUMBER => 0x43,
        Opcode::PREVRANDAO => 0x44,
        Opcode::GASLIMIT => 0x45,
        Opcode::CHAINID => 0x46,
        Opcode::SELFBALANCE => 0x47,
        Opcode::BASEFEE => 0x48,
        Opcode::BLOBHASH => 0x49,
        Opcode::BLOBBASEFEE => 0x4a,
        Opcode::POP => 0x50,
        Opcode::MLOAD => 0x51,
        Opcode::MSTORE => 0x52,
        Opcode::MSTORE8 => 0x53,
        Opcode::SLOAD => 0x54,
        Opcode::SSTORE => 0x55,
        Opcode::JUMP => 0x56,
        Opcode::JUMPI => 0x57,
        Opcode::PC => 0x58,
        Opcode::MSIZE => 0x59,
        Opcode::GAS => 0x5a,
        Opcode::JUMPDEST => 0x5b,
        Opcode::TLOAD => 0x5c,
        Opcode::TSTORE => 0x5d,
        Opcode::MCOPY => 0x5e,
        Opcode::PUSH0 => 0x5f,
        Opcode::PUSH1 => 0x60,
        Opcode::PUSH2 => 0x61,
        Opcode::PUSH3 => 0x62,
        Opcode::PUSH4 => 0x63,
        Opcode::PUSH5 => 0x64,
        Opcode::PUSH6 => 0x65,
        Opcode::PUSH7 => 0x66,
        Opcode::PUSH8 => 0x67,
        Opcode::PUSH9 => 0x68,
        Opcode::PUSH10 => 0x69,
        Opcode::PUSH11 => 0x6a,
        Opcode::PUSH12 => 0x6b,
        Opcode::PUSH13 => 0x6c,
        Opcode::PUSH14 => 0x6d,
        Opcode::PUSH15 => 0x6e,
        Opcode::PUSH16 => 0x6f,
        Opcode::PUSH17 => 0x70,
        Opcode::PUSH18 => 0x71,
        Opcode::PUSH19 => 0x72,
        Opcode::PUSH20 => 0x73,
        Opcode::PUSH21 => 0x74,
        Opcode::PUSH22 => 0x75,
        Opcode::PUSH23 => 0x76,
        Opcode::PUSH24 => 0x77,
        Opcode::PUSH25 => 0x78,
        Opcode::PUSH26 => 0x79,
        Opcode::PUSH27 => 0x7a,
        Opcode::PUSH28 => 0x7b,
        Opcode::PUSH29 => 0x7c,
        Opcode::PUSH30 => 0x7d,
        Opcode::PUSH31 => 0x7e,
        Opcode::PUSH32 => 0x7f,
        Opcode::DUP1 => 0x80,
        Opcode::DUP2 => 0x81,
        Opcode::DUP3 => 0x82,
        Opcode::DUP4 => 0x83,
        Opcode::DUP5 => 0x84,
        Opcode::DUP6 => 0x85,
        Opcode::DUP7 => 0x86,
        Opcode::DUP8 => 0x87,
        Opcode::DUP9 => 0x88,
        Opcode::DUP10 => 0x89,
        Opcode::DUP11 => 0x8a,
        Opcode::DUP12 => 0x8b,
        Opcode::DUP13 => 0x8c,
        Opcode::DUP14 => 0x8d,
        Opcode::DUP15 => 0x8e,
        Opcode::DUP16 => 0x8f,
        Opcode::SWAP1 => 0x90,
        Opcode::SWAP2 => 0x91,
        Opcode::SWAP3 => 0x92,
        Opcode::SWAP4 => 0x93,
        Opcode::SWAP5 => 0x94,
        Opcode::SWAP6 => 0x95,
        Opcode::SWAP7 => 0x96,
        Opcode::SWAP8 => 0x97,
        Opcode::SWAP9 => 0x98,
        Opcode::SWAP10 => 0x99,
        Opcode::SWAP11 => 0x9a,
        Opcode::SWAP12 => 0x9b,
        Opcode::SWAP13 => 0x9c,
        Opcode::SWAP14 => 0x9d,
        Opcode::SWAP15 => 0x9e,
        Opcode::SWAP16 => 0x9f,
        Opcode::LOG0 => 0xa0,
        Opcode::LOG1 => 0xa1,
        Opcode::LOG2 => 0xa2,
        Opcode::LOG3 => 0xa3,
        Opcode::LOG4 => 0xa4,
        Opcode::CREATE => 0xf0,
        Opcode::CALL => 0xf1,
        Opcode::CALLCODE => 0xf2,
        Opcode::RETURN => 0xf3,
        Opcode::DELEGATECALL => 0xf4,
        Opcode::CREATE2 => 0xf5,
        Opcode::STATICCALL => 0xfa,
        Opcode::REVERT => 0xfd,
        Opcode::INVALID => 0xfe,
        Opcode::SELFDESTRUCT => 0xff,
    }
}

/// The instruction that byte `b` encodes, if any.
pub open spec fn decode_opcode(b: u8) -> Option<Opcode> {
    match b {
        0x00 => Some(Opcode::STOP),
        0x01 => Some(Opcode::ADD),
        0x02 => Some(Opcode::MUL),
        0x03 => Some(Opcode::SUB),
        0x04 => Some(Opcode::DIV),
        0x05 => Some(Opcode::SDIV),
        0x06 => Some(Opcode::MOD),
        0x07 => Some(Opcode::SMOD),
        0x08 => Some(Opcode::ADDMOD),
        0x09 => Some(Opcode::MULMOD),
        0x0a => Some(Opcode::EXP),
        0x0b => Some(Opcode::SIGNEXTEND),
        0x10 => Some(Opcode::LT),
        0x11 => Some(Opcode::GT),
        0x12 => Some(Opcode::SLT),
        0x13 => Some(Opcode::SGT),
        0x14 => Some(Opcode::EQ),
        0x15 => Some(Opcode::ISZERO),
        0x16 => Some(Opcode::AND),
        0x17 => Some(Opcode::OR),
        0x18 => Some(Opcode::XOR),
        0x19 => Some(Opcode::NOT),
        0x1a => Some(Opcode::BYTE),
        0x1b => Some(Opcode::SHL),
        0x1c => Some(Opcode::SHR),
        0x1d => Some(Opcode::SAR),
        0x20 => Some(Opcode::KECCAK256),
        0x30 => Some(Opcode::ADDRESS),
        0x31 => Some(Opcode::BALANCE),
        0x32 => Some(Opcode::ORIGIN),
        0x33 => Some(Opcode::CALLER),
        0x34 => Some(Opcode::CALLVALUE),
        0x35 => Some(Opcode::CALLDATALOAD),
        0x36 => Some(Opcode::CALLDATASIZE),
        0x37 => Some(Opcode::CALLDATACOPY),
        0x38 => Some(Opcode::CODESIZE),
        0x39 => Some(Opcode::CODECOPY),
        0x3a => Some(Opcode::GASPRICE),
        0x3b => Some(Opcode::EXTCODESIZE),
        0x3c => Some(Opcode::EXTCODECOPY),
        0x3d => Some(Opcode::RETURNDATASIZE),
        0x3e => Some(Opcode::RETURNDATACOPY),
        0x3f => Some(Opcode::EXTCODEHASH),
        0x40 => Some(Opcode::BLOCKHASH),
        0x41 => Some(Opcode::COINBASE),
        0x42 => Some(Opcode::TIMESTAMP),
        0x43 => Some(Opcode::NUMBER),
        0x44 => Some(Opcode::PREVRANDAO),
        0x45 => Some(Opcode::GASLIMIT),
        0x46 => Some(Opcode::CHAINID),
        0x47 => Some(Opcode::SELFBALANCE),
        0x48 => Some(Opcode::BASEFEE),
        0x49 => Some(Opcode::BLOBHASH),
        0x4a => Some(Opcode::BLOBBASEFEE),
        0x50 => Some(Opcode::POP),
        0x51 => Some(Opcode::MLOAD),
        0x52 => Some(Opcode::MSTORE),
        0x53 => Some(Opcode::MSTORE8),
        0x54 => Some(Opcode::SLOAD),
        0x55 => Some(Opcode::SSTORE),
        0x56 => Some(Opcode::JUMP),
        0x57 => Some(Opcode::JUMPI),
        0x58 => Some(Opcode::PC),
        0x59 => Some(Opcode::MSIZE),
        0x5a => Some(Opcode::GAS),
        0x5b => Some(Opcode::JUMPDEST),
        0x5c => Some(Opcode::TLOAD),
        0x5d => Some(Opcode::TSTORE),
        0x5e => Some(Opcode::MCOPY),
        0x5f => Some(Opcode::PUSH0),
        0x60 => Some(Opcode::PUSH1),
        0x61 => Some(Opcode::PUSH2),
        0x62 => Some(Opcode::PUSH3),
        0x63 => Some(Opcode::PUSH4),
        0x64 => Some(Opcode::PUSH5),
        0x65 => Some(Opcode::PUSH6),
        0x66 => Some(Opcode::PUSH7),
        0x67 => Some(Opcode::PUSH8),
        0x68 => Some(Opcode::PUSH9),
        0x69 => Some(Opcode::PUSH10),
        0x6a => Some(Opcode::PUSH11),
        0x6b => Some(Opcode::PUSH12),
        0x6c => Some(Opcode::PUSH13),
        0x6d => Some(Opcode::PUSH14),
        0x6e => Some(Opcode::PUSH15),
        0x6f => Some(Opcode::PUSH16),
        0x70 => Some(Opcode::PUSH17),
        0x71 => Some(Opcode::PUSH18),
        0x72 => Some(Opcode::PUSH19),
        0x73 => Some(Opcode::PUSH20),
        0x74 => Some(Opcode::PUSH21),
        0x75 => Some(Opcode::PUSH22),
        0x76 => Some(Opcode::PUSH23),
        0x77 => Some(Opcode::PUSH24),
        0x78 => Some(Opcode::PUSH25),
        0x79 => Some(Opcode::PUSH26),
        0x7a => Some(Opcode::PUSH27),
        0x7b => Some(Opcode::PUSH28),
        0x7c => Some(Opcode::PUSH29),
        0x7d => Some(Opcode::PUSH30),
        0x7e => Some(Opcode::PUSH31),
        0x7f => Some(Opcode::PUSH32),
        0x80 => Some(Opcode::DUP1),
        0x81 => Some(Opcode::DUP2),
        0x82 => Some(Opcode::DUP3),
        0x83 => Some(Opcode::DUP4),
        0x84 => Some(Opcode::DUP5),
        0x85 => Some(Opcode::DUP6),
        0x86 => Some(Opcode::DUP7),
        0x87 => Some(Opcode::DUP8),
        0x88 => Some(Opcode::DUP9),
        0x89 => Some(Opcode::DUP10),
        0x8a => Some(Opcode::DUP11),
        0x8b => Some(Opcode::DUP12),
        0x8c => Some(Opcode::DUP13),
        0x8d => Some(Opcode::DUP14),
        0x8e => Some(Opcode::DUP15),
        0x8f => Some(Opcode::DUP16),
        0x90 => Some(Opcode::SWAP1),
        0x91 => Some(Opcode::SWAP2),
        0x92 => Some(Opcode::SWAP3),
        0x93 => Some(Opcode::SWAP4),
        0x94 => Some(Opcode::SWAP5),
        0x95 => Some(Opcode::SWAP6),
        0x96 => Some(Opcode::SWAP7),
        0x97 => Some(Opcode::SWAP8),
        0x98 => Some(Opcode::SWAP9),
        0x99 => Some(Opcode::SWAP10),
        0x9a => Some(Opcode::SWAP11),
        0x9b => Some(Opcode::SWAP12),
        0x9c => Some(Opcode::SWAP13),
        0x9d => Some(Opcode::SWAP14),
        0x9e => Some(Opcode::SWAP15),
        0x9f => Some(Opcode::SWAP16),
        0xa0 => Some(Opcode::LOG0),
        0xa1 => Some(Opcode::LOG1),
        0xa2 => Some(Opcode::LOG2),
        0xa3 => Some(Opcode::LOG3),
        0xa4 => Some(Opcode::LOG4),
        0xf0 => Some(Opcode::CREATE),
        0xf1 => Some(Opcode::CALL),
        0xf2 => Some(Opcode::CALLCODE),
        0xf3 => Some(Opcode::RETURN),
        0xf4 => Some(Opcode::DELEGATECALL),
        0xf5 => Some(Opcode::CREATE2),
        0xfa => Some(Opcode::STATICCALL),
        0xfd => Some(Opcode::REVERT),
        0xfe => Some(Opcode::INVALID),
        0xff => Some(Opcode::SELFDESTRUCT),
        _ => None,
    }
}

impl Opcode {
    /// The instruction that `byte` encodes, or `None` for a byte that encodes none.
    pub fn from_u8(byte: u8) -> (r: Option<Opcode>)
        ensures
            r == decode_opcode(byte),
    {
        match byte {
            0x00 => Some(Opcode::STOP),
            0x01 => Some(Opcode::ADD),
            0x02 => Some(Opcode::MUL),
            0x03 => Some(Opcode::SUB),
            0x04 => Some(Opcode::DIV),
            0x05 => Some(Opcode::SDIV),
            0x06 => Some(Opcode::MOD),
            0x07 => Some(Opcode::SMOD),
            0x08 => Some(Opcode::ADDMOD),
            0x09 => Some(Opcode::MULMOD),
            0x0a => Some(Opcode::EXP),
            0x0b => Some(Opcode::SIGNEXTEND),
            0x10 => Some(Opcode::LT),
            0x11 => Some(Opcode::GT),
            0x12 => Some(Opcode::SLT),
            0x13 => Some(Opcode::SGT),
            0x14 => Some(Opcode::EQ),
            0x15 => Some(Opcode::ISZERO),
            0x16 => Some(Opcode::AND),
            0x17 => Some(Opcode::OR),
            0x18 => Some(Opcode::XOR),
            0x19 => Some(Opcode::NOT),
            0x1a => Some(Opcode::BYTE),
            0x1b => Some(Opcode::SHL),
            0x1c => Some(Opcode::SHR),
            0x1d => Some(Opcode::SAR),
            0x20 => Some(Opcode::KECCAK256),
            0x30 => Some(Opcode::ADDRESS),
            0x31 => Some(Opcode::BALANCE),
            0x32 => Some(Opcode::ORIGIN),
            0x33 => Some(Opcode::CALLER),
            0x34 => Some(Opcode::CALLVALUE),
            0x35 => Some(Opcode::CALLDATALOAD),
            0x36 => Some(Opcode::CALLDATASIZE),
            0x37 => Some(Opcode::CALLDATACOPY),
            0x38 => Some(Opcode::CODESIZE),
            0x39 => Some(Opcode::CODECOPY),
            0x3a => Some(Opcode::GASPRICE),
            0x3b => Some(Opcode::EXTCODESIZE),
            0x3c => Some(Opcode::EXTCODECOPY),
            0x3d => Some(Opcode::RETURNDATASIZE),
            0x3e => Some(Opcode::RETURNDATACOPY),
            0x3f => Some(Opcode::EXTCODEHASH),
            0x40 => Some(Opcode::BLOCKHASH),
            0x41 => Some(Opcode::COINBASE),
            0x42 => Some(Opcode::TIMESTAMP),
            0x43 => Some(Opcode::NUMBER),
            0x44 => Some(Opcode::PREVRANDAO),
            0x45 => Some(Opcode::GASLIMIT),
            0x46 => Some(Opcode::CHAINID),
            0x47 => Some(Opcode::SELFBALANCE),
            0x48 => Some(Opcode::BASEFEE),
            0x49 => Some(Opcode::BLOBHASH),
            0x4a => Some(Opcode::BLOBBASEFEE),
            0x50 => Some(Opcode::POP),
            0x51 => Some(Opcode::MLOAD),
            0x52 => Some(Opcode::MSTORE),
            0x53 => Some(Opcode::MSTORE8),
            0x54 => Some(Opcode::SLOAD),
            0x55 => Some(Opcode::SSTORE),
            0x56 => Some(Opcode::JUMP),
            0x57 => Some(Opcode::JUMPI),
            0x58 => Some(Opcode::PC),
            0x59 => Some(Opcode::MSIZE),
            0x5a => Some(Opcode::GAS),
            0x5b => Some(Opcode::JUMPDEST),
            0x5c => Some(Opcode::TLOAD),
            0x5d => Some(Opcode::TSTORE),
            0x5e => Some(Opcode::MCOPY),
            0x5f => Some(Opcode::PUSH0),
            0x60 => Some(Opcode::PUSH1),
            0x61 => Some(Opcode::PUSH2),
            0x62 => Some(Opcode::PUSH3),
            0x63 => Some(Opcode::PUSH4),
            0x64 => Some(Opcode::PUSH5),
            0x65 => Some(Opcode::PUSH6),
            0x66 => Some(Opcode::PUSH7),
            0x67 => Some(Opcode::PUSH8),
            0x68 => Some(Opcode::PUSH9),
            0x69 => Some(Opcode::PUSH10),
            0x6a => Some(Opcode::PUSH11),
            0x6b => Some(Opcode::PUSH12),
            0x6c => Some(Opcode::PUSH13),
            0x6d => Some(Opcode::PUSH14),
            0x6e => Some(Opcode::PUSH15),
            0x6f => Some(Opcode::PUSH16),
            0x70 => Some(Opcode::PUSH17),
            0x71 => Some(Opcode::PUSH18),
            0x72 => Some(Opcode::PUSH19),
            0x73 => Some(Opcode::PUSH20),
            0x74 => Some(Opcode::PUSH21),
            0x75 => Some(Opcode::PUSH22),
            0x76 => Some(Opcode::PUSH23),
            0x77 => Some(Opcode::PUSH24),
            0x78 => Some(Opcode::PUSH25),
            0x79 => Some(Opcode::PUSH26),
            0x7a => Some(Opcode::PUSH27),
            0x7b => Some(Opcode::PUSH28),
            0x7c => Some(Opcode::PUSH29),
            0x7d => Some(Opcode::PUSH30),
            0x7e => Some(Opcode::PUSH31),
            0x7f => Some(Opcode::PUSH32),
            0x80 => Some(Opcode::DUP1),
            0x81 => Some(Opcode::DUP2),
            0x82 => Some(Opcode::DUP3),
            0x83 => Some(Opcode::DUP4),
            0x84 => Some(Opcode::DUP5),
            0x85 => Some(Opcode::DUP6),
            0x86 => Some(Opcode::DUP7),
            0x87 => Some(Opcode::DUP8),
            0x88 => Some(Opcode::DUP9),
            0x89 => Some(Opcode::DUP10),
            0x8a => Some(Opcode::DUP11),
            0x8b => Some(Opcode::DUP12),
            0x8c => Some(Opcode::DUP13),
            0x8d => Some(Opcode::DUP14),
            0x8e => Some(Opcode::DUP15),
            0x8f => Some(Opcode::DUP16),
            0x90 => Some(Opcode::SWAP1),
            0x91 => Some(Opcode::SWAP2),
            0x92 => Some(Opcode::SWAP3),
            0x93 => Some(Opcode::SWAP4),
            0x94 => Some(Opcode::SWAP5),
            0x95 => Some(Opcode::SWAP6),
            0x96 => Some(Opcode::SWAP7),
            0x97 => Some(Opcode::SWAP8),
            0x98 => Some(Opcode::SWAP9),
            0x99 => Some(Opcode::SWAP10),
            0x9a => Some(Opcode::SWAP11),
            0x9b => Some(Opcode::SWAP12),
            0x9c => Some(Opcode::SWAP13),
            0x9d => Some(Opcode::SWAP14),
            0x9e => Some(Opcode::SWAP15),
            0x9f => Some(Opcode::SWAP16),
            0xa0 => Some(Opcode::LOG0),
            0xa1 => Some(Opcode::LOG1),
            0xa2 => Some(Opcode::LOG2),
            0xa3 => Some(Opcode::LOG3),
            0xa4 => Some(Opcode::LOG4),
            0xf0 => Some(Opcode::CREATE),
            0xf1 => Some(Opcode::CALL),
            0xf2 => Some(Opcode::CALLCODE),
            0xf3 => Some(Opcode::RETURN),
            0xf4 => Some(Opcode::DELEGATECALL),
            0xf5 => Some(Opcode::CREATE2),
            0xfa => Some(Opcode::STATICCALL),
            0xfd => Some(Opcode::REVERT),
            0xfe => Some(Opcode::INVALID),
            0xff => Some(Opcode::SELFDESTRUCT),
            _ => None,
        }
    }

    /// The byte that encodes the instruction.
    pub fn to_u8(&self) -> (r: u8)
        ensures
            r == opcode_byte(*self),
    {
        match self {
            Opcode::STOP => 0x00,
            Opcode::ADD => 0x01,
            Opcode::MUL => 0x02,
            Opcode::SUB => 0x03,
            Opcode::DIV => 0x04,
            Opcode::SDIV => 0x05,
            Opcode::MOD => 0x06,
            Opcode::SMOD => 0x07,
            Opcode::ADDMOD => 0x08,
            Opcode::MULMOD => 0x09,
            Opcode::EXP => 0x0a,
            Opcode::SIGNEXTEND => 0x0b,
            Opcode::LT => 0x10,
            Opcode::GT => 0x11,
            Opcode::SLT => 0x12,
            Opcode::SGT => 0x13,
            Opcode::EQ => 0x14,
            Opcode::ISZERO => 0x15,
            Opcode::AND => 0x16,
            Opcode::OR => 0x17,
            Opcode::XOR => 0x18,
            Opcode::NOT => 0x19,
            Opcode::BYTE => 0x1a,
            Opcode::SHL => 0x1b,
            Opcode::SHR => 0x1c,
            Opcode::SAR => 0x1d,
            Opcode::KECCAK256 => 0x20,
            Opcode::ADDRESS => 0x30,
            Opcode::BALANCE => 0x31,
            Opcode::ORIGIN => 0x32,
            Opcode::CALLER => 0x33,
            Opcode::CALLVALUE => 0x34,
            Opcode::CALLDATALOAD => 0x35,
            Opcode::CALLDATASIZE => 0x36,
            Opcode::CALLDATACOPY => 0x37,
            Opcode::CODESIZE => 0x38,
            Opcode::CODECOPY => 0x39,
            Opcode::GASPRICE => 0x3a,
            Opcode::EXTCODESIZE => 0x3b,
            Opcode::EXTCODECOPY => 0x3c,
            Opcode::RETURNDATASIZE => 0x3d,
            Opcode::RETURNDATACOPY => 0x3e,
            Opcode::EXTCODEHASH => 0x3f,
            Opcode::BLOCKHASH => 0x40,
            Opcode::COINBASE => 0x41,
            Opcode::TIMESTAMP => 0x42,
            Opcode::NUMBER => 0x43,
            Opcode::PREVRANDAO => 0x44,
            Opcode::GASLIMIT => 0x45,
            Opcode::CHAINID => 0x46,
            Opcode::SELFBALANCE => 0x47,
            Opcode::BASEFEE => 0x48,
            Opcode::BLOBHASH => 0x49,
            Opcode::BLOBBASEFEE => 0x4a,
            Opcode::POP => 0x50,
            Opcode::MLOAD => 0x51,
            Opcode::MSTORE => 0x52,
            Opcode::MSTORE8 => 0x53,
            Opcode::SLOAD => 0x54,
            Opcode::SSTORE => 0x55,
            Opcode::JUMP => 0x56,
            Opcode::JUMPI => 0x57,
            Opcode::PC => 0x58,
            Opcode::MSIZE => 0x59,
            Opcode::GAS => 0x5a,
            Opcode::JUMPDEST => 0x5b,
            Opcode::TLOAD => 0x5c,
            Opcode::TSTORE => 0x5d,
            Opcode::MCOPY => 0x5e,
            Opcode::PUSH0 => 0x5f,
            Opcode::PUSH1 => 0x60,
            Opcode::PUSH2 => 0x61,
            Opcode::PUSH3 => 0x62,
            Opcode::PUSH4 => 0x63,
            Opcode::PUSH5 => 0x64,
            Opcode::PUSH6 => 0x65,
            Opcode::PUSH7 => 0x66,
            Opcode::PUSH8 => 0x67,
            Opcode::PUSH9 => 0x68,
            Opcode::PUSH10 => 0x69,
            Opcode::PUSH11 => 0x6a,
            Opcode::PUSH12 => 0x6b,
            Opcode::PUSH13 => 0x6c,
            Opcode::PUSH14 => 0x6d,
            Opcode::PUSH15 => 0x6e,
            Opcode::PUSH16 => 0x6f,
            Opcode::PUSH17 => 0x70,
            Opcode::PUSH18 => 0x71,
            Opcode::PUSH19 => 0x72,
            Opcode::PUSH20 => 0x73,
            Opcode::PUSH21 => 0x74,
            Opcode::PUSH22 => 0x75,
            Opcode::PUSH23 => 0x76,
            Opcode::PUSH24 => 0x77,
            Opcode::PUSH25 => 0x78,
            Opcode::PUSH26 => 0x79,
            Opcode::PUSH27 => 0x7a,
            Opcode::PUSH28 => 0x7b,
            Opcode::PUSH29 => 0x7c,
            Opcode::PUSH30 => 0x7d,
            Opcode::PUSH31 => 0x7e,
            Opcode::PUSH32 => 0x7f,
            Opcode::DUP1 => 0x80,
            Opcode::DUP2 => 0x81,
            Opcode::DUP3 => 0x82,
            Opcode::DUP4 => 0x83,
            Opcode::DUP5 => 0x84,
            Opcode::DUP6 => 0x85,
            Opcode::DUP7 => 0x86,
            Opcode::DUP8 => 0x87,
            Opcode::DUP9 => 0x88,
            Opcode::DUP10 => 0x89,
            Opcode::DUP11 => 0x8a,
            Opcode::DUP12 => 0x8b,
            Opcode::DUP13 => 0x8c,
            Opcode::DUP14 => 0x8d,
            Opcode::DUP15 => 0x8e,
            Opcode::DUP16 => 0x8f,
            Opcode::SWAP1 => 0x90,
            Opcode::SWAP2 => 0x91,
            Opcode::SWAP3 => 0x92,
            Opcode::SWAP4 => 0x93,
            Opcode::SWAP5 => 0x94,
            Opcode::SWAP6 => 0x95,
            Opcode::SWAP7 => 0x96,
            Opcode::SWAP8 => 0x97,
            Opcode::SWAP9 => 0x98,
            Opcode::SWAP10 => 0x99,
            Opcode::SWAP11 => 0x9a,
            Opcode::SWAP12 => 0x9b,
            Opcode::SWAP13 => 0x9c,
            Opcode::SWAP14 => 0x9d,
            Opcode::SWAP15 => 0x9e,
            Opcode::SWAP16 => 0x9f,
            Opcode::LOG0 => 0xa0,
            Opcode::LOG1 => 0xa1,
            Opcode::LOG2 => 0xa2,
            Opcode::LOG3 => 0xa3,
            Opcode::LOG4 => 0xa4,
            Opcode::CREATE => 0xf0,
            Opcode::CALL => 0xf1,
            Opcode::CALLCODE => 0xf2,
            Opcode::RETURN => 0xf3,
            Opcode::DELEGATECALL => 0xf4,
            Opcode::CREATE2 => 0xf5,
            Opcode::STATICCALL => 0xfa,
            Opcode::REVERT => 0xfd,
            Opcode::INVALID => 0xfe,
            Opcode::SELFDESTRUCT => 0xff,
        }
    }
}

/// Decoding a byte and encoding the instruction gives the byte back.
pub proof fn lemma_decode_then_encode(b: u8)
    ensures
        decode_opcode(b) matches Some(op) ==> opcode_byte(op) == b,
{
}

/// Encoding an instruction and decoding the byte gives the instruction back.
pub proof fn lemma_encode_then_decode(op: Opcode)
    ensures
        decode_opcode(opcode_byte(op)) == Some(op),
{
}

} // verus!
