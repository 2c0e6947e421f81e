//! An interpreter for a subset of EVM bytecode: 256-bit words and their byte
//! encodings, the byte-wise shifts, opcode decoding, and a machine that executes
//! one instruction at a time over a code buffer and call data.

pub mod bytes;
pub mod word;
pub mod shift;
pub mod opcode;
pub mod machine;
pub mod instruction_laws;
pub mod calldata;
pub mod calls;
pub mod json;

pub use calldata::{split_calldata, CalldataLayout};
pub use calls::{contract_calls, ContractCall, Transaction};
pub use json::{code_from_json, code_to_json, transactions_from_block_json};
pub use machine::{_next, execute_call, memory_rows, write_memory, Effect, Fault, Machine, Step};
pub use opcode::Opcode;
pub use shift::{shift_left, shift_right};
pub use word::Word;
