# evm_interp

A small interpreter for EVM bytecode, verified with Verus.

- `src/bytes.rs` — byte sequences read as little- and big-endian numbers.
- `src/word.rs` — 256-bit words as four 64-bit limbs; the arithmetic on them is
  done by `ethers`' `U256`, behind a handful of trusted wrappers.
- `src/shift.rs` — `shift_right` and `shift_left`, which shift a word's 32
  big-endian bytes by a number of bits, with laws on how shifts compose.
- `src/opcode.rs` — the instruction set and its byte encoding.
- `src/machine.rs` — the machine (stack, 512 bytes of memory, read position,
  instruction counter), the specification of one step, `Machine::step`, and
  `execute_call`, which runs a whole call.
- `src/calldata.rs` — the function selector and 32-byte argument words of call data.
- `src/calls.rs` — picking the contract calls out of a block's transactions.
- `src/json.rs` — the JSON texts in which contract code and blocks are cached,
  read and written by `serde_json` on `ethers`' types behind trusted wrappers.
- `app/main.rs` — fetches a block and contract code over JSON-RPC (cached on
  disk as JSON text), and prints the trace of one call, instruction by instruction.
