//! The JSON texts in which contract code and blocks are kept: code as a JSON
//! string of `0x`-prefixed hex, blocks as JSON-RPC block objects. Parsing and
//! printing JSON is done by `serde_json` on `ethers`' types.

use vstd::prelude::*;
use ethers::types::{Block, Bytes};
use crate::calls::Transaction;

verus! {

/// The code that a JSON text holds, if it holds a JSON string of hex digits.
pub uninterp spec fn code_json_bytes(text: Seq<char>) -> Option<Seq<u8>>;

/// The transactions of the block that a JSON text holds, each as its recipient,
/// call data and hash, if the text holds a block.
pub uninterp spec fn block_json_transactions(text: Seq<char>) -> Option<Seq<(Option<Seq<u8>>, Seq<u8>, Seq<u8>)>>;

/// The lower-case hex digit for `d < 16`.
pub open spec fn hex_digit(d: nat) -> char {
    (if d < 10 { 48 + d } else { 87 + d }) as char
}

/// Two lower-case hex digits per byte, most significant first.
pub open spec fn hex_lower(bytes: Seq<u8>) -> Seq<char>
    decreases bytes.len(),
{
    if bytes.len() == 0 {
        Seq::empty()
    } else {
        seq![hex_digit(bytes[0] as nat / 16), hex_digit(bytes[0] as nat % 16)] + hex_lower(bytes.drop_first())
    }
}

/// The JSON text of some code: a string holding `0x` and its hex digits.
pub open spec fn code_json_text(code: Seq<u8>) -> Seq<char> {
    seq!['"', '0', 'x'] + hex_lower(code) + seq!['"']
}

/// A transaction as recipient, call data and hash.
pub open spec fn transaction_parts(t: Transaction) -> (Option<Seq<u8>>, Seq<u8>, Seq<u8>) {
    (
        match t.to {
            Some(to) => Some(to@),
            None => None,
        },
        t.input@,
        t.hash@,
    )
}

/// Parses `text` as `ethers`' `Bytes` with `serde_json::from_str`; `None` where that fails.
#[verifier::external_body]
fn parse_code_json(text: &str) -> (r: Option<Vec<u8>>)
    ensures
        match r {
            Some(code) => code_json_bytes(text@) == Some(code@),
            None => code_json_bytes(text@) is None,
        },
{
    serde_json::from_str::<Bytes>(text).ok().map(|code| code.to_vec())
}

/// Prints `code` as `ethers`' `Bytes` with `serde_json::to_string`, which writes
/// `"0x"` and lower-case hex in a JSON string (and cannot fail for a string);
/// that text parses back to the same code.
#[verifier::external_body]
fn print_code_json(code: &[u8]) -> (r: String)
    ensures
        r@ == code_json_text(code@),
        code_json_bytes(r@) == Some(code@),
{
    match serde_json::to_string(&Bytes::from(code.to_vec())) {
        Ok(text) => text,
        Err(_) => String::new(),
    }
}

/// Parses `text` as `ethers`' `Block<Transaction>` with `serde_json::from_str`,
/// keeping each transaction's recipient, call data and hash; `None` where that fails.
#[verifier::external_body]
fn parse_block_json(text: &str) -> (r: Option<Vec<Transaction>>)
    ensures
        match r {
            Some(txs) => block_json_transactions(text@) == Some(
                txs@.map_values(|t: Transaction| transaction_parts(t)),
            ),
            None => block_json_transactions(text@) is None,
        },
{
    serde_json::from_str::<Block<ethers::types::Transaction>>(text).ok().map(|block| {
        block.transactions.iter().map(|tx| Transaction {
            to: tx.to.map(|to| to.0),
            input: tx.input.to_vec(),
            hash: tx.hash.0,
        }).collect()
    })
}

/// The code held in a JSON text, or `None` if the text holds none.
pub fn code_from_json(text: &str) -> (r: Option<Vec<u8>>)
    ensures
        match r {
            Some(code) => code_json_bytes(text@) == Some(code@),
            None => code_json_bytes(text@) is None,
        },
{
    parse_code_json(text)
}

/// The JSON text in which code is kept.
pub fn code_to_json(code: &[u8]) -> (r: String)
    ensures
        r@ == code_json_text(code@),
        code_json_bytes(r@) == Some(code@),
{
    print_code_json(code)
}

/// The transactions of the block held in a JSON text, or `None` if the text holds none.
pub fn transactions_from_block_json(text: &str) -> (r: Option<Vec<Transaction>>)
    ensures
        match r {
            Some(txs) => block_json_transactions(text@) == Some(
                txs@.map_values(|t: Transaction| transaction_parts(t)),
            ),
            None => block_json_transactions(text@) is None,
        },
{
    parse_block_json(text)
}

} // verus!
