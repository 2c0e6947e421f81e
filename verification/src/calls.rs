//! Picking out the contract calls among a block's transactions.

use vstd::prelude::*;

verus! {

/// The parts of a transaction that the interpreter needs.
pub struct Transaction {
    /// The recipient's 20-byte address; `None` for a contract creation.
    pub to: Option<[u8; 20]>,
    /// The call data.
    pub input: Vec<u8>,
    /// The transaction's 32-byte hash.
    pub hash: [u8; 32],
}

/// A transaction that calls a contract with call data.
pub struct ContractCall {
    pub to: [u8; 20],
    pub input: Vec<u8>,
    pub hash: [u8; 32],
}

impl View for ContractCall {
    type V = ([u8; 20], Seq<u8>, [u8; 32]);

    open spec fn view(&self) -> ([u8; 20], Seq<u8>, [u8; 32]) {
        (self.to, self.input@, self.hash)
    }
}

/// A transaction calls a contract when it has a recipient and non-empty call data.
pub open spec fn is_contract_call(t: Transaction) -> bool {
    t.to is Some && t.input@.len() > 0
}

/// The contract calls among `txs`, in order.
pub open spec fn contract_calls_of(txs: Seq<Transaction>) -> Seq<([u8; 20], Seq<u8>, [u8; 32])>
    decreases txs.len(),
{
    if txs.len() == 0 {
        Seq::empty()
    } else {
        let t = txs.last();
        let before = contract_calls_of(txs.drop_last());
        if is_contract_call(t) {
            before.push((t.to->Some_0, t.input@, t.hash))
        } else {
            before
        }
    }
}

/// Keeps the transactions that call a contract with call data, in their order.
pub fn contract_calls(transactions: &Vec<Transaction>) -> (calls: Vec<ContractCall>)
    ensures
        calls@.map_values(|c: ContractCall| c@) == contract_calls_of(transactions@),
{
    let mut calls: Vec<ContractCall> = Vec::new();
    for i in 0..transactions.len()
        invariant
            calls@.map_values(|c: ContractCall| c@) == contract_calls_of(transactions@.take(i as int)),
    {
        proof {
            assert(transactions@.take(i + 1).drop_last() =~= transactions@.take(i as int));
        }
        let t = &transactions[i];
        match t.to {
            Some(to) => {
                if t.input.len() > 0 {
                    let input = t.input.clone();
                    proof {
                        assert(input@ =~= t.input@);
                    }
                    calls.push(ContractCall { to, input, hash: t.hash });
                }
            },
            None => {},
        }
        proof {
            assert(calls@.map_values(|c: ContractCall| c@) =~= contract_calls_of(transactions@.take(i + 1)));
        }
    }
    proof {
        assert(transactions@.take(transactions@.len() as int) =~= transactions@);
    }
    calls
}

} // verus!
