//! The layout of call data: a four-byte function selector followed by the
//! arguments in 32-byte words.

use vstd::prelude::*;
use crate::bytes::{be_value, le_value};

verus! {

/// Call data cut into its function selector and its argument words.
pub struct CalldataLayout {
    /// The first four bytes, read big-endian.
    pub selector: u32,
    /// The bytes after the selector in runs of 32; the last run may be shorter.
    pub words: Vec<Vec<u8>>,
}

/// How many argument words `len` bytes of call data hold, a short last one included.
pub open spec fn argument_word_count(len: nat) -> nat {
    ((len - 4) + 31) as nat / 32
}

/// The `i`-th argument word of the call data.
pub open spec fn argument_word(calldata: Seq<u8>, i: int) -> Seq<u8> {
    let start = 4 + 32 * i;
    let end = if start + 32 <= calldata.len() { start + 32 } else { calldata.len() as int };
    calldata.subrange(start, end)
}

/// Cuts call data into its selector and its argument words.
pub fn split_calldata(calldata: &Vec<u8>) -> (r: CalldataLayout)
    requires
        calldata@.len() >= 4,
    ensures
        r.selector as nat == be_value(calldata@.take(4)),
        r.words@.len() == argument_word_count(calldata@.len()),
        forall|i: int| 0 <= i < r.words@.len() ==> #[trigger] r.words@[i]@ == argument_word(calldata@, i),
{
    let selector: u32 = (calldata[0] as u32) * 0x100_0000 + (calldata[1] as u32) * 0x1_0000
        + (calldata[2] as u32) * 0x100 + (calldata[3] as u32);
    proof {
        let s = calldata@;
        assert(s.take(4).reverse() =~= seq![s[3], s[2], s[1], s[0]]);
        reveal_with_fuel(le_value, 5);
        assert(seq![s[3], s[2], s[1], s[0]].drop_first() =~= seq![s[2], s[1], s[0]]);
        assert(seq![s[2], s[1], s[0]].drop_first() =~= seq![s[1], s[0]]);
        assert(seq![s[1], s[0]].drop_first() =~= seq![s[0]]);
        assert(seq![s[0]].drop_first() =~= Seq::<u8>::empty());
    }
    let len = calldata.len();
    let rest: usize = len - 4;
    let count: usize = rest / 32 + if rest % 32 == 0 {
        0
    } else {
        1
    };
    assert(count == (rest + 31) / 32) by (nonlinear_arith)
        requires
            count == rest / 32 + if rest % 32 == 0 { 0int } else { 1int },
    ;
    let mut words: Vec<Vec<u8>> = Vec::new();
    for k in 0..count
        invariant
            len == calldata@.len(),
            len >= 4,
            count == argument_word_count(len as nat),
            words@.len() == k,
            forall|i: int| 0 <= i < k ==> #[trigger] words@[i]@ == argument_word(calldata@, i),
    {
        assert(4 + 32 * k < len) by (nonlinear_arith)
            requires
                k < count,
                count == (len - 4 + 31) / 32,
                len >= 4,
        ;
        let start: usize = 4 + 32 * k;
        let end: usize = if len - start >= 32 {
            start + 32
        } else {
            len
        };
        let mut word: Vec<u8> = Vec::new();
        for j in start..end
            invariant
                start <= end <= len,
                len == calldata@.len(),
                word@ == calldata@.subrange(start as int, j as int),
        {
            word.push(calldata[j]);
            assert(word@ =~= calldata@.subrange(start as int, j + 1));
        }
        assert(word@ =~= argument_word(calldata@, k as int));
        words.push(word);
    }
    CalldataLayout { selector, words }
}

/// The first `n` argument words of the call data, one after another.
pub open spec fn joined_words(calldata: Seq<u8>, n: nat) -> Seq<u8>
    decreases n,
{
    if n == 0 {
        Seq::empty()
    } else {
        joined_words(calldata, (n - 1) as nat) + argument_word(calldata, n - 1)
    }
}

proof fn lemma_joined_prefix(calldata: Seq<u8>, n: nat)
    requires
        calldata.len() >= 4,
        n <= argument_word_count(calldata.len()),
    ensures
        joined_words(calldata, n) == calldata.subrange(
            4,
            if 4 + 32 * n <= calldata.len() { (4 + 32 * n) as int } else { calldata.len() as int },
        ),
    decreases n,
{
    if n == 0 {
        assert(calldata.subrange(4, 4) =~= Seq::<u8>::empty());
    } else {
        lemma_joined_prefix(calldata, (n - 1) as nat);
        assert(4 + 32 * (n - 1) < calldata.len()) by (nonlinear_arith)
            requires
                n <= ((calldata.len() - 4) + 31) as nat / 32,
                n >= 1,
                calldata.len() >= 4,
        ;
        let end = if 4 + 32 * n <= calldata.len() { (4 + 32 * n) as int } else { calldata.len() as int };
        assert(joined_words(calldata, n) =~= calldata.subrange(4, end));
    }
}

/// The argument words, one after another, are the call data after the selector.
pub proof fn law_argument_words_cover(calldata: Seq<u8>)
    requires
        calldata.len() >= 4,
    ensures
        joined_words(calldata, argument_word_count(calldata.len())) == calldata.skip(4),
{
    let n = argument_word_count(calldata.len());
    lemma_joined_prefix(calldata, n);
    assert(4 + 32 * n >= calldata.len()) by (nonlinear_arith)
        requires
            n == ((calldata.len() - 4) + 31) as nat / 32,
            calldata.len() >= 4,
    ;
    assert(calldata.subrange(4, calldata.len() as int) =~= calldata.skip(4));
}

} // verus!
