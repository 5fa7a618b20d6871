use vstd::prelude::*;

use crate::code::{Code, code_of, char_of};

verus! {

/// The instructions that a byte stream holds, in order; every byte that is not
/// an instruction character is dropped.
pub open spec fn filtered(bytes: Seq<u8>) -> Seq<Code>
    decreases bytes.len(),
{
    if bytes.len() == 0 {
        Seq::empty()
    } else {
        let rest = filtered(bytes.drop_last());
        match code_of(bytes.last() as char) {
            Some(c) => rest.push(c),
            None => rest,
        }
    }
}

/// Turns the raw bytes of a source file into its instruction sequence.
pub fn filter_codes(bytes: &[u8]) -> (r: Vec<Code>)
    ensures
        r@ == filtered(bytes@),
        r@.len() <= bytes@.len(),
{
    let mut out: Vec<Code> = Vec::new();
    let mut i: usize = 0;
    while i < bytes.len()
        invariant
            i <= bytes@.len(),
            out@ == filtered(bytes@.subrange(0, i as int)),
            out@.len() <= i,
        decreases bytes@.len() - i,
    {
        let b = bytes[i];
        assert(bytes@.subrange(0, i + 1).drop_last() == bytes@.subrange(0, i as int));
        if let Some(c) = Code::from_character(b as char) {
            out.push(c);
        }
        i = i + 1;
    }
    assert(bytes@.subrange(0, bytes@.len() as int) == bytes@);
    out
}

/// Filtering never lengthens the input, and each instruction kept comes from a
/// byte of the input that is its character.
pub proof fn lemma_filter_keeps_only_input(bytes: Seq<u8>)
    ensures
        filtered(bytes).len() <= bytes.len(),
        forall|k: int|
            0 <= k < filtered(bytes).len() ==> exists|j: int|
                0 <= j < bytes.len() && bytes[j] as char == char_of(#[trigger] filtered(bytes)[k]),
    decreases bytes.len(),
{
    if bytes.len() > 0 {
        let prefix = bytes.drop_last();
        lemma_filter_keeps_only_input(prefix);
        assert forall|k: int| 0 <= k < filtered(bytes).len() implies exists|j: int|
            0 <= j < bytes.len() && bytes[j] as char == char_of(#[trigger] filtered(bytes)[k]) by {
            if k < filtered(prefix).len() {
                let j = choose|j: int|
                    0 <= j < prefix.len() && prefix[j] as char == char_of(filtered(prefix)[k]);
                assert(bytes[j] == prefix[j]);
            } else {
                let j = bytes.len() - 1;
                crate::code::lemma_char_round_trip(bytes[j] as char, Code::MemInc);
                assert(bytes[j] as char == char_of(filtered(bytes)[k]));
            }
        }
    }
}

} // verus!
