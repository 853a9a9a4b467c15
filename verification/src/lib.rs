//! Splits an ordered list of string identifiers into two contiguous,
//! non-overlapping chunks for downstream parallel processing.
//!
//! The midpoint is the floor of half the input length, so on odd-length
//! input the second chunk is one element longer than the first.

use vstd::prelude::*;

verus! {

/// The incoming payload: an ordered sequence of identifiers. It may be
/// empty, and the identifiers need not be distinct.
#[derive(Debug, PartialEq)]
pub struct Event(pub Vec<String>);

/// The split result: the elements before the midpoint and the elements
/// from the midpoint onward, both in input order.
#[derive(Debug, PartialEq)]
pub struct Response {
    pub chunk1: Vec<String>,
    pub chunk2: Vec<String>,
}

/// The index at which the input is partitioned: floor of half its length.
pub open spec fn midpoint_of(len: nat) -> nat {
    len / 2
}

/// The elements of `s` with index below the midpoint, order preserved.
pub open spec fn first_chunk_of(s: Seq<String>) -> Seq<String> {
    s.take(midpoint_of(s.len()) as int)
}

/// The elements of `s` from the midpoint onward, order preserved.
pub open spec fn second_chunk_of(s: Seq<String>) -> Seq<String> {
    s.skip(midpoint_of(s.len()) as int)
}

impl Response {
    /// Holds when this response is exactly the midpoint split of `s`.
    pub open spec fn is_split_of(self, s: Seq<String>) -> bool {
        self.chunk1@ == first_chunk_of(s) && self.chunk2@ == second_chunk_of(s)
    }
}

/// Copies `v[start..end]` into a fresh vector, order preserved.
fn clone_range(v: &Vec<String>, start: usize, end: usize) -> (r: Vec<String>)
    requires
        start <= end <= v.len(),
    ensures
        r@ == v@.subrange(start as int, end as int),
{
    let mut r: Vec<String> = Vec::new();
    let mut i: usize = start;
    while i < end
        invariant
            start <= i <= end <= v.len(),
            r@ == v@.subrange(start as int, i as int),
        decreases end - i,
    {
        r.push(v[i].clone());
        i = i + 1;
    }
    r
}

/// Law: the two chunks partition the input. The first chunk holds
/// floor(len/2) elements, the chunk lengths sum to the input length, and
/// concatenating the first chunk then the second reproduces the input
/// exactly, order preserved, with no duplication and no loss.
pub proof fn lemma_chunks_reassemble(s: Seq<String>)
    ensures
        first_chunk_of(s).len() == midpoint_of(s.len()),
        first_chunk_of(s).len() + second_chunk_of(s).len() == s.len(),
        first_chunk_of(s) + second_chunk_of(s) == s,
{
    assert(first_chunk_of(s) + second_chunk_of(s) =~= s);
}

/// Splits the identifiers of `event` at the midpoint: the first chunk
/// holds the elements before it, the second the midpoint element onward.
/// Total over every input; on odd-length input the extra element lands in
/// the second chunk.
pub fn function_handler(event: Event) -> (r: Response)
    ensures
        r.is_split_of(event.0@),
        r.chunk1@ + r.chunk2@ == event.0@,
        r.chunk1@.len() == midpoint_of(event.0@.len()),
        r.chunk1@.len() + r.chunk2@.len() == event.0@.len(),
{
    let input = event.0;
    let total_items: usize = input.len();
    let midpoint: usize = total_items / 2;

    let chunk1: Vec<String> = clone_range(&input, 0, midpoint);
    let chunk2: Vec<String> = clone_range(&input, midpoint, total_items);

    proof {
        lemma_chunks_reassemble(input@);
    }
    Response { chunk1, chunk2 }
}

} // verus!
