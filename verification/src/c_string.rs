//! NUL-terminated byte strings, seen as plain byte sequences.
//!
//! A buffer is any run of bytes that a caller lends. Its text is what stands
//! before the first zero byte; what follows that byte is never looked at.

use vstd::prelude::*;

verus! {

/// The buffer holds a zero byte somewhere.
pub open spec fn has_terminator(buffer: Seq<u8>) -> bool {
    exists|n: int| 0 <= n < buffer.len() && buffer[n] == 0
}

/// The first zero byte of the buffer stands at index `n`.
pub open spec fn terminates_at(buffer: Seq<u8>, n: int) -> bool {
    &&& 0 <= n < buffer.len()
    &&& buffer[n] == 0
    &&& forall|i: int| 0 <= i < n ==> buffer[i] != 0
}

/// The index of the first zero byte, where the buffer has one.
pub open spec fn terminator_index(buffer: Seq<u8>) -> int {
    choose|n: int| terminates_at(buffer, n)
}

/// The bytes before the first zero byte.
pub open spec fn text_of(buffer: Seq<u8>) -> Seq<u8> {
    buffer.take(terminator_index(buffer))
}

/// A buffer has at most one first zero byte.
pub proof fn lemma_terminator_unique(buffer: Seq<u8>, m: int, n: int)
    requires
        terminates_at(buffer, m),
        terminates_at(buffer, n),
    ensures
        m == n,
{
    if m < n {
        assert(buffer[m] != 0);
    } else if n < m {
        assert(buffer[n] != 0);
    }
}

/// Once the first zero byte is found, the text is the prefix before it.
pub proof fn lemma_text_before(buffer: Seq<u8>, n: int)
    requires
        terminates_at(buffer, n),
    ensures
        terminator_index(buffer) == n,
        text_of(buffer) == buffer.take(n),
{
    lemma_terminator_unique(buffer, terminator_index(buffer), n);
}

/// A zero byte at index `k` has a first zero byte at or before it.
proof fn lemma_first_zero_up_to(buffer: Seq<u8>, k: int)
    requires
        0 <= k < buffer.len(),
        buffer[k] == 0,
    ensures
        exists|n: int| n <= k && terminates_at(buffer, n),
    decreases k,
{
    if exists|j: int| 0 <= j < k && buffer[j] == 0 {
        let j = choose|j: int| 0 <= j < k && buffer[j] == 0;
        lemma_first_zero_up_to(buffer, j);
    } else {
        assert(terminates_at(buffer, k));
    }
}

/// A buffer that holds a zero byte has a first one, and `terminator_index`
/// names it.
pub proof fn lemma_terminator_exists(buffer: Seq<u8>)
    requires
        has_terminator(buffer),
    ensures
        terminates_at(buffer, terminator_index(buffer)),
{
    let k = choose|n: int| 0 <= n < buffer.len() && buffer[n] == 0;
    lemma_first_zero_up_to(buffer, k);
}

/// Scans the buffer for its first zero byte.
pub fn find_terminator(buffer: &[u8]) -> (position: Option<usize>)
    ensures
        match position {
            Some(n) => terminates_at(buffer@, n as int),
            None => !has_terminator(buffer@),
        },
{
    let mut i: usize = 0;
    while i < buffer.len()
        invariant
            i <= buffer@.len(),
            forall|k: int| 0 <= k < i ==> buffer@[k] != 0,
        decreases buffer@.len() - i,
    {
        if buffer[i] == 0 {
            return Some(i);
        }
        i += 1;
    }
    None
}

} // verus!
