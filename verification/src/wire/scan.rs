//! Patterns in a byte string: what it means that one stands at a position,
//! and how to look for a piece of text there.

use vstd::prelude::*;
use crate::wire::format::text;

verus! {

/// `pattern` stands in `bytes` at the position `at`.
pub open spec fn stands_at(bytes: Seq<u8>, at: int, pattern: Seq<u8>) -> bool {
    0 <= at && at + pattern.len() <= bytes.len() && bytes.subrange(at, at + pattern.len())
        == pattern
}

/// Where two patterns stand one behind the other, their concatenation stands.
pub proof fn lemma_stands_at_join(bytes: Seq<u8>, at: int, first: Seq<u8>, rest: Seq<u8>)
    requires
        stands_at(bytes, at, first),
        stands_at(bytes, at + first.len(), rest),
    ensures
        stands_at(bytes, at, first + rest),
{
    let whole = first + rest;
    assert(bytes.subrange(at, at + whole.len()) =~= whole);
}

/// Where a concatenation stands, its two parts stand one behind the other.
pub proof fn lemma_stands_at_split(bytes: Seq<u8>, at: int, first: Seq<u8>, rest: Seq<u8>)
    requires
        stands_at(bytes, at, first + rest),
    ensures
        stands_at(bytes, at, first),
        stands_at(bytes, at + first.len(), rest),
{
    let whole = first + rest;
    let found = bytes.subrange(at, at + whole.len());
    assert(bytes.subrange(at, at + first.len()) =~= first);
    assert(bytes.subrange(at + first.len(), at + first.len() + rest.len()) =~= rest) by {
        assert forall|i: int| 0 <= i < rest.len() implies bytes.subrange(
            at + first.len(),
            at + first.len() + rest.len(),
        )[i] == rest[i] by {
            assert(found[i + first.len()] == whole[i + first.len()]);
        }
    }
}

/// The whole of `bytes` is `pattern` exactly if `pattern` stands at its start
/// and ends with it.
pub proof fn lemma_whole(bytes: Seq<u8>, pattern: Seq<u8>)
    ensures
        bytes == pattern <==> stands_at(bytes, 0, pattern) && pattern.len() == bytes.len(),
{
    if bytes == pattern {
        assert(bytes.subrange(0, pattern.len() as int) =~= pattern);
    }
    if stands_at(bytes, 0, pattern) && pattern.len() == bytes.len() {
        assert(bytes.subrange(0, pattern.len() as int) =~= bytes);
    }
}

/// Looks for the bytes of `lit` at the position `at` and returns the
/// position behind them.
pub fn expect_text(bytes: &[u8], at: usize, lit: &str) -> (r: Option<usize>)
    requires
        at <= bytes@.len(),
    ensures
        match r {
            Some(end) => stands_at(bytes@, at as int, text(lit)) && end == at + text(lit).len(),
            None => !stands_at(bytes@, at as int, text(lit)),
        },
{
    let pattern = lit.as_bytes();
    if pattern.len() > bytes.len() - at {
        return None;
    }
    let mut i: usize = 0;
    while i < pattern.len()
        invariant
            pattern@ == text(lit),
            at + pattern@.len() <= bytes@.len() <= usize::MAX,
            i <= pattern@.len(),
            bytes@.subrange(at as int, at + i) == pattern@.subrange(0, i as int),
        decreases pattern@.len() - i,
    {
        if bytes[at + i] != pattern[i] {
            return None;
        }
        i = i + 1;
    }
    assert(pattern@ == pattern@.subrange(0, i as int));
    Some(at + i)
}

} // verus!
