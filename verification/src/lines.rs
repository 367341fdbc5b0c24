//! Mapping byte offsets in the Markdown source to 0-based line numbers.

use vstd::prelude::*;
use vstd::utf8::*;
use vstd::string::*;

verus! {

/// Number of `\n` bytes in a byte sequence.
pub open spec fn count_newlines(bytes: Seq<u8>) -> nat
    decreases bytes.len(),
{
    if bytes.len() == 0 {
        0
    } else {
        count_newlines(bytes.drop_last()) + if bytes.last() == 10 {
            1nat
        } else {
            0nat
        }
    }
}

/// The 0-based line on which a byte offset falls: the newlines before it,
/// offsets past the end counting as the end.
pub open spec fn line_of_offset(bytes: Seq<u8>, offset: int) -> nat {
    if offset < bytes.len() {
        count_newlines(bytes.take(offset))
    } else {
        count_newlines(bytes)
    }
}

proof fn lemma_count_newlines_bound(bytes: Seq<u8>)
    ensures
        count_newlines(bytes) <= bytes.len(),
    decreases bytes.len(),
{
    if bytes.len() > 0 {
        lemma_count_newlines_bound(bytes.drop_last());
    }
}

/// Counts the newlines before `offset` (or in all of `bytes` when it is past the end).
pub(crate) fn newlines_before(bytes: &[u8], offset: usize) -> (n: usize)
    ensures
        n == line_of_offset(bytes@, offset as int),
        n <= bytes@.len(),
{
    let end: usize = if offset < bytes.len() {
        offset
    } else {
        bytes.len()
    };
    let mut n: usize = 0;
    let mut i: usize = 0;
    while i < end
        invariant
            end <= bytes@.len(),
            i <= end,
            n == count_newlines(bytes@.take(i as int)),
            n <= i,
        decreases end - i,
    {
        proof {
            assert(bytes@.take(i + 1).drop_last() =~= bytes@.take(i as int));
        }
        if bytes[i] == 10 {
            n = n + 1;
        }
        i = i + 1;
    }
    proof {
        if offset >= bytes@.len() {
            assert(bytes@.take(end as int) =~= bytes@);
        }
        lemma_count_newlines_bound(bytes@.take(end as int));
    }
    n
}

/// Converts a byte offset in the source Markdown to a 0-based line number.
/// The offset, or the end of the text where it lies past it, must fall on a
/// character boundary: std refuses to slice a `str` elsewhere.
pub fn byte_offset_to_line(source: &str, offset: usize) -> (line: usize)
    requires
        offset >= source.spec_bytes().len() || is_char_boundary(source.spec_bytes(), offset as int),
    ensures
        line == line_of_offset(source.spec_bytes(), offset as int),
{
    newlines_before(source.as_bytes(), offset)
}

proof fn lemma_count_newlines_prefix(bytes: Seq<u8>, a: int)
    requires
        0 <= a <= bytes.len(),
    ensures
        count_newlines(bytes.take(a)) <= count_newlines(bytes),
    decreases bytes.len() - a,
{
    if a < bytes.len() {
        lemma_count_newlines_prefix(bytes, a + 1);
        assert(bytes.take(a + 1).drop_last() =~= bytes.take(a));
    } else {
        assert(bytes.take(a) =~= bytes);
    }
}

/// Line numbers never decrease as the offset grows, and offset 0 is line 0.
pub proof fn lemma_line_of_offset_monotone(bytes: Seq<u8>, a: int, b: int)
    requires
        0 <= a <= b,
    ensures
        line_of_offset(bytes, a) <= line_of_offset(bytes, b),
        line_of_offset(bytes, 0) == 0,
{
    assert(bytes.take(0) =~= Seq::<u8>::empty());
    if b < bytes.len() {
        lemma_count_newlines_prefix(bytes.take(b), a);
        assert(bytes.take(b).take(a) =~= bytes.take(a));
    } else if a < bytes.len() {
        lemma_count_newlines_prefix(bytes, a);
    }
}

/// Only line-feed bytes (`\n`, 0x0A) count: one more byte adds one exactly when
/// it is a line feed, counts add up over concatenation, and the count is the
/// number of line-feed bytes.
pub proof fn lemma_count_newlines_counts_line_feeds(a: Seq<u8>, b: Seq<u8>, x: u8)
    ensures
        count_newlines(a.push(x)) == count_newlines(a) + if x == 10 {
            1nat
        } else {
            0nat
        },
        count_newlines(a + b) == count_newlines(a) + count_newlines(b),
        count_newlines(a) == a.filter(|y: u8| y == 10).len(),
    decreases b.len(),
{
    assert(a.push(x).drop_last() =~= a);
    lemma_count_is_filter(a);
    if b.len() > 0 {
        lemma_count_newlines_counts_line_feeds(a, b.drop_last(), x);
        assert((a + b).drop_last() =~= a + b.drop_last());
    } else {
        assert(a + b =~= a);
    }
}

proof fn lemma_count_is_filter(a: Seq<u8>)
    ensures
        count_newlines(a) == a.filter(|y: u8| y == 10).len(),
    decreases a.len(),
{
    reveal(Seq::filter);
    if a.len() > 0 {
        lemma_count_is_filter(a.drop_last());
    }
}

/// The line of an offset is the number of line-feed bytes before it (before the
/// end of the text, for offsets past it).
pub proof fn lemma_line_is_line_feeds_before(bytes: Seq<u8>, offset: int)
    requires
        0 <= offset,
    ensures
        line_of_offset(bytes, offset) == (if offset < bytes.len() {
            bytes.take(offset)
        } else {
            bytes
        }).filter(|y: u8| y == 10).len(),
{
    lemma_count_is_filter(bytes);
    lemma_count_is_filter(bytes.take(offset));
}

} // verus!
