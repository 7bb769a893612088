//! Source spans: half-open ranges `[offset, offset + length)` into the source
//! character sequence, used to anchor diagnostics.

use vstd::prelude::*;

verus! {

/// A half-open range `[offset, offset + length)` into the source.
#[derive(Debug, Clone, Copy, PartialEq, Eq, Structural)]
pub struct Span {
    pub offset: usize,
    pub length: usize,
}

impl Span {
    /// The position one past the last covered index.
    pub open spec fn end(self) -> int {
        self.offset + self.length
    }

    /// A span lies inside a source of `len` characters.
    pub open spec fn wf(self, len: int) -> bool {
        self.offset + self.length <= len
    }

    pub fn new(offset: usize, length: usize) -> (r: Span)
        ensures
            r.offset == offset,
            r.length == length,
    {
        Span { offset, length }
    }
}

/// The smallest span covering both arguments: it starts at the smaller
/// offset and ends at the larger end.
pub open spec fn spec_merge_span(s1: Span, s2: Span) -> Span {
    let offset = if s1.offset <= s2.offset {
        s1.offset
    } else {
        s2.offset
    };
    let end = if s1.end() >= s2.end() {
        s1.end()
    } else {
        s2.end()
    };
    Span { offset, length: (end - offset) as usize }
}

/// Merges two spans into the smallest span covering both.
pub fn merge_span(s1: Span, s2: Span) -> (r: Span)
    requires
        s1.end() <= usize::MAX,
        s2.end() <= usize::MAX,
    ensures
        r == spec_merge_span(s1, s2),
{
    let offset = if s1.offset <= s2.offset {
        s1.offset
    } else {
        s2.offset
    };
    let end1 = s1.offset + s1.length;
    let end2 = s2.offset + s2.length;
    let end = if end1 >= end2 {
        end1
    } else {
        end2
    };
    Span { offset, length: end - offset }
}

/// Merging a span with itself gives the span back.
pub proof fn lemma_merge_span_idempotent(s: Span)
    ensures
        spec_merge_span(s, s) == s,
{
}

/// Merging does not depend on the order of its arguments.
pub proof fn lemma_merge_span_commutative(s1: Span, s2: Span)
    ensures
        spec_merge_span(s1, s2) == spec_merge_span(s2, s1),
{
}

/// Merging a chain of spans may be grouped either way; either grouping
/// covers the whole range from the smallest offset to the largest end.
pub proof fn lemma_merge_span_associative(s1: Span, s2: Span, s3: Span)
    requires
        s1.end() <= usize::MAX,
        s2.end() <= usize::MAX,
        s3.end() <= usize::MAX,
    ensures
        spec_merge_span(spec_merge_span(s1, s2), s3) == spec_merge_span(
            s1,
            spec_merge_span(s2, s3),
        ),
{
}

/// The merge of two spans covers both and no more: it starts at the
/// smaller offset and ends at the larger end.
pub proof fn lemma_merge_span_covers(s1: Span, s2: Span)
    requires
        s1.end() <= usize::MAX,
        s2.end() <= usize::MAX,
    ensures
        spec_merge_span(s1, s2).offset == if s1.offset <= s2.offset {
            s1.offset as int
        } else {
            s2.offset as int
        },
        spec_merge_span(s1, s2).end() == if s1.end() >= s2.end() {
            s1.end()
        } else {
            s2.end()
        },
        spec_merge_span(s1, s2).offset <= s1.offset,
        spec_merge_span(s1, s2).offset <= s2.offset,
        s1.end() <= spec_merge_span(s1, s2).end(),
        s2.end() <= spec_merge_span(s1, s2).end(),
{
}

} // verus!
