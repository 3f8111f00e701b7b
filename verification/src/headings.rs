//! How the records of a range follow its headings.

use vstd::prelude::*;
use crate::document::{has_tag, NodeView};
use crate::parse::{segment_changes, segment_types};

verus! {

/// The number of headings at the positions from `start` up to `stop`.
pub open spec fn headings_between(nodes: Seq<NodeView>, start: int, stop: int) -> nat
    decreases stop - start,
{
    if stop <= start {
        0
    } else if stop - 1 < nodes.len() && has_tag(nodes[stop - 1], "h4"@) {
        headings_between(nodes, start, stop - 1) + 1
    } else {
        headings_between(nodes, start, stop - 1)
    }
}

/// A range holds one record for each heading in it.
pub proof fn lemma_one_record_per_heading(nodes: Seq<NodeView>, start: int, stop: int)
    requires
        0 <= start,
    ensures
        segment_types(nodes, start, stop).len() == headings_between(nodes, start, stop),
        segment_changes(nodes, start, stop).len() == headings_between(nodes, start, stop),
    decreases stop - start,
{
    if stop > start {
        lemma_one_record_per_heading(nodes, start, stop - 1);
    }
}

/// A range that opens with a node that is no heading has as many headings
/// as the range behind that node.
pub proof fn lemma_headings_behind(nodes: Seq<NodeView>, start: int, stop: int)
    requires
        0 <= start < stop,
        start < nodes.len() ==> !has_tag(nodes[start], "h4"@),
    ensures
        headings_between(nodes, start, stop) == headings_between(nodes, start + 1, stop),
    decreases stop - start,
{
    if stop > start + 1 {
        lemma_headings_behind(nodes, start, stop - 1);
    } else {
        assert(headings_between(nodes, start, start) == 0);
    }
}

/// What stands before the first heading of a range is dropped: the range
/// gives the records that it gives from any position `from` on before which
/// it holds no heading.
pub proof fn lemma_before_first_heading(nodes: Seq<NodeView>, start: int, from: int, stop: int)
    requires
        0 <= start <= from <= stop,
        forall|j: int|
            start <= j < from && j < nodes.len() ==> !has_tag(#[trigger] nodes[j], "h4"@),
    ensures
        segment_types(nodes, start, stop) == segment_types(nodes, from, stop),
        segment_changes(nodes, start, stop) == segment_changes(nodes, from, stop),
    decreases stop - start,
{
    if stop > from {
        lemma_before_first_heading(nodes, start, from, stop - 1);
    } else if from > start {
        lemma_before_first_heading(nodes, start, from - 1, stop - 1);
    }
}

/// A range counts no heading exactly where it holds none.
pub proof fn lemma_no_headings(nodes: Seq<NodeView>, start: int, stop: int)
    requires
        0 <= start <= stop <= nodes.len(),
    ensures
        headings_between(nodes, start, stop) == 0 <==> forall|j: int|
            start <= j < stop ==> !has_tag(#[trigger] nodes[j], "h4"@),
    decreases stop - start,
{
    if stop > start {
        lemma_no_headings(nodes, start, stop - 1);
    }
}

} // verus!
