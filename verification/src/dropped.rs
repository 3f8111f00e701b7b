//! What a section holds before its first heading, which no record takes up.

use vstd::prelude::*;
use select::document::Document;
use crate::boundary::{boundary, find_boundary};
use crate::document::{doc_nodes, has_tag, node_count, node_is, well_linked, NodeView};
use crate::headings::{headings_between, lemma_no_headings, lemma_one_record_per_heading};
use crate::parse::{names_version, segment_changes, segment_types, ParseError};
use crate::table::{
    lemma_next_heading, lemma_next_heading_behind, lemma_next_heading_bounds,
    lemma_no_heading_before_next, next_heading,
};

verus! {

/// The positions from `from` up to `to` that hold a paragraph or a table.
pub open spec fn type_content_between(nodes: Seq<NodeView>, from: int, to: int) -> Seq<usize>
    decreases to - from,
{
    if to <= from {
        Seq::empty()
    } else if to - 1 < nodes.len() && (has_tag(nodes[to - 1], "p"@) || has_tag(
        nodes[to - 1],
        "table"@,
    )) {
        type_content_between(nodes, from, to - 1).push((to - 1) as usize)
    } else {
        type_content_between(nodes, from, to - 1)
    }
}

/// The positions from `from` up to `to` that hold a paragraph that opens
/// with "Bot API", or a list.
pub open spec fn change_content_between(nodes: Seq<NodeView>, from: int, to: int) -> Seq<usize>
    decreases to - from,
{
    if to <= from {
        Seq::empty()
    } else if to - 1 < nodes.len() && (has_tag(nodes[to - 1], "p"@) && "Bot API"@.is_prefix_of(
        nodes[to - 1].text,
    ) || has_tag(nodes[to - 1], "ul"@)) {
        change_content_between(nodes, from, to - 1).push((to - 1) as usize)
    } else {
        change_content_between(nodes, from, to - 1)
    }
}

/// Where the part of a range ends that stands before the range's first heading.
pub open spec fn orphans_end(nodes: Seq<NodeView>, start: int, stop: int) -> int {
    if stop <= next_heading(nodes, start) {
        stop
    } else {
        next_heading(nodes, start)
    }
}

/// The paragraphs and tables that a range of types drops: those before its
/// first heading.
pub open spec fn type_orphans(nodes: Seq<NodeView>, start: int, stop: int) -> Seq<usize> {
    type_content_between(nodes, start, orphans_end(nodes, start, stop))
}

/// The version lines and lists that a range of releases drops: those
/// before its first heading.
pub open spec fn change_orphans(nodes: Seq<NodeView>, start: int, stop: int) -> Seq<usize> {
    change_content_between(nodes, start, orphans_end(nodes, start, stop))
}

/// Lists the paragraphs and tables that [`read_types`] drops on the same
/// range, in rising order.
pub fn read_type_orphans(doc: &Document, start: usize, stop: usize) -> (dropped: Vec<usize>)
    requires
        well_linked(*doc),
    ensures
        dropped@ == type_orphans(doc_nodes(*doc), start as int, stop as int),
{
    let ghost nodes = doc_nodes(*doc);
    let count = node_count(doc);
    let mut dropped: Vec<usize> = Vec::new();
    if start >= count {
        proof {
            let end = orphans_end(nodes, start as int, stop as int);
            lemma_content_past_end(nodes, start as int, end);
        }
        return dropped;
    }
    let mut at: usize = start;
    assert(dropped@ =~= type_content_between(nodes, start as int, start as int));
    while at < stop && at < count && !node_is(doc, at, "h4")
        invariant
            start <= at <= count,
            at <= stop || at == start,
            count == nodes.len(),
            well_linked(*doc),
            nodes == doc_nodes(*doc),
            forall|j: int| start <= j < at ==> !has_tag(#[trigger] nodes[j], "h4"@),
            dropped@ == type_content_between(nodes, start as int, at as int),
        decreases stop - at,
    {
        if node_is(doc, at, "p") || node_is(doc, at, "table") {
            dropped.push(at);
        }
        at += 1;
    }
    proof {
        if at == count || (at < count && has_tag(nodes[at as int], "h4"@)) {
            lemma_next_heading(nodes, start as int, at as int);
        } else {
            lemma_next_heading_behind(nodes, start as int, at as int);
        }
        if stop < start {
            lemma_next_heading_bounds(nodes, start as int);
        }
    }
    dropped
}

/// Lists the version lines and lists that [`read_changes`] drops on the
/// same range, in rising order.
pub fn read_change_orphans(doc: &Document, start: usize, stop: usize) -> (dropped: Vec<usize>)
    requires
        well_linked(*doc),
    ensures
        dropped@ == change_orphans(doc_nodes(*doc), start as int, stop as int),
{
    let ghost nodes = doc_nodes(*doc);
    let count = node_count(doc);
    let mut dropped: Vec<usize> = Vec::new();
    if start >= count {
        proof {
            let end = orphans_end(nodes, start as int, stop as int);
            lemma_content_past_end(nodes, start as int, end);
        }
        return dropped;
    }
    let mut at: usize = start;
    assert(dropped@ =~= change_content_between(nodes, start as int, start as int));
    while at < stop && at < count && !node_is(doc, at, "h4")
        invariant
            start <= at <= count,
            at <= stop || at == start,
            count == nodes.len(),
            well_linked(*doc),
            nodes == doc_nodes(*doc),
            forall|j: int| start <= j < at ==> !has_tag(#[trigger] nodes[j], "h4"@),
            dropped@ == change_content_between(nodes, start as int, at as int),
        decreases stop - at,
    {
        if (node_is(doc, at, "p") && names_version(doc, at)) || node_is(doc, at, "ul") {
            dropped.push(at);
        }
        at += 1;
    }
    proof {
        if at == count || (at < count && has_tag(nodes[at as int], "h4"@)) {
            lemma_next_heading(nodes, start as int, at as int);
        } else {
            lemma_next_heading_behind(nodes, start as int, at as int);
        }
        if stop < start {
            lemma_next_heading_bounds(nodes, start as int);
        }
    }
    dropped
}

/// A range that starts behind the last node holds no content.
pub proof fn lemma_content_past_end(nodes: Seq<NodeView>, from: int, to: int)
    requires
        from >= nodes.len(),
    ensures
        type_content_between(nodes, from, to) == Seq::<usize>::empty(),
        change_content_between(nodes, from, to) == Seq::<usize>::empty(),
    decreases to - from,
{
    if to > from {
        lemma_content_past_end(nodes, from, to - 1);
    }
}

/// The paragraphs and tables of the section "Available types" that no
/// record holds because they come before the section's first heading.
pub open spec fn available_types_orphans(nodes: Seq<NodeView>) -> Option<Seq<usize>> {
    match (boundary(nodes, "h3"@, "Available types"@), boundary(nodes, "h4"@, "InputFile"@)) {
        (Some(start), Some(stop)) => Some(type_orphans(nodes, start, stop)),
        _ => None,
    }
}

/// The version lines and lists of the section "Recent changes" that no
/// release holds because they come before the section's first heading.
pub open spec fn recent_changes_orphans(nodes: Seq<NodeView>) -> Option<Seq<usize>> {
    match (
        boundary(nodes, "h3"@, "Recent changes"@),
        boundary(nodes, "a"@, "See earlier changes »"@),
    ) {
        (Some(start), Some(stop)) => Some(change_orphans(nodes, start, stop)),
        _ => None,
    }
}

/// Lists what [`parse_available_types`] drops of the section, for a
/// caller that warns of it.
pub fn dropped_from_available_types(doc: &Document) -> (r: Result<Vec<usize>, ParseError>)
    requires
        well_linked(*doc),
    ensures
        r matches Ok(dropped) ==> available_types_orphans(doc_nodes(*doc)) == Some(dropped@),
        r matches Err(e) ==> available_types_orphans(doc_nodes(*doc)) is None && e
            == ParseError::BoundaryNotFound,
{
    let start = match find_boundary(doc, "h3", "Available types") {
        Some(at) => at,
        None => { return Err(ParseError::BoundaryNotFound); },
    };
    let stop = match find_boundary(doc, "h4", "InputFile") {
        Some(at) => at,
        None => { return Err(ParseError::BoundaryNotFound); },
    };
    Ok(read_type_orphans(doc, start, stop))
}

/// Lists what [`parse_recent_changes`] drops of the section, for a caller
/// that warns of it.
pub fn dropped_from_recent_changes(doc: &Document) -> (r: Result<Vec<usize>, ParseError>)
    requires
        well_linked(*doc),
    ensures
        r matches Ok(dropped) ==> recent_changes_orphans(doc_nodes(*doc)) == Some(dropped@),
        r matches Err(e) ==> recent_changes_orphans(doc_nodes(*doc)) is None && e
            == ParseError::BoundaryNotFound,
{
    let start = match find_boundary(doc, "h3", "Recent changes") {
        Some(at) => at,
        None => { return Err(ParseError::BoundaryNotFound); },
    };
    let stop = match find_boundary(doc, "a", "See earlier changes »") {
        Some(at) => at,
        None => { return Err(ParseError::BoundaryNotFound); },
    };
    Ok(read_change_orphans(doc, start, stop))
}

/// No record is open at a position exactly where the position stands at
/// or before the range's first heading: what is dropped there is what the
/// lists of dropped content hold.
pub proof fn lemma_open_record_behind_first_heading(nodes: Seq<NodeView>, start: int, at: int)
    requires
        0 <= start <= at <= nodes.len(),
    ensures
        segment_types(nodes, start, at).len() == 0 <==> at <= next_heading(nodes, start),
        segment_changes(nodes, start, at).len() == 0 <==> at <= next_heading(nodes, start),
{
    lemma_one_record_per_heading(nodes, start, at);
    lemma_no_headings(nodes, start, at);
    if headings_between(nodes, start, at) == 0 {
        lemma_next_heading_behind(nodes, start, at);
    }
    if at <= next_heading(nodes, start) {
        assert forall|j: int| start <= j < at implies !has_tag(#[trigger] nodes[j], "h4"@) by {
            lemma_no_heading_before_next(nodes, start, j);
        }
    }
}

} // verus!
