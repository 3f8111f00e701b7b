//! The rows of a table and the items of a list, as the texts of child nodes.

use vstd::prelude::*;
use select::document::Document;
use crate::document::{
    doc_nodes, has_tag, node_children, node_count, node_is, node_text, well_linked, NodeView,
};

verus! {

/// The test for a position that holds an element named `tag`.
pub open spec fn named(nodes: Seq<NodeView>, tag: Seq<char>) -> spec_fn(usize) -> bool {
    |at: usize| at < nodes.len() && has_tag(nodes[at as int], tag)
}

/// The text of the node at a position.
pub open spec fn text_at(nodes: Seq<NodeView>) -> spec_fn(usize) -> Seq<char> {
    |at: usize| nodes[at as int].text
}

/// The texts of those among `positions` that hold an element named `tag`.
pub open spec fn texts_of(nodes: Seq<NodeView>, positions: Seq<usize>, tag: Seq<char>) -> Seq<
    Seq<char>,
> {
    positions.filter(named(nodes, tag)).map_values(text_at(nodes))
}

/// The texts of the children of the node at `at` that are elements named
/// `tag`; none where the page has no node at `at`.
pub open spec fn child_texts(nodes: Seq<NodeView>, at: int, tag: Seq<char>) -> Seq<Seq<char>> {
    if 0 <= at < nodes.len() {
        texts_of(nodes, nodes[at].children, tag)
    } else {
        Seq::empty()
    }
}

/// Reads the texts of the children of the node at `at` that are elements
/// named `tag`.
pub fn read_child_texts(doc: &Document, at: usize, tag: &str) -> (texts: Vec<String>)
    requires
        well_linked(*doc),
    ensures
        texts.deep_view() == child_texts(doc_nodes(*doc), at as int, tag@),
{
    let ghost nodes = doc_nodes(*doc);
    let children = node_children(doc, at);
    let mut texts: Vec<String> = Vec::new();
    let mut k: usize = 0;
    assert(children@.take(0) =~= Seq::empty());
    assert(children@.take(0).filter(named(nodes, tag@)) =~= Seq::empty()) by {
        reveal(Seq::filter);
    }
    assert(texts.deep_view() =~= texts_of(nodes, children@.take(0), tag@));
    while k < children.len()
        invariant
            k <= children@.len(),
            well_linked(*doc),
            nodes == doc_nodes(*doc),
            texts.deep_view() == texts_of(nodes, children@.take(k as int), tag@),
        decreases children@.len() - k,
    {
        let child = children[k];
        let ghost before = children@.take(k as int);
        let ghost kept = texts.deep_view();
        proof {
            assert(children@.take(k + 1) =~= before.push(child));
            Seq::lemma_filter_push(before, child, named(nodes, tag@));
        }
        if node_is(doc, child, tag) {
            if let Some(text) = node_text(doc, child) {
                texts.push(text);
                assert(texts.deep_view() =~= kept.push(text@));
            }
        }
        assert(texts.deep_view() =~= texts_of(nodes, children@.take(k + 1), tag@));
        k += 1;
    }
    assert(children@.take(k as int) =~= children@);
    assert(children@.len() == 0 ==> texts.deep_view() =~= Seq::empty());
    texts
}

/// The position of the first heading at or behind `from`, or the number of
/// nodes where none follows.
pub open spec fn next_heading(nodes: Seq<NodeView>, from: int) -> int
    decreases nodes.len() - from,
{
    if from >= nodes.len() {
        nodes.len() as int
    } else if has_tag(nodes[from], "h4"@) {
        from
    } else {
        next_heading(nodes, from + 1)
    }
}

/// The rows at the positions from `from` up to `to`: for each `tr` that has
/// a `td` among its children, the texts of its `td` children.
pub open spec fn rows_between(nodes: Seq<NodeView>, from: int, to: int) -> Seq<Seq<Seq<char>>>
    decreases to - from,
{
    if to <= from {
        Seq::empty()
    } else {
        let before = rows_between(nodes, from, to - 1);
        let cells = child_texts(nodes, to - 1, "td"@);
        if has_tag(nodes[to - 1], "tr"@) && cells.len() > 0 {
            before.push(cells)
        } else {
            before
        }
    }
}

/// The rows that a table at `at` stands for: those from `at` up to the next
/// heading, or to the end of the page.
pub open spec fn table_rows(nodes: Seq<NodeView>, at: int) -> Seq<Seq<Seq<char>>> {
    rows_between(nodes, at, next_heading(nodes, at))
}

/// Where no heading stands between `from` and `to`, and `to` is a heading or
/// the end of the page, `to` is the next heading from `from`.
pub proof fn lemma_next_heading(nodes: Seq<NodeView>, from: int, to: int)
    requires
        0 <= from <= to <= nodes.len(),
        forall|j: int| from <= j < to ==> !has_tag(#[trigger] nodes[j], "h4"@),
        to == nodes.len() || has_tag(nodes[to], "h4"@),
    ensures
        next_heading(nodes, from) == to,
    decreases to - from,
{
    if from < to {
        lemma_next_heading(nodes, from + 1, to);
    }
}

/// Reads the rows that a table at `at` stands for.
pub fn read_table_rows(doc: &Document, at: usize) -> (rows: Vec<Vec<String>>)
    requires
        well_linked(*doc),
    ensures
        rows.deep_view() == table_rows(doc_nodes(*doc), at as int),
{
    let ghost nodes = doc_nodes(*doc);
    let count = node_count(doc);
    let mut rows: Vec<Vec<String>> = Vec::new();
    let mut j: usize = at;
    assert(rows.deep_view() =~= rows_between(nodes, at as int, at as int));
    if at >= count {
        return rows;
    }
    while j < count && !node_is(doc, j, "h4")
        invariant
            at <= j <= count,
            count == nodes.len(),
            well_linked(*doc),
            nodes == doc_nodes(*doc),
            forall|i: int| at <= i < j ==> !has_tag(#[trigger] nodes[i], "h4"@),
            rows.deep_view() == rows_between(nodes, at as int, j as int),
        decreases count - j,
    {
        if node_is(doc, j, "tr") {
            let cells = read_child_texts(doc, j, "td");
            if cells.len() > 0 {
                let ghost kept = rows.deep_view();
                rows.push(cells);
                assert(rows.deep_view() =~= kept.push(cells.deep_view()));
            }
        }
        j += 1;
    }
    proof {
        lemma_next_heading(nodes, at as int, j as int);
    }
    rows
}

/// No heading from `from` up to `to` puts the next heading at `to` or behind.
pub proof fn lemma_next_heading_behind(nodes: Seq<NodeView>, from: int, to: int)
    requires
        0 <= from <= to <= nodes.len(),
        forall|j: int| from <= j < to ==> !has_tag(#[trigger] nodes[j], "h4"@),
    ensures
        to <= next_heading(nodes, from) <= nodes.len(),
    decreases to - from,
{
    if from < to {
        lemma_next_heading_behind(nodes, from + 1, to);
    } else {
        lemma_next_heading_bounds(nodes, from);
    }
}

/// The next heading from `from` stands at `from` or behind, within the page.
pub proof fn lemma_next_heading_bounds(nodes: Seq<NodeView>, from: int)
    requires
        0 <= from <= nodes.len(),
    ensures
        from <= next_heading(nodes, from) <= nodes.len(),
    decreases nodes.len() - from,
{
    if from < nodes.len() && !has_tag(nodes[from], "h4"@) {
        lemma_next_heading_bounds(nodes, from + 1);
    }
}

/// No heading stands between a position and the next heading from it.
pub proof fn lemma_no_heading_before_next(nodes: Seq<NodeView>, from: int, at: int)
    requires
        0 <= from <= at < next_heading(nodes, from),
    ensures
        at < nodes.len(),
        !has_tag(nodes[at], "h4"@),
    decreases at - from,
{
    if from < at {
        lemma_no_heading_before_next(nodes, from + 1, at);
    }
}

} // verus!
