//! The nodes that open and close a section of the page.

use vstd::prelude::*;
use select::document::Document;
use crate::document::{
    doc_nodes, find_by_name, has_tag, lists_named, node_text, well_linked, NodeView,
};
use crate::text::same_text;

verus! {

/// Whether the node at `at` is an element named `tag` whose text is `label`.
pub open spec fn is_boundary(
    nodes: Seq<NodeView>,
    at: int,
    tag: Seq<char>,
    label: Seq<char>,
) -> bool {
    0 <= at < nodes.len() && has_tag(nodes[at], tag) && nodes[at].text == label
}

/// The first position at or behind `from` that is a boundary.
pub open spec fn boundary_from(
    nodes: Seq<NodeView>,
    from: int,
    tag: Seq<char>,
    label: Seq<char>,
) -> Option<int>
    decreases nodes.len() - from,
{
    if from >= nodes.len() {
        None
    } else if is_boundary(nodes, from, tag, label) {
        Some(from)
    } else {
        boundary_from(nodes, from + 1, tag, label)
    }
}

/// The first element named `tag` whose text is `label`.
pub open spec fn boundary(nodes: Seq<NodeView>, tag: Seq<char>, label: Seq<char>) -> Option<int> {
    boundary_from(nodes, 0, tag, label)
}

/// A boundary with none between `from` and it is the first one from `from`.
pub proof fn lemma_boundary_found(
    nodes: Seq<NodeView>,
    from: int,
    at: int,
    tag: Seq<char>,
    label: Seq<char>,
)
    requires
        0 <= from <= at,
        is_boundary(nodes, at, tag, label),
        forall|j: int| from <= j < at ==> !is_boundary(nodes, j, tag, label),
    ensures
        boundary_from(nodes, from, tag, label) == Some(at),
    decreases at - from,
{
    if from < at {
        lemma_boundary_found(nodes, from + 1, at, tag, label);
    }
}

/// Where no position from `from` on is a boundary, there is no first one.
pub proof fn lemma_boundary_absent(
    nodes: Seq<NodeView>,
    from: int,
    tag: Seq<char>,
    label: Seq<char>,
)
    requires
        0 <= from,
        forall|j: int| from <= j < nodes.len() ==> !is_boundary(nodes, j, tag, label),
    ensures
        boundary_from(nodes, from, tag, label) is None,
    decreases nodes.len() - from,
{
    if from < nodes.len() {
        lemma_boundary_absent(nodes, from + 1, tag, label);
    }
}

/// Where a list of the elements named `tag` holds the position `at` of one.
proof fn listed_at(found: Seq<usize>, nodes: Seq<NodeView>, tag: Seq<char>, at: int) -> (k: int)
    requires
        lists_named(found, nodes, tag),
        0 <= at < nodes.len(),
        has_tag(nodes[at], tag),
    ensures
        0 <= k < found.len(),
        found[k] == at,
{
    choose|k: int| 0 <= k < found.len() && #[trigger] found[k] == at
}

/// Finds the first element named `tag` whose text is `label`.
pub fn find_boundary(doc: &Document, tag: &str, label: &str) -> (at: Option<usize>)
    requires
        well_linked(*doc),
    ensures
        at matches Some(found) ==> boundary(doc_nodes(*doc), tag@, label@) == Some(found as int),
        at is None ==> boundary(doc_nodes(*doc), tag@, label@) is None,
{
    let ghost nodes = doc_nodes(*doc);
    let named = find_by_name(doc, tag);
    let mut k: usize = 0;
    while k < named.len()
        invariant
            k <= named@.len(),
            well_linked(*doc),
            nodes == doc_nodes(*doc),
            lists_named(named@, nodes, tag@),
            forall|j: int|
                0 <= j < k ==> !is_boundary(nodes, #[trigger] named@[j] as int, tag@, label@),
        decreases named@.len() - k,
    {
        let at = named[k];
        if let Some(text) = node_text(doc, at) {
            if same_text(text.as_str(), label) {
                proof {
                    assert forall|j: int| 0 <= j < at implies !is_boundary(
                        nodes,
                        j,
                        tag@,
                        label@,
                    ) by {
                        if is_boundary(nodes, j, tag@, label@) {
                            let i = listed_at(named@, nodes, tag@, j);
                            assert(!is_boundary(nodes, named@[i] as int, tag@, label@));
                        }
                    }
                    lemma_boundary_found(nodes, 0, at as int, tag@, label@);
                }
                return Some(at);
            }
        }
        k += 1;
    }
    proof {
        assert forall|j: int| 0 <= j < nodes.len() implies !is_boundary(
            nodes,
            j,
            tag@,
            label@,
        ) by {
            if is_boundary(nodes, j, tag@, label@) {
                let i = listed_at(named@, nodes, tag@, j);
                assert(!is_boundary(nodes, named@[i] as int, tag@, label@));
            }
        }
        lemma_boundary_absent(nodes, 0, tag@, label@);
    }
    None
}

/// The first boundary is a boundary and no position before it is one; and
/// where there is no first boundary, no position is one.
pub proof fn lemma_boundary_is_first(nodes: Seq<NodeView>, tag: Seq<char>, label: Seq<char>)
    ensures
        boundary(nodes, tag, label) matches Some(at) ==> is_boundary(nodes, at, tag, label)
            && forall|j: int| 0 <= j < at ==> !is_boundary(nodes, j, tag, label),
        boundary(nodes, tag, label) is None ==> forall|j: int| !is_boundary(nodes, j, tag, label),
{
    lemma_boundary_from(nodes, 0, tag, label);
}

/// The first boundary from `from` is a boundary and none stands between
/// `from` and it; and where there is none, no position from `from` on is one.
proof fn lemma_boundary_from(nodes: Seq<NodeView>, from: int, tag: Seq<char>, label: Seq<char>)
    requires
        0 <= from,
    ensures
        boundary_from(nodes, from, tag, label) matches Some(at) ==> from <= at && is_boundary(
            nodes,
            at,
            tag,
            label,
        ) && forall|j: int| from <= j < at ==> !is_boundary(nodes, j, tag, label),
        boundary_from(nodes, from, tag, label) is None ==> forall|j: int|
            from <= j ==> !is_boundary(nodes, j, tag, label),
    decreases nodes.len() - from,
{
    if from < nodes.len() && !is_boundary(nodes, from, tag, label) {
        lemma_boundary_from(nodes, from + 1, tag, label);
    }
}

} // verus!
