//! The parsed page, as `select` holds it, and what the segmenter reads of it.

use vstd::prelude::*;
use vstd::string::StringSliceAdditionalSpecFns;
use select::document::Document;
use select::predicate::Name;

verus! {

/// `select::document::Document`: a parsed page. Nothing of it is read but
/// through the functions below.
#[verifier::external_type_specification]
#[verifier::external_body]
pub struct ExDocument(select::document::Document);

/// What the segmenter reads of one node of a page.
pub struct NodeView {
    /// The element's name; `None` for text and comments.
    pub tag: Option<Seq<char>>,
    /// The text of the node and of everything below it, in page order.
    pub text: Seq<char>,
    /// The positions of the node's children, first child first.
    pub children: Seq<usize>,
}

/// The nodes of a page, by position.
pub uninterp spec fn doc_nodes(doc: Document) -> Seq<NodeView>;

/// Whether the links between the nodes of a page form a forest, as they do
/// in every page that `select` has parsed: each link leads to a node of the
/// page, and following first children and next siblings never comes back
/// to a node.
pub uninterp spec fn well_linked(doc: Document) -> bool;

/// Whether `node` is an element named `tag`.
pub open spec fn has_tag(node: NodeView, tag: Seq<char>) -> bool {
    node.tag == Some(tag)
}

/// The nodes of the page that the parser builds from a text.
pub uninterp spec fn parsed_nodes(html: Seq<char>) -> Seq<NodeView>;

/// Whether a text is short enough for the parser: three times its length
/// in bytes stays below 2^31. The parser's buffers grow to the next power of
/// two that 32 bits hold, and a buffer takes up to three bytes for one byte
/// of the text.
pub open spec fn parsable(html: &str) -> bool {
    html.spec_bytes().len() <= 0x2aaa_aaaa
}

/// `Document::from` on a string slice: parses HTML. The result depends on
/// the text alone. The parser copies the text into a buffer of `tendril`
/// and appends the pieces of a text node, an attribute or a comment to
/// other such buffers. A buffer panics where it would grow beyond 2^31
/// bytes, and it holds no more than three bytes for each byte of the text:
/// three where a NUL byte becomes the replacement character. So the wrapper
/// asks for a text of which three times the length is below 2^31. The parser
/// appends a node behind its parent and behind its previous sibling, so the
/// links form a forest.
#[verifier::external_body]
fn document_from(html: &str) -> (doc: Document)
    requires
        parsable(html),
    ensures
        well_linked(doc),
        doc_nodes(doc) == parsed_nodes(html@),
{
    Document::from(html)
}

/// The length of the public field `nodes` of a `Document`.
#[verifier::external_body]
pub(crate) fn node_count(doc: &Document) -> (count: usize)
    ensures
        count == doc_nodes(*doc).len(),
{
    doc.nodes.len()
}

/// `Document::nth` and `Node::is` with the predicate `Name`: whether the
/// page has a node at `at` and that node is an element named `tag`.
#[verifier::external_body]
pub(crate) fn node_is(doc: &Document, at: usize, tag: &str) -> (named: bool)
    ensures
        named == (at < doc_nodes(*doc).len() && has_tag(doc_nodes(*doc)[at as int], tag@)),
{
    doc.nth(at).map_or(false, |node| node.is(Name(tag)))
}

/// `Document::nth` and `Node::text`: the text of the node at `at` and of
/// everything below it, or `None` where the page has no such node.
/// `Node::text` walks the links below the node, which ends on a forest.
#[verifier::external_body]
pub(crate) fn node_text(doc: &Document, at: usize) -> (text: Option<String>)
    requires
        well_linked(*doc),
    ensures
        text is Some <==> at < doc_nodes(*doc).len(),
        text matches Some(t) ==> t@ == doc_nodes(*doc)[at as int].text,
{
    doc.nth(at).map(|node| node.text())
}

/// `Document::nth` and `Node::children`: the positions of the children of
/// the node at `at`, first child first; none where the page has no such
/// node. `Node::children` follows the sibling links, which ends on a forest.
#[verifier::external_body]
pub(crate) fn node_children(doc: &Document, at: usize) -> (children: Vec<usize>)
    requires
        well_linked(*doc),
    ensures
        at < doc_nodes(*doc).len() ==> children@ == doc_nodes(*doc)[at as int].children,
        at >= doc_nodes(*doc).len() ==> children@.len() == 0,
{
    doc.nth(at).map_or(Vec::new(), |node| node.children().map(|child| child.index()).collect())
}

/// Whether `found` lists the positions of the elements named `tag`, every
/// one of them, in rising order.
pub open spec fn lists_named(found: Seq<usize>, nodes: Seq<NodeView>, tag: Seq<char>) -> bool {
    &&& forall|k: int|
        0 <= k < found.len() ==> #[trigger] found[k] < nodes.len() && has_tag(
            nodes[found[k] as int],
            tag,
        )
    &&& forall|j: int, k: int| 0 <= j < k < found.len() ==> found[j] < found[k]
    &&& forall|at: int|
        0 <= at < nodes.len() && has_tag(#[trigger] nodes[at], tag) ==> exists|k: int|
            0 <= k < found.len() && #[trigger] found[k] == at
}

/// `Document::find` with the predicate `Name`: the positions of the
/// elements named `tag`, every one of them, in rising order.
#[verifier::external_body]
pub(crate) fn find_by_name(doc: &Document, tag: &str) -> (found: Vec<usize>)
    ensures
        lists_named(found@, doc_nodes(*doc), tag@),
{
    doc.find(Name(tag)).map(|node| node.index()).collect()
}

/// Parses a page. The text must be short enough for the parser;
/// [`try_read_document`] tests that first.
pub fn read_document(html: &str) -> (doc: Document)
    requires
        parsable(html),
    ensures
        well_linked(doc),
        doc_nodes(doc) == parsed_nodes(html@),
{
    document_from(html)
}

/// Parses a page where the text is short enough for the parser, and
/// returns `None` where it is longer.
pub fn try_read_document(html: &str) -> (r: Option<Document>)
    ensures
        r is Some <==> parsable(html),
        r matches Some(doc) ==> well_linked(doc) && doc_nodes(doc) == parsed_nodes(html@),
{
    if html.as_bytes().len() <= 0x2aaa_aaaa {
        Some(read_document(html))
    } else {
        None
    }
}

} // verus!
