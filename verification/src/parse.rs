//! Cutting a page into raw records, one per documented entity.

use vstd::prelude::*;
use select::document::Document;
use crate::boundary::{boundary, find_boundary};
use crate::document::{doc_nodes, has_tag, node_count, node_is, node_text, well_linked, NodeView};
use crate::table::{child_texts, read_child_texts, read_table_rows, table_rows};
use crate::text::strip_prefix;

verus! {

/// A type as the page shows it: strings only.
#[derive(Debug, PartialEq, Eq, Hash, Clone)]
pub struct TypeSpec {
    /// The heading: the type's name.
    pub h4: String,
    /// The paragraphs under the heading, joined; `None` where there is none.
    pub p: Option<String>,
    /// The rows of the tables under the heading, each a list of cells.
    pub table: Vec<Vec<String>>,
}

/// The longer name of [`TypeSpec`].
pub type TypeSpecification = TypeSpec;

/// The mathematical value of a [`TypeSpec`].
pub struct TypeSpecView {
    pub h4: Seq<char>,
    pub p: Option<Seq<char>>,
    pub table: Seq<Seq<Seq<char>>>,
}

impl View for TypeSpec {
    type V = TypeSpecView;

    open spec fn view(&self) -> TypeSpecView {
        TypeSpecView { h4: self.h4@, p: self.p.deep_view(), table: self.table.deep_view() }
    }
}

impl DeepView for TypeSpec {
    type V = TypeSpecView;

    open spec fn deep_view(&self) -> TypeSpecView {
        self@
    }
}

/// A release as the page shows it: strings only.
#[derive(Debug, PartialEq, Eq, Hash, Clone)]
pub struct Change {
    /// The heading: the date.
    pub h4: String,
    /// The paragraphs that name the version, joined; `None` where there is none.
    pub p: Option<String>,
    /// The items of the lists under the heading.
    pub ul: Vec<String>,
}

/// The mathematical value of a [`Change`].
pub struct RawChangeView {
    pub h4: Seq<char>,
    pub p: Option<Seq<char>>,
    pub ul: Seq<Seq<char>>,
}

impl View for Change {
    type V = RawChangeView;

    open spec fn view(&self) -> RawChangeView {
        RawChangeView { h4: self.h4@, p: self.p.deep_view(), ul: self.ul.deep_view() }
    }
}

impl DeepView for Change {
    type V = RawChangeView;

    open spec fn deep_view(&self) -> RawChangeView {
        self@
    }
}

/// Why a page could not be cut.
#[derive(Debug, PartialEq, Eq, Hash, Clone, Copy)]
pub enum ParseError {
    /// The page lacks the node that opens the section or the one that closes it.
    BoundaryNotFound,
}

/// A description with `text` joined to it.
pub open spec fn joined(p: Option<Seq<char>>, text: Seq<char>) -> Option<Seq<char>> {
    match p {
        None => Some(text),
        Some(before) => Some(before + text),
    }
}

/// The records with a new one for `heading` behind them.
pub open spec fn opened(records: Seq<TypeSpecView>, heading: Seq<char>) -> Seq<TypeSpecView> {
    records.push(TypeSpecView { h4: heading, p: None, table: Seq::empty() })
}

/// The records with `text` joined to the last one's description; unchanged
/// where there is no record yet.
pub open spec fn described(records: Seq<TypeSpecView>, text: Seq<char>) -> Seq<TypeSpecView> {
    if records.len() == 0 {
        records
    } else {
        let last = records.last();
        records.drop_last().push(TypeSpecView { p: joined(last.p, text), ..last })
    }
}

/// The records with `rows` behind the last one's rows; unchanged where there
/// is no record yet.
pub open spec fn tabled(records: Seq<TypeSpecView>, rows: Seq<Seq<Seq<char>>>) -> Seq<
    TypeSpecView,
> {
    if records.len() == 0 {
        records
    } else {
        let last = records.last();
        records.drop_last().push(TypeSpecView { table: last.table + rows, ..last })
    }
}

/// Opens a record for a heading.
pub fn open_record(records: &mut Vec<TypeSpec>, heading: String)
    ensures
        final(records).deep_view() == opened(old(records).deep_view(), heading@),
{
    let table: Vec<Vec<String>> = Vec::new();
    assert(table.deep_view() =~= Seq::empty());
    records.push(TypeSpec { h4: heading, p: None, table });
    assert(records.deep_view() =~= opened(old(records).deep_view(), heading@));
}

/// Joins a paragraph to the description of the open record. A paragraph
/// that comes before any record is dropped, and `false` returned.
pub fn add_description(records: &mut Vec<TypeSpec>, text: String) -> (kept: bool)
    ensures
        final(records).deep_view() == described(old(records).deep_view(), text@),
        kept == (old(records)@.len() > 0),
{
    match records.pop() {
        None => {
            assert(records.deep_view() =~= old(records).deep_view());
            false
        },
        Some(last) => {
            let TypeSpec { h4, p, table } = last;
            let p = match p {
                None => text,
                Some(mut before) => {
                    before.append(text.as_str());
                    before
                },
            };
            records.push(TypeSpec { h4, p: Some(p), table });
            assert(records.deep_view() =~= described(old(records).deep_view(), text@));
            true
        },
    }
}

/// Puts rows behind those of the open record. Rows that come before any
/// record are dropped, and `false` returned.
pub fn add_rows(records: &mut Vec<TypeSpec>, rows: Vec<Vec<String>>) -> (kept: bool)
    ensures
        final(records).deep_view() == tabled(old(records).deep_view(), rows.deep_view()),
        kept == (old(records)@.len() > 0),
{
    match records.pop() {
        None => {
            assert(records.deep_view() =~= old(records).deep_view());
            false
        },
        Some(last) => {
            let TypeSpec { h4, p, mut table } = last;
            let mut more = rows;
            let ghost before = table.deep_view();
            table.append(&mut more);
            assert(table.deep_view() =~= before + rows.deep_view());
            records.push(TypeSpec { h4, p, table });
            assert(records.deep_view() =~= tabled(old(records).deep_view(), rows.deep_view()));
            true
        },
    }
}

/// The records after the node at `at` has been read: a heading opens a
/// record, a paragraph is joined to the open record's description, a table
/// puts its rows behind the open record's rows, and any other node changes
/// nothing.
pub open spec fn type_step(records: Seq<TypeSpecView>, nodes: Seq<NodeView>, at: int) -> Seq<
    TypeSpecView,
> {
    if has_tag(nodes[at], "h4"@) {
        opened(records, nodes[at].text)
    } else if has_tag(nodes[at], "p"@) {
        described(records, nodes[at].text)
    } else if has_tag(nodes[at], "table"@) {
        tabled(records, table_rows(nodes, at))
    } else {
        records
    }
}

/// The records that the positions from `start` up to `stop` stand for, read
/// in rising order. A position behind the last node stands for nothing.
pub open spec fn segment_types(nodes: Seq<NodeView>, start: int, stop: int) -> Seq<TypeSpecView>
    decreases stop - start,
{
    if stop <= start {
        Seq::empty()
    } else if stop - 1 < nodes.len() {
        type_step(segment_types(nodes, start, stop - 1), nodes, stop - 1)
    } else {
        segment_types(nodes, start, stop - 1)
    }
}

/// The records of the section "Available types": from the `h3` of that
/// text up to the `h4` "InputFile". `None` where the page lacks either.
pub open spec fn available_types(nodes: Seq<NodeView>) -> Option<Seq<TypeSpecView>> {
    match (boundary(nodes, "h3"@, "Available types"@), boundary(nodes, "h4"@, "InputFile"@)) {
        (Some(start), Some(stop)) => Some(segment_types(nodes, start, stop)),
        _ => None,
    }
}

/// Reads the records that the positions from `start` up to `stop` stand for.
pub fn read_types(doc: &Document, start: usize, stop: usize) -> (records: Vec<TypeSpec>)
    requires
        well_linked(*doc),
    ensures
        records.deep_view() == segment_types(doc_nodes(*doc), start as int, stop as int),
{
    let ghost nodes = doc_nodes(*doc);
    let count = node_count(doc);
    let mut records: Vec<TypeSpec> = Vec::new();
    let mut at: usize = start;
    assert(records.deep_view() =~= segment_types(nodes, start as int, start as int));
    while at < stop && at < count
        invariant
            start <= at,
            at <= stop || at == start,
            count == nodes.len(),
            well_linked(*doc),
            nodes == doc_nodes(*doc),
            records.deep_view() == segment_types(nodes, start as int, at as int),
        decreases stop - at,
    {
        if node_is(doc, at, "h4") {
            if let Some(heading) = node_text(doc, at) {
                open_record(&mut records, heading);
            }
        } else if node_is(doc, at, "p") {
            if let Some(text) = node_text(doc, at) {
                add_description(&mut records, text);
            }
        } else if node_is(doc, at, "table") {
            let rows = read_table_rows(doc, at);
            add_rows(&mut records, rows);
        }
        at += 1;
    }
    proof {
        lemma_segment_types_past_end(nodes, start as int, at as int, stop as int);
    }
    records
}

/// Positions behind the last node add nothing to the records.
pub proof fn lemma_segment_types_past_end(nodes: Seq<NodeView>, start: int, at: int, stop: int)
    requires
        at >= nodes.len() || at >= stop,
        start <= at,
    ensures
        stop >= at ==> segment_types(nodes, start, stop) == segment_types(nodes, start, at),
        stop <= start ==> segment_types(nodes, start, stop) == Seq::<TypeSpecView>::empty(),
    decreases stop - at,
{
    if stop > at {
        lemma_segment_types_past_end(nodes, start, at, stop - 1);
    }
}

/// Cuts the section "Available types" into one record for each type: from
/// the `h3` of that text up to the `h4` "InputFile", which has a
/// documentation of its own.
pub fn parse_available_types(doc: &Document) -> (r: Result<Vec<TypeSpec>, ParseError>)
    requires
        well_linked(*doc),
    ensures
        r matches Ok(records) ==> available_types(doc_nodes(*doc)) == Some(records.deep_view()),
        r matches Err(e) ==> available_types(doc_nodes(*doc)) is None && e
            == ParseError::BoundaryNotFound,
{
    let start = match find_boundary(doc, "h3", "Available types") {
        Some(at) => at,
        None => { return Err(ParseError::BoundaryNotFound); },
    };
    let stop = match find_boundary(doc, "h4", "InputFile") {
        Some(at) => at,
        None => { return Err(ParseError::BoundaryNotFound); },
    };
    Ok(read_types(doc, start, stop))
}

/// The releases with a new one for `heading` behind them.
pub open spec fn opened_change(records: Seq<RawChangeView>, heading: Seq<char>) -> Seq<
    RawChangeView,
> {
    records.push(RawChangeView { h4: heading, p: None, ul: Seq::empty() })
}

/// The releases with `text` joined to the last one's version line;
/// unchanged where there is no release yet.
pub open spec fn versioned(records: Seq<RawChangeView>, text: Seq<char>) -> Seq<RawChangeView> {
    if records.len() == 0 {
        records
    } else {
        let last = records.last();
        records.drop_last().push(RawChangeView { p: joined(last.p, text), ..last })
    }
}

/// The releases with `items` behind the last one's items; unchanged where
/// there is no release yet.
pub open spec fn itemized(records: Seq<RawChangeView>, items: Seq<Seq<char>>) -> Seq<
    RawChangeView,
> {
    if records.len() == 0 {
        records
    } else {
        let last = records.last();
        records.drop_last().push(RawChangeView { ul: last.ul + items, ..last })
    }
}

/// Opens a release for a heading.
pub fn open_change(records: &mut Vec<Change>, heading: String)
    ensures
        final(records).deep_view() == opened_change(old(records).deep_view(), heading@),
{
    let ul: Vec<String> = Vec::new();
    assert(ul.deep_view() =~= Seq::empty());
    records.push(Change { h4: heading, p: None, ul });
    assert(records.deep_view() =~= opened_change(old(records).deep_view(), heading@));
}

/// Joins a paragraph to the version line of the open release. A paragraph
/// that comes before any release is dropped, and `false` returned.
pub fn add_version(records: &mut Vec<Change>, text: String) -> (kept: bool)
    ensures
        final(records).deep_view() == versioned(old(records).deep_view(), text@),
        kept == (old(records)@.len() > 0),
{
    match records.pop() {
        None => {
            assert(records.deep_view() =~= old(records).deep_view());
            false
        },
        Some(last) => {
            let Change { h4, p, ul } = last;
            let p = match p {
                None => text,
                Some(mut before) => {
                    before.append(text.as_str());
                    before
                },
            };
            records.push(Change { h4, p: Some(p), ul });
            assert(records.deep_view() =~= versioned(old(records).deep_view(), text@));
            true
        },
    }
}

/// Puts list items behind those of the open release. Items that come
/// before any release are dropped, and `false` returned.
pub fn add_items(records: &mut Vec<Change>, items: Vec<String>) -> (kept: bool)
    ensures
        final(records).deep_view() == itemized(old(records).deep_view(), items.deep_view()),
        kept == (old(records)@.len() > 0),
{
    match records.pop() {
        None => {
            assert(records.deep_view() =~= old(records).deep_view());
            false
        },
        Some(last) => {
            let Change { h4, p, mut ul } = last;
            let mut more = items;
            let ghost before = ul.deep_view();
            ul.append(&mut more);
            assert(ul.deep_view() =~= before + items.deep_view());
            records.push(Change { h4, p, ul });
            assert(records.deep_view() =~= itemized(old(records).deep_view(), items.deep_view()));
            true
        },
    }
}

/// The releases after the node at `at` has been read: a heading opens a
/// release, a paragraph that opens with "Bot API" is joined to the open
/// release's version line, a list puts the texts of its `li` children
/// behind the open release's items, and any other node changes nothing.
pub open spec fn change_step(records: Seq<RawChangeView>, nodes: Seq<NodeView>, at: int) -> Seq<
    RawChangeView,
> {
    if has_tag(nodes[at], "h4"@) {
        opened_change(records, nodes[at].text)
    } else if has_tag(nodes[at], "p"@) && "Bot API"@.is_prefix_of(nodes[at].text) {
        versioned(records, nodes[at].text)
    } else if has_tag(nodes[at], "ul"@) {
        itemized(records, child_texts(nodes, at, "li"@))
    } else {
        records
    }
}

/// The releases that the positions from `start` up to `stop` stand for,
/// read in rising order. A position behind the last node stands for nothing.
pub open spec fn segment_changes(nodes: Seq<NodeView>, start: int, stop: int) -> Seq<
    RawChangeView,
>
    decreases stop - start,
{
    if stop <= start {
        Seq::empty()
    } else if stop - 1 < nodes.len() {
        change_step(segment_changes(nodes, start, stop - 1), nodes, stop - 1)
    } else {
        segment_changes(nodes, start, stop - 1)
    }
}

/// The releases of the section "Recent changes": from the `h3` of that text
/// up to the link to the earlier changes. `None` where the page lacks either.
pub open spec fn recent_changes_section(nodes: Seq<NodeView>) -> Option<Seq<RawChangeView>> {
    match (
        boundary(nodes, "h3"@, "Recent changes"@),
        boundary(nodes, "a"@, "See earlier changes »"@),
    ) {
        (Some(start), Some(stop)) => Some(segment_changes(nodes, start, stop)),
        _ => None,
    }
}

/// Positions behind the last node add nothing to the releases.
pub proof fn lemma_segment_changes_past_end(nodes: Seq<NodeView>, start: int, at: int, stop: int)
    requires
        at >= nodes.len() || at >= stop,
        start <= at,
    ensures
        stop >= at ==> segment_changes(nodes, start, stop) == segment_changes(nodes, start, at),
        stop <= start ==> segment_changes(nodes, start, stop) == Seq::<RawChangeView>::empty(),
    decreases stop - at,
{
    if stop > at {
        lemma_segment_changes_past_end(nodes, start, at, stop - 1);
    }
}

/// Reads the releases that the positions from `start` up to `stop` stand for.
pub fn read_changes(doc: &Document, start: usize, stop: usize) -> (records: Vec<Change>)
    requires
        well_linked(*doc),
    ensures
        records.deep_view() == segment_changes(doc_nodes(*doc), start as int, stop as int),
{
    let ghost nodes = doc_nodes(*doc);
    let count = node_count(doc);
    let mut records: Vec<Change> = Vec::new();
    let mut at: usize = start;
    assert(records.deep_view() =~= segment_changes(nodes, start as int, start as int));
    while at < stop && at < count
        invariant
            start <= at,
            at <= stop || at == start,
            count == nodes.len(),
            well_linked(*doc),
            nodes == doc_nodes(*doc),
            records.deep_view() == segment_changes(nodes, start as int, at as int),
        decreases stop - at,
    {
        if node_is(doc, at, "h4") {
            if let Some(heading) = node_text(doc, at) {
                open_change(&mut records, heading);
            }
        } else if node_is(doc, at, "p") && names_version(doc, at) {
            if let Some(text) = node_text(doc, at) {
                add_version(&mut records, text);
            }
        } else if node_is(doc, at, "ul") {
            let items = read_child_texts(doc, at, "li");
            add_items(&mut records, items);
        }
        at += 1;
    }
    proof {
        lemma_segment_changes_past_end(nodes, start as int, at as int, stop as int);
    }
    records
}

/// Whether the text of the node at `at` opens with "Bot API".
pub(crate) fn names_version(doc: &Document, at: usize) -> (named: bool)
    requires
        well_linked(*doc),
    ensures
        named == (at < doc_nodes(*doc).len() && "Bot API"@.is_prefix_of(
            doc_nodes(*doc)[at as int].text,
        )),
{
    match node_text(doc, at) {
        Some(text) => strip_prefix(text.as_str(), "Bot API").is_some(),
        None => false,
    }
}

/// Cuts the section "Recent changes" into one record for each release: from
/// the `h3` of that text up to the link to the earlier changes.
pub fn parse_recent_changes(doc: Document) -> (r: Result<Vec<Change>, ParseError>)
    requires
        well_linked(doc),
    ensures
        r matches Ok(records) ==> recent_changes_section(doc_nodes(doc)) == Some(
            records.deep_view(),
        ),
        r matches Err(e) ==> recent_changes_section(doc_nodes(doc)) is None && e
            == ParseError::BoundaryNotFound,
{
    let start = match find_boundary(&doc, "h3", "Recent changes") {
        Some(at) => at,
        None => { return Err(ParseError::BoundaryNotFound); },
    };
    let stop = match find_boundary(&doc, "a", "See earlier changes »") {
        Some(at) => at,
        None => { return Err(ParseError::BoundaryNotFound); },
    };
    Ok(read_changes(&doc, start, stop))
}

/// A page that lacks the opening or the closing boundary of a section has
/// no records for it, not even those that a part of the section would give.
pub proof fn lemma_missing_boundary(nodes: Seq<NodeView>)
    ensures
        boundary(nodes, "h3"@, "Available types"@) is None || boundary(
            nodes,
            "h4"@,
            "InputFile"@,
        ) is None <==> available_types(nodes) is None,
        boundary(nodes, "h3"@, "Recent changes"@) is None || boundary(
            nodes,
            "a"@,
            "See earlier changes »"@,
        ) is None <==> recent_changes_section(nodes) is None,
{
}

} // verus!
