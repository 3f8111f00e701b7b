//! From raw records to the typed schema.

use vstd::prelude::*;
use crate::boundary::{boundary, lemma_boundary_is_first};
use crate::document::{has_tag, NodeView};
use crate::headings::{headings_between, lemma_headings_behind, lemma_one_record_per_heading};
use crate::parse;
use crate::parse::{available_types, RawChangeView, TypeSpec, TypeSpecView};
use crate::schema::{
    Change, ChangeView, Field, FieldView, Method, MethodView, Param, ParamView, Primitive,
    PrimitiveView, Required, Type, TypeView,
};
use crate::text::{contains, occurs_in, same_text, strip_prefix};

verus! {

/// Whether a description opens with the marker of an optional field,
/// "Optional. ", which is ten characters long.
pub open spec fn marked_optional(descr: Seq<char>) -> bool {
    descr.len() >= 10 && descr.take(10) == "Optional. "@
}

/// A description without the markers of optional fields that open it.
pub open spec fn clean_description(descr: Seq<char>) -> Seq<char>
    decreases descr.len(),
{
    if marked_optional(descr) {
        clean_description(descr.skip(10))
    } else {
        descr
    }
}

/// What a type text means once no prefix is left to strip.
pub open spec fn resolve_leaf(name: Seq<char>, ty: Seq<char>, descr: Seq<char>) -> PrimitiveView {
    if ty == "Integer"@ {
        if occurs_in("64"@, descr) {
            PrimitiveView::I64
        } else {
            PrimitiveView::I32
        }
    } else if ty == "String"@ {
        if name == "parse_mode"@ {
            PrimitiveView::ParseMode
        } else {
            PrimitiveView::String
        }
    } else if ty == "Boolean"@ {
        PrimitiveView::Bool
    } else if ty == "True"@ {
        PrimitiveView::True
    } else if ty == "Integer or String"@ {
        PrimitiveView::ChatId
    } else if ty == "Float"@ || ty == "Float number"@ {
        PrimitiveView::F32
    } else if ty == "InputFile or String"@ {
        PrimitiveView::InputFile
    } else {
        PrimitiveView::Struct { name: ty }
    }
}

/// What a table cell `ty` means for the field `name` described by `descr`.
///
/// The first rule that applies decides. A description marked optional loses
/// the marker and wraps the rest in `Option`. A type text that opens with a
/// space loses that space. A type text that opens with "Array of " is read
/// on from its ninth character, the space, and wrapped in `Array`. Anything
/// else is a leaf.
pub open spec fn resolve(name: Seq<char>, ty: Seq<char>, descr: Seq<char>) -> PrimitiveView
    decreases descr.len(), ty.len(),
{
    if marked_optional(descr) {
        PrimitiveView::Option(Box::new(resolve(name, ty, descr.skip(10))))
    } else if ty.len() >= 1 && ty[0] == ' ' {
        resolve(name, ty.skip(1), descr)
    } else if ty.len() >= 9 && ty.take(9) == "Array of "@ {
        PrimitiveView::Array(Box::new(resolve(name, ty.skip(8), descr)))
    } else {
        resolve_leaf(name, ty, descr)
    }
}

/// Reads a type text that no rule on prefixes applies to.
pub fn parse_leaf(name: &str, ty: &str, descr: &str) -> (r: Primitive)
    ensures
        r@ == resolve_leaf(name@, ty@, descr@),
{
    if same_text(ty, "Integer") {
        if contains(descr, "64") {
            Primitive::I64
        } else {
            Primitive::I32
        }
    } else if same_text(ty, "String") {
        if same_text(name, "parse_mode") {
            Primitive::ParseMode
        } else {
            Primitive::String
        }
    } else if same_text(ty, "Boolean") {
        Primitive::Bool
    } else if same_text(ty, "True") {
        Primitive::True
    } else if same_text(ty, "Integer or String") {
        Primitive::ChatId
    } else if same_text(ty, "Float") || same_text(ty, "Float number") {
        Primitive::F32
    } else if same_text(ty, "InputFile or String") {
        Primitive::InputFile
    } else {
        Primitive::Struct { name: ty.to_owned() }
    }
}

/// Reads the type of the field `name` from its type text and its
/// description, and takes the markers of optional fields off the description.
pub fn parse_type(name: &str, ty: &str, descr: &mut String) -> (r: Primitive)
    ensures
        r@ == resolve(name@, ty@, old(descr)@),
        final(descr)@ == clean_description(old(descr)@),
    decreases old(descr)@.len(), ty@.len(),
{
    proof {
        reveal_strlit("Optional. ");
        reveal_strlit(" ");
        reveal_strlit("Array of");
        reveal_strlit("Array of ");
    }
    if let Some(rest) = strip_prefix(descr.as_str(), "Optional. ") {
        let stripped = rest.to_owned();
        *descr = stripped;
        return Primitive::Option(Box::new(parse_type(name, ty, descr)));
    }
    if let Some(rest) = strip_prefix(ty, " ") {
        assert(ty@[0] == ty@.subrange(0, 1)[0]);
        return parse_type(name, rest, descr);
    }
    if let Some(tail) = strip_prefix(ty, "Array of") {
        if strip_prefix(tail, " ").is_some() {
            assert(ty@.take(9) =~= "Array of "@) by {
                assert(tail@[0] == tail@.subrange(0, 1)[0]);
                assert forall|i: int| 0 <= i < 8 implies ty@[i] == "Array of "@[i] by {
                    assert(ty@[i] == ty@.subrange(0, 8)[i]);
                }
            }
            return Primitive::Array(Box::new(parse_type(name, tail, descr)));
        }
        assert(!(ty@.len() >= 9 && ty@.take(9) == "Array of "@)) by {
            if ty@.len() >= 9 && ty@.take(9) == "Array of "@ {
                assert(tail@[0] == ty@.take(9)[8]);
                assert(" "@ =~= tail@.subrange(0, 1));
            }
        }
    } else {
        assert(!(ty@.len() >= 9 && ty@.take(9) == "Array of "@)) by {
            if ty@.len() >= 9 && ty@.take(9) == "Array of "@ {
                assert("Array of"@ =~= ty@.take(9).subrange(0, 8));
                assert("Array of"@ =~= ty@.subrange(0, 8));
            }
        }
    }
    parse_leaf(name, ty, descr.as_str())
}

/// The text of a description, empty where there is none.
pub open spec fn text_or_empty(p: Option<Seq<char>>) -> Seq<char> {
    match p {
        Some(text) => text,
        None => Seq::empty(),
    }
}

/// The field that a row stands for: its first three cells are the name,
/// the type text and the description.
pub open spec fn field_of(row: Seq<Seq<char>>) -> FieldView {
    FieldView {
        name: row[0],
        ty: resolve(row[0], row[1], row[2]),
        descr: clean_description(row[2]),
    }
}

/// The type that a record stands for.
pub open spec fn type_of(record: TypeSpecView) -> TypeView {
    TypeView {
        name: record.h4,
        descr: text_or_empty(record.p),
        fields: record.table.map_values(|row: Seq<Seq<char>>| field_of(row)),
    }
}

/// The types that records stand for, one each, in their order.
pub open spec fn types_of(records: Seq<TypeSpecView>) -> Seq<TypeView> {
    records.map_values(|record: TypeSpecView| type_of(record))
}

/// Whether every row has `cells` cells or more.
pub open spec fn rows_have(table: Seq<Seq<Seq<char>>>, cells: nat) -> bool {
    forall|j: int| 0 <= j < table.len() ==> (#[trigger] table[j]).len() >= cells
}

/// Whether every row has the three cells of a field.
pub open spec fn rows_complete(table: Seq<Seq<Seq<char>>>) -> bool {
    rows_have(table, 3)
}

/// Whether every row of every record has the three cells of a field.
pub open spec fn records_complete(records: Seq<TypeSpecView>) -> bool {
    forall|i: int| 0 <= i < records.len() ==> rows_complete((#[trigger] records[i]).table)
}

/// Reads one row as a field. Cells behind the third are left out.
pub fn field(row: Vec<String>) -> (r: Field)
    requires
        row@.len() >= 3,
    ensures
        r@ == field_of(row.deep_view()),
{
    let mut row = row;
    let ghost cells = row.deep_view();
    let name = row.remove(0);
    let ty = row.remove(0);
    let mut descr = row.remove(0);
    assert(name@ == cells[0] && ty@ == cells[1] && descr@ == cells[2]);
    let ty = parse_type(name.as_str(), ty.as_str(), &mut descr);
    Field { name, ty, descr }
}

/// Reads the rows of a table as fields, in their order.
pub fn fields(table: Vec<Vec<String>>) -> (r: Vec<Field>)
    requires
        rows_complete(table.deep_view()),
    ensures
        r.deep_view() == table.deep_view().map_values(|row: Seq<Seq<char>>| field_of(row)),
{
    let ghost rows = table@;
    let ghost wanted = table.deep_view().map_values(|row: Seq<Seq<char>>| field_of(row));
    let mut out: Vec<Field> = Vec::new();
    assert(out.deep_view() =~= wanted.take(0));
    assert forall|j: int| 0 <= j < rows.len() implies (#[trigger] rows[j])@.len() >= 3 by {
        assert(table.deep_view()[j].len() == rows[j]@.len());
    }
    for row in it: table.into_iter()
        invariant
            it.seq() == rows,
            wanted.len() == rows.len(),
            forall|j: int| 0 <= j < rows.len() ==> (#[trigger] rows[j])@.len() >= 3,
            forall|j: int|
                0 <= j < rows.len() ==> wanted[j] == field_of(#[trigger] rows[j].deep_view()),
            out.deep_view() == wanted.take(it.index() as int),
    {
        let ghost k = it.index() as int;
        let ghost kept = out.deep_view();
        let made = field(row);
        out.push(made);
        assert(out.deep_view() =~= kept.push(made@));
        assert(wanted.take(k + 1) =~= wanted.take(k).push(wanted[k]));
    }
    assert(wanted.take(rows.len() as int) =~= wanted);
    out
}

/// Reads one record as a type.
pub fn type_from(record: TypeSpec) -> (r: Type)
    requires
        rows_complete(record@.table),
    ensures
        r@ == type_of(record@),
{
    let TypeSpec { h4, p, table } = record;
    let descr = match p {
        Some(text) => text,
        None => String::new(),
    };
    Type { name: h4, descr, fields: fields(table) }
}

/// Reads the records as types, one each, in their order. Every row must
/// have the three cells of a field; [`try_types`] tests that first.
pub fn types(specs: Vec<TypeSpec>) -> (r: Vec<Type>)
    requires
        records_complete(specs.deep_view()),
    ensures
        r.deep_view() == types_of(specs.deep_view()),
{
    let ghost records = specs@;
    let ghost wanted = types_of(specs.deep_view());
    let mut out: Vec<Type> = Vec::new();
    assert(out.deep_view() =~= wanted.take(0));
    assert forall|i: int| 0 <= i < records.len() implies rows_complete(
        (#[trigger] records[i])@.table,
    ) by {
        assert(specs.deep_view()[i] == records[i]@);
    }
    for record in it: specs.into_iter()
        invariant
            it.seq() == records,
            wanted.len() == records.len(),
            forall|i: int| 0 <= i < records.len() ==> rows_complete((#[trigger] records[i])@.table),
            forall|i: int| 0 <= i < records.len() ==> wanted[i] == type_of(#[trigger] records[i]@),
            out.deep_view() == wanted.take(it.index() as int),
    {
        let ghost k = it.index() as int;
        let ghost kept = out.deep_view();
        let made = type_from(record);
        out.push(made);
        assert(out.deep_view() =~= kept.push(made@));
        assert(wanted.take(k + 1) =~= wanted.take(k).push(wanted[k]));
    }
    assert(wanted.take(records.len() as int) =~= wanted);
    out
}

/// Why records could not be read as types.
#[derive(Debug, PartialEq, Eq, Hash, Clone, Copy)]
pub enum TransformError {
    /// A row has fewer cells than a field needs.
    MalformedRow,
}

/// Tests whether every row of a table has `cells` cells or more.
pub fn has_rows_of(table: &Vec<Vec<String>>, cells: usize) -> (complete: bool)
    ensures
        complete == rows_have(table.deep_view(), cells as nat),
{
    let mut j: usize = 0;
    while j < table.len()
        invariant
            j <= table@.len(),
            forall|i: int| 0 <= i < j ==> (#[trigger] table.deep_view()[i]).len() >= cells,
        decreases table@.len() - j,
    {
        if table[j].len() < cells {
            assert(table.deep_view()[j as int].len() < cells);
            return false;
        }
        assert(table.deep_view()[j as int].len() >= cells);
        j += 1;
    }
    true
}

/// Tests whether every row of a table has the three cells of a field.
pub fn has_complete_rows(table: &Vec<Vec<String>>) -> (complete: bool)
    ensures
        complete == rows_complete(table.deep_view()),
{
    has_rows_of(table, 3)
}

/// Tests whether every row of every record has the three cells of a field.
pub fn has_complete_records(specs: &Vec<TypeSpec>) -> (complete: bool)
    ensures
        complete == records_complete(specs.deep_view()),
{
    let mut i: usize = 0;
    while i < specs.len()
        invariant
            i <= specs@.len(),
            forall|k: int| 0 <= k < i ==> rows_complete((#[trigger] specs.deep_view()[k]).table),
        decreases specs@.len() - i,
    {
        if !has_complete_rows(&specs[i].table) {
            assert(!rows_complete(specs.deep_view()[i as int].table));
            return false;
        }
        assert(rows_complete(specs.deep_view()[i as int].table));
        i += 1;
    }
    true
}

/// Reads the records as types where every row has the three cells of a
/// field, and reports a malformed row where one has not.
pub fn try_types(specs: Vec<TypeSpec>) -> (r: Result<Vec<Type>, TransformError>)
    ensures
        r matches Ok(made) ==> records_complete(specs.deep_view()) && made.deep_view() == types_of(
            specs.deep_view(),
        ),
        r matches Err(e) ==> !records_complete(specs.deep_view()) && e
            == TransformError::MalformedRow,
{
    if has_complete_records(&specs) {
        Ok(types(specs))
    } else {
        Err(TransformError::MalformedRow)
    }
}

/// The release that a raw record stands for.
pub open spec fn change_of(record: RawChangeView) -> ChangeView {
    ChangeView { date: record.h4, version: text_or_empty(record.p), changes: record.ul }
}

/// The releases that raw records stand for, one each, in their order.
pub open spec fn changes_of(records: Seq<RawChangeView>) -> Seq<ChangeView> {
    records.map_values(|record: RawChangeView| change_of(record))
}

/// Reads the raw records as releases, one each, in their order.
pub fn recent_changes(specs: Vec<parse::Change>) -> (r: Vec<Change>)
    ensures
        r.deep_view() == changes_of(specs.deep_view()),
{
    let ghost records = specs@;
    let ghost wanted = changes_of(specs.deep_view());
    let mut out: Vec<Change> = Vec::new();
    assert(out.deep_view() =~= wanted.take(0));
    for record in it: specs.into_iter()
        invariant
            it.seq() == records,
            wanted.len() == records.len(),
            forall|i: int|
                0 <= i < records.len() ==> wanted[i] == change_of(#[trigger] records[i]@),
            out.deep_view() == wanted.take(it.index() as int),
    {
        let ghost k = it.index() as int;
        let ghost kept = out.deep_view();
        let parse::Change { h4, p, ul } = record;
        let version = match p {
            Some(text) => text,
            None => String::new(),
        };
        let made = Change { date: h4, version, changes: ul };
        assert(made@ == change_of(record@));
        assert(record == records[k]);
        out.push(made);
        assert(out.deep_view() =~= kept.push(made@));
        assert(wanted.take(k + 1) =~= wanted.take(k).push(wanted[k]));
    }
    assert(wanted.take(records.len() as int) =~= wanted);
    out
}

/// Cleaning a description twice is cleaning it once: a cleaned description
/// is not marked optional, a description that is not marked optional is
/// clean, and what it resolves to is no `Option`.
pub proof fn lemma_clean_description_idempotent(name: Seq<char>, ty: Seq<char>, descr: Seq<char>)
    ensures
        !marked_optional(clean_description(descr)),
        clean_description(clean_description(descr)) == clean_description(descr),
        !marked_optional(descr) ==> clean_description(descr) == descr,
        !(resolve(name, ty, clean_description(descr)) is Option),
    decreases descr.len(),
{
    if marked_optional(descr) {
        lemma_clean_description_idempotent(name, ty, descr.skip(10));
    } else {
        lemma_resolve_plain(name, ty, descr);
    }
}

/// A description that is not marked optional resolves to no `Option`.
pub proof fn lemma_resolve_plain(name: Seq<char>, ty: Seq<char>, descr: Seq<char>)
    requires
        !marked_optional(descr),
    ensures
        !(resolve(name, ty, descr) is Option),
    decreases ty.len(),
{
    if ty.len() >= 1 && ty[0] == ' ' {
        lemma_resolve_plain(name, ty.skip(1), descr);
    }
}

/// "Array of Array of Integer" is an array of arrays of 32-bit integers,
/// whatever the field's name, where the description is not marked optional
/// and does not hold "64".
pub proof fn lemma_array_of_array_of_integer(name: Seq<char>, descr: Seq<char>)
    requires
        !marked_optional(descr),
        !occurs_in("64"@, descr),
    ensures
        resolve(name, "Array of Array of Integer"@, descr) == PrimitiveView::Array(
            Box::new(PrimitiveView::Array(Box::new(PrimitiveView::I32))),
        ),
{
    reveal_strlit("Array of Array of Integer");
    reveal_strlit(" Array of Integer");
    reveal_strlit("Array of Integer");
    reveal_strlit(" Integer");
    reveal_strlit("Integer");
    reveal_strlit("Array of ");
    let t0 = "Array of Array of Integer"@;
    let t1 = " Array of Integer"@;
    let t2 = "Array of Integer"@;
    let t3 = " Integer"@;
    let t4 = "Integer"@;
    assert(t0.take(9) =~= "Array of "@);
    assert(t0.skip(8) =~= t1);
    assert(t1.skip(1) =~= t2);
    assert(t2.take(9) =~= "Array of "@);
    assert(t2.skip(8) =~= t3);
    assert(t3.skip(1) =~= t4);
    assert(resolve(name, t4, descr) == PrimitiveView::I32);
    assert(resolve(name, t3, descr) == PrimitiveView::I32);
    assert(resolve(name, t2, descr) == PrimitiveView::Array(Box::new(PrimitiveView::I32)));
    assert(resolve(name, t1, descr) == PrimitiveView::Array(Box::new(PrimitiveView::I32)));
}

/// The section "Available types" gives one type for each heading that
/// stands between its two boundaries.
pub proof fn lemma_one_type_per_heading(nodes: Seq<NodeView>)
    requires
        available_types(nodes) is Some,
    ensures
        types_of(available_types(nodes)->0).len() == headings_between(
            nodes,
            boundary(nodes, "h3"@, "Available types"@)->0 + 1,
            boundary(nodes, "h4"@, "InputFile"@)->0,
        ),
{
    let start = boundary(nodes, "h3"@, "Available types"@)->0;
    let stop = boundary(nodes, "h4"@, "InputFile"@)->0;
    lemma_boundary_is_first(nodes, "h3"@, "Available types"@);
    lemma_boundary_is_first(nodes, "h4"@, "InputFile"@);
    lemma_one_record_per_heading(nodes, start, stop);
    assert(!has_tag(nodes[start], "h4"@)) by {
        reveal_strlit("h3");
        reveal_strlit("h4");
        assert("h3"@[1] != "h4"@[1]);
    }
    if start < stop {
        lemma_headings_behind(nodes, start, stop);
    }
}

/// What the marker in a parameter's third cell says: "Optional" lets the
/// caller leave the parameter out, and any other text does not.
pub open spec fn required_of(marker: Seq<char>) -> Required {
    if marker == "Optional"@ {
        Required::Optional
    } else {
        Required::Yes
    }
}

/// The parameter that a row stands for: its first four cells are the name,
/// the type text, the marker and the description.
pub open spec fn param_of(row: Seq<Seq<char>>) -> ParamView {
    ParamView {
        name: row[0],
        ty: resolve(row[0], row[1], row[3]),
        required: required_of(row[2]),
        descr: clean_description(row[3]),
    }
}

/// The method that a record stands for, given what the method returns,
/// which the page tells in prose only.
pub open spec fn method_of(record: TypeSpecView, return_ty: PrimitiveView) -> MethodView {
    MethodView {
        name: record.h4,
        descr: text_or_empty(record.p),
        params: record.table.map_values(|row: Seq<Seq<char>>| param_of(row)),
        return_ty,
    }
}

/// Reads the marker of a parameter's third cell.
pub fn read_required(marker: &str) -> (r: Required)
    ensures
        r == required_of(marker@),
{
    if same_text(marker, "Optional") {
        Required::Optional
    } else {
        Required::Yes
    }
}

/// Reads one row as a parameter. Cells behind the fourth are left out.
pub fn param(row: Vec<String>) -> (r: Param)
    requires
        row@.len() >= 4,
    ensures
        r@ == param_of(row.deep_view()),
{
    let mut row = row;
    let ghost cells = row.deep_view();
    let name = row.remove(0);
    let ty = row.remove(0);
    let marker = row.remove(0);
    let mut descr = row.remove(0);
    assert(name@ == cells[0] && ty@ == cells[1] && marker@ == cells[2] && descr@ == cells[3]);
    let ty = parse_type(name.as_str(), ty.as_str(), &mut descr);
    let required = read_required(marker.as_str());
    Param { name, ty, required, descr }
}

/// Reads the rows of a table as parameters, in their order.
pub fn params(table: Vec<Vec<String>>) -> (r: Vec<Param>)
    requires
        rows_have(table.deep_view(), 4),
    ensures
        r.deep_view() == table.deep_view().map_values(|row: Seq<Seq<char>>| param_of(row)),
{
    let ghost rows = table@;
    let ghost wanted = table.deep_view().map_values(|row: Seq<Seq<char>>| param_of(row));
    let mut out: Vec<Param> = Vec::new();
    assert(out.deep_view() =~= wanted.take(0));
    assert forall|j: int| 0 <= j < rows.len() implies (#[trigger] rows[j])@.len() >= 4 by {
        assert(table.deep_view()[j].len() == rows[j]@.len());
    }
    for row in it: table.into_iter()
        invariant
            it.seq() == rows,
            wanted.len() == rows.len(),
            forall|j: int| 0 <= j < rows.len() ==> (#[trigger] rows[j])@.len() >= 4,
            forall|j: int|
                0 <= j < rows.len() ==> wanted[j] == param_of(#[trigger] rows[j].deep_view()),
            out.deep_view() == wanted.take(it.index() as int),
    {
        let ghost k = it.index() as int;
        let ghost kept = out.deep_view();
        let made = param(row);
        out.push(made);
        assert(out.deep_view() =~= kept.push(made@));
        assert(wanted.take(k + 1) =~= wanted.take(k).push(wanted[k]));
    }
    assert(wanted.take(rows.len() as int) =~= wanted);
    out
}

/// Reads one record as a method that returns `return_ty`. Every row must
/// have the four cells of a parameter; [`try_method`] tests that first.
pub fn method_from(record: TypeSpec, return_ty: Primitive) -> (r: Method)
    requires
        rows_have(record@.table, 4),
    ensures
        r@ == method_of(record@, return_ty@),
{
    let TypeSpec { h4, p, table } = record;
    let descr = match p {
        Some(text) => text,
        None => String::new(),
    };
    Method { name: h4, descr, params: params(table), return_ty }
}

/// Reads one record as a method that returns `return_ty` where every row
/// has the four cells of a parameter, and reports a malformed row where one
/// has not.
pub fn try_method(record: TypeSpec, return_ty: Primitive) -> (r: Result<Method, TransformError>)
    ensures
        r matches Ok(made) ==> rows_have(record@.table, 4) && made@ == method_of(
            record@,
            return_ty@,
        ),
        r matches Err(e) ==> !rows_have(record@.table, 4) && e == TransformError::MalformedRow,
{
    if has_rows_of(&record.table, 4) {
        Ok(method_from(record, return_ty))
    } else {
        Err(TransformError::MalformedRow)
    }
}

} // verus!
