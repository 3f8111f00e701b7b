//! The typed schema: entities, their fields, and the primitive type algebra.

use vstd::prelude::*;

verus! {

/// A type descriptor, as the reference page's "type" column means it.
#[derive(Debug, PartialEq, Eq, Hash)]
pub enum Primitive {
    /// "Integer".
    I32,
    /// "Integer" where the prose says the value needs 64 bits.
    I64,
    /// "Float" and "Float number".
    F32,
    /// "String".
    String,
    /// "Boolean".
    Bool,
    /// "True": the one-value type.
    True,
    /// Any other type text: a reference, by name, to an entity of the schema.
    Struct { name: String },
    /// "Array of".
    Array(Box<Primitive>),
    /// A description that opens with "Optional. ".
    Option(Box<Primitive>),
    /// "Integer or String": a chat id or a channel user name.
    ChatId,
    /// The "String" of a `parse_mode` field.
    ParseMode,
    /// "InputFile or String".
    InputFile,
}

/// The mathematical value of a [`Primitive`].
pub enum PrimitiveView {
    I32,
    I64,
    F32,
    String,
    Bool,
    True,
    Struct { name: Seq<char> },
    Array(Box<PrimitiveView>),
    Option(Box<PrimitiveView>),
    ChatId,
    ParseMode,
    InputFile,
}

impl Primitive {
    /// The value of a descriptor, read from the leaves up.
    pub open spec fn model(self) -> PrimitiveView
        decreases self,
    {
        match self {
            Primitive::I32 => PrimitiveView::I32,
            Primitive::I64 => PrimitiveView::I64,
            Primitive::F32 => PrimitiveView::F32,
            Primitive::String => PrimitiveView::String,
            Primitive::Bool => PrimitiveView::Bool,
            Primitive::True => PrimitiveView::True,
            Primitive::Struct { name } => PrimitiveView::Struct { name: name@ },
            Primitive::Array(inner) => PrimitiveView::Array(Box::new((*inner).model())),
            Primitive::Option(inner) => PrimitiveView::Option(Box::new((*inner).model())),
            Primitive::ChatId => PrimitiveView::ChatId,
            Primitive::ParseMode => PrimitiveView::ParseMode,
            Primitive::InputFile => PrimitiveView::InputFile,
        }
    }
}

/// The name of a descriptor's kind.
pub open spec fn kind_name(ty: PrimitiveView) -> Seq<char> {
    match ty {
        PrimitiveView::I32 => "I32"@,
        PrimitiveView::I64 => "I64"@,
        PrimitiveView::F32 => "F32"@,
        PrimitiveView::String => "String"@,
        PrimitiveView::Bool => "Bool"@,
        PrimitiveView::True => "True"@,
        PrimitiveView::Struct { .. } => "Struct"@,
        PrimitiveView::Array(_) => "Array"@,
        PrimitiveView::Option(_) => "Option"@,
        PrimitiveView::ChatId => "ChatId"@,
        PrimitiveView::ParseMode => "ParseMode"@,
        PrimitiveView::InputFile => "InputFile"@,
    }
}

/// The names of the kinds of descriptors, in the order of their declaration.
pub open spec fn kind_names() -> Seq<Seq<char>> {
    seq![
        "I32"@,
        "I64"@,
        "F32"@,
        "String"@,
        "Bool"@,
        "True"@,
        "Struct"@,
        "Array"@,
        "Option"@,
        "ChatId"@,
        "ParseMode"@,
        "InputFile"@,
    ]
}

/// Every descriptor's kind is among the names of the kinds.
pub proof fn lemma_kind_is_named(ty: PrimitiveView)
    ensures
        kind_names().contains(kind_name(ty)),
{
    let names = kind_names();
    match ty {
        PrimitiveView::I32 => assert(names[0] == kind_name(ty)),
        PrimitiveView::I64 => assert(names[1] == kind_name(ty)),
        PrimitiveView::F32 => assert(names[2] == kind_name(ty)),
        PrimitiveView::String => assert(names[3] == kind_name(ty)),
        PrimitiveView::Bool => assert(names[4] == kind_name(ty)),
        PrimitiveView::True => assert(names[5] == kind_name(ty)),
        PrimitiveView::Struct { .. } => assert(names[6] == kind_name(ty)),
        PrimitiveView::Array(_) => assert(names[7] == kind_name(ty)),
        PrimitiveView::Option(_) => assert(names[8] == kind_name(ty)),
        PrimitiveView::ChatId => assert(names[9] == kind_name(ty)),
        PrimitiveView::ParseMode => assert(names[10] == kind_name(ty)),
        PrimitiveView::InputFile => assert(names[11] == kind_name(ty)),
    }
}

/// Lists the names of the kinds of descriptors.
pub fn primitives() -> (names: Vec<&'static str>)
    ensures
        names.deep_view() == kind_names(),
{
    let mut names: Vec<&'static str> = Vec::new();
    names.push("I32");
    names.push("I64");
    names.push("F32");
    names.push("String");
    names.push("Bool");
    names.push("True");
    names.push("Struct");
    names.push("Array");
    names.push("Option");
    names.push("ChatId");
    names.push("ParseMode");
    names.push("InputFile");
    assert(names.deep_view() =~= kind_names());
    names
}

impl Primitive {
    /// The name of this descriptor's kind.
    pub fn kind(&self) -> (name: &'static str)
        ensures
            name@ == kind_name(self@),
    {
        match self {
            Primitive::I32 => "I32",
            Primitive::I64 => "I64",
            Primitive::F32 => "F32",
            Primitive::String => "String",
            Primitive::Bool => "Bool",
            Primitive::True => "True",
            Primitive::Struct { .. } => "Struct",
            Primitive::Array(_) => "Array",
            Primitive::Option(_) => "Option",
            Primitive::ChatId => "ChatId",
            Primitive::ParseMode => "ParseMode",
            Primitive::InputFile => "InputFile",
        }
    }
}

impl Clone for Primitive {
    fn clone(&self) -> (copy: Self)
        ensures
            copy@ == self@,
        decreases self,
    {
        match self {
            Primitive::I32 => Primitive::I32,
            Primitive::I64 => Primitive::I64,
            Primitive::F32 => Primitive::F32,
            Primitive::String => Primitive::String,
            Primitive::Bool => Primitive::Bool,
            Primitive::True => Primitive::True,
            Primitive::Struct { name } => Primitive::Struct { name: name.clone() },
            Primitive::Array(inner) => Primitive::Array(Box::new(Primitive::clone(&**inner))),
            Primitive::Option(inner) => Primitive::Option(Box::new(Primitive::clone(&**inner))),
            Primitive::ChatId => Primitive::ChatId,
            Primitive::ParseMode => Primitive::ParseMode,
            Primitive::InputFile => Primitive::InputFile,
        }
    }
}

impl View for Primitive {
    type V = PrimitiveView;

    open spec fn view(&self) -> PrimitiveView {
        self.model()
    }
}

impl DeepView for Primitive {
    type V = PrimitiveView;

    open spec fn deep_view(&self) -> PrimitiveView {
        self@
    }
}

/// One field of a type: a row of its table.
#[derive(Debug, PartialEq, Eq, Hash, Clone)]
pub struct Field {
    pub name: String,
    pub ty: Primitive,
    pub descr: String,
}

/// The mathematical value of a [`Field`].
pub struct FieldView {
    pub name: Seq<char>,
    pub ty: PrimitiveView,
    pub descr: Seq<char>,
}

impl View for Field {
    type V = FieldView;

    open spec fn view(&self) -> FieldView {
        FieldView { name: self.name@, ty: self.ty@, descr: self.descr@ }
    }
}

impl DeepView for Field {
    type V = FieldView;

    open spec fn deep_view(&self) -> FieldView {
        self@
    }
}

/// A documented type. The fields stand in the order of the table's rows.
#[derive(Debug, PartialEq, Eq, Hash, Clone)]
pub struct Type {
    pub name: String,
    pub descr: String,
    pub fields: Vec<Field>,
}

/// The mathematical value of a [`Type`].
pub struct TypeView {
    pub name: Seq<char>,
    pub descr: Seq<char>,
    pub fields: Seq<FieldView>,
}

impl View for Type {
    type V = TypeView;

    open spec fn view(&self) -> TypeView {
        TypeView { name: self.name@, descr: self.descr@, fields: self.fields.deep_view() }
    }
}

impl DeepView for Type {
    type V = TypeView;

    open spec fn deep_view(&self) -> TypeView {
        self@
    }
}

/// One release of the API: its date, its version line, and what changed.
#[derive(Debug, PartialEq, Eq, Hash, Clone)]
pub struct Change {
    pub date: String,
    pub version: String,
    pub changes: Vec<String>,
}

/// The mathematical value of a [`Change`].
pub struct ChangeView {
    pub date: Seq<char>,
    pub version: Seq<char>,
    pub changes: Seq<Seq<char>>,
}

impl View for Change {
    type V = ChangeView;

    open spec fn view(&self) -> ChangeView {
        ChangeView {
            date: self.date@,
            version: self.version@,
            changes: self.changes.deep_view(),
        }
    }
}

impl DeepView for Change {
    type V = ChangeView;

    open spec fn deep_view(&self) -> ChangeView {
        self@
    }
}

/// Whether a method's caller has to pass a parameter.
#[derive(Debug, PartialEq, Eq, Hash, Clone, Copy)]
pub enum Required {
    Yes,
    Optional,
}

/// One parameter of a method.
#[derive(Debug, PartialEq, Eq, Hash, Clone)]
pub struct Param {
    pub name: String,
    pub ty: Primitive,
    pub required: Required,
    pub descr: String,
}

/// The mathematical value of a [`Param`].
pub struct ParamView {
    pub name: Seq<char>,
    pub ty: PrimitiveView,
    pub required: Required,
    pub descr: Seq<char>,
}

impl View for Param {
    type V = ParamView;

    open spec fn view(&self) -> ParamView {
        ParamView {
            name: self.name@,
            ty: self.ty@,
            required: self.required,
            descr: self.descr@,
        }
    }
}

impl DeepView for Param {
    type V = ParamView;

    open spec fn deep_view(&self) -> ParamView {
        self@
    }
}

/// A documented method. The parameters stand in the order of the table's rows.
#[derive(Debug, PartialEq, Eq, Hash, Clone)]
pub struct Method {
    pub name: String,
    pub descr: String,
    pub params: Vec<Param>,
    pub return_ty: Primitive,
}

/// The mathematical value of a [`Method`].
pub struct MethodView {
    pub name: Seq<char>,
    pub descr: Seq<char>,
    pub params: Seq<ParamView>,
    pub return_ty: PrimitiveView,
}

impl View for Method {
    type V = MethodView;

    open spec fn view(&self) -> MethodView {
        MethodView {
            name: self.name@,
            descr: self.descr@,
            params: self.params.deep_view(),
            return_ty: self.return_ty@,
        }
    }
}

impl DeepView for Method {
    type V = MethodView;

    open spec fn deep_view(&self) -> MethodView {
        self@
    }
}

/// Everything read from one page.
#[derive(Debug, PartialEq, Eq, Hash, Clone)]
pub struct Schema {
    pub recent_changes: Vec<Change>,
    pub types: Vec<Type>,
    pub methods: Vec<Method>,
}

/// The mathematical value of a [`Schema`].
pub struct SchemaView {
    pub recent_changes: Seq<ChangeView>,
    pub types: Seq<TypeView>,
    pub methods: Seq<MethodView>,
}

impl View for Schema {
    type V = SchemaView;

    open spec fn view(&self) -> SchemaView {
        SchemaView {
            recent_changes: self.recent_changes.deep_view(),
            types: self.types.deep_view(),
            methods: self.methods.deep_view(),
        }
    }
}

impl DeepView for Schema {
    type V = SchemaView;

    open spec fn deep_view(&self) -> SchemaView {
        self@
    }
}

} // verus!
