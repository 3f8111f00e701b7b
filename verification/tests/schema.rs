use tgslib::parse::TypeSpec;
use tgslib::transform::{
    has_rows_of, method_from, param, params, read_required, try_method, TransformError,
};
use tgslib::{primitives, Method, Param, Primitive, Required};

fn row(cells: &[&str]) -> Vec<String> {
    cells.iter().map(|cell| String::from(*cell)).collect()
}

#[test]
fn kinds_in_the_order_of_declaration() {
    assert_eq!(
        primitives(),
        vec![
            "I32", "I64", "F32", "String", "Bool", "True", "Struct", "Array", "Option", "ChatId",
            "ParseMode", "InputFile",
        ]
    );
}

#[test]
fn every_kind_is_listed() {
    let samples = vec![
        Primitive::I32,
        Primitive::I64,
        Primitive::F32,
        Primitive::String,
        Primitive::Bool,
        Primitive::True,
        Primitive::Struct { name: String::from("User") },
        Primitive::Array(Box::new(Primitive::I32)),
        Primitive::Option(Box::new(Primitive::I32)),
        Primitive::ChatId,
        Primitive::ParseMode,
        Primitive::InputFile,
    ];
    let names = primitives();
    assert_eq!(samples.len(), names.len());
    for (sample, name) in samples.iter().zip(names.iter()) {
        assert_eq!(sample.kind(), *name);
    }
}

#[test]
fn marker_of_a_parameter() {
    assert_eq!(read_required("Optional"), Required::Optional);
    assert_eq!(read_required("Yes"), Required::Yes);
    assert_eq!(read_required("optional"), Required::Yes);
    assert_eq!(read_required(""), Required::Yes);
}

#[test]
fn a_row_of_four_cells_is_a_parameter() {
    assert_eq!(
        param(row(&["chat_id", "Integer or String", "Yes", "Target chat", "extra"])),
        Param {
            name: String::from("chat_id"),
            ty: Primitive::ChatId,
            required: Required::Yes,
            descr: String::from("Target chat"),
        }
    );
    assert_eq!(
        param(row(&["offset", "Integer", "Optional", "Optional. A 64-bit offset"])),
        Param {
            name: String::from("offset"),
            ty: Primitive::Option(Box::new(Primitive::I64)),
            required: Required::Optional,
            descr: String::from("A 64-bit offset"),
        }
    );
}

#[test]
fn parameters_keep_the_order_of_the_rows() {
    let made = params(vec![
        row(&["b", "Boolean", "Yes", "second letter"]),
        row(&["a", "Float number", "Optional", "first letter"]),
    ]);
    assert_eq!(made.len(), 2);
    assert_eq!(made[0].name, "b");
    assert_eq!(made[0].ty, Primitive::Bool);
    assert_eq!(made[1].name, "a");
    assert_eq!(made[1].ty, Primitive::F32);
    assert_eq!(params(vec![]), Vec::<Param>::new());
}

fn send_message() -> TypeSpec {
    TypeSpec {
        h4: String::from("sendMessage"),
        p: Some(String::from("Use this method to send text messages.")),
        table: vec![
            row(&["chat_id", "Integer or String", "Yes", "Target chat"]),
            row(&["parse_mode", "String", "Optional", "Send Markdown or HTML"]),
        ],
    }
}

#[test]
fn a_record_of_four_cell_rows_is_a_method() {
    let returns = Primitive::Struct { name: String::from("Message") };
    let made = Method {
        name: String::from("sendMessage"),
        descr: String::from("Use this method to send text messages."),
        params: vec![
            Param {
                name: String::from("chat_id"),
                ty: Primitive::ChatId,
                required: Required::Yes,
                descr: String::from("Target chat"),
            },
            Param {
                name: String::from("parse_mode"),
                ty: Primitive::ParseMode,
                required: Required::Optional,
                descr: String::from("Send Markdown or HTML"),
            },
        ],
        return_ty: returns.clone(),
    };
    assert_eq!(method_from(send_message(), returns.clone()), made);
    assert_eq!(try_method(send_message(), returns), Ok(made));
}

#[test]
fn a_parameter_row_of_three_cells_is_malformed() {
    let mut record = send_message();
    record.table.push(row(&["text", "String", "Yes"]));
    assert_eq!(try_method(record, Primitive::True), Err(TransformError::MalformedRow));
}

#[test]
fn rows_are_counted_against_the_cells_asked_for() {
    let table = vec![row(&["a", "b", "c"]), row(&["a", "b", "c", "d"])];
    assert!(has_rows_of(&table, 0));
    assert!(has_rows_of(&table, 3));
    assert!(!has_rows_of(&table, 4));
    assert!(has_rows_of(&vec![], 9));
}
