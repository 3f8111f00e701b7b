use tgslib::parse;
use tgslib::parse::TypeSpec;
use tgslib::transform::{
    field, fields, has_complete_records, has_complete_rows, recent_changes, try_types, type_from,
    types, TransformError,
};
use tgslib::{Change, Field, Primitive, Type};

fn row(cells: &[&str]) -> Vec<String> {
    cells.iter().map(|cell| String::from(*cell)).collect()
}

fn user() -> TypeSpec {
    TypeSpec {
        h4: String::from("User"),
        p: Some(String::from("A user or a bot.")),
        table: vec![
            row(&["id", "Integer", "Unique identifier, 64-bit"]),
            row(&["is_bot", "Boolean", "True, if this user is a bot"]),
            row(&["last_name", "String", "Optional. Last name"]),
        ],
    }
}

fn user_type() -> Type {
    Type {
        name: String::from("User"),
        descr: String::from("A user or a bot."),
        fields: vec![
            Field {
                name: String::from("id"),
                ty: Primitive::I64,
                descr: String::from("Unique identifier, 64-bit"),
            },
            Field {
                name: String::from("is_bot"),
                ty: Primitive::Bool,
                descr: String::from("True, if this user is a bot"),
            },
            Field {
                name: String::from("last_name"),
                ty: Primitive::Option(Box::new(Primitive::String)),
                descr: String::from("Last name"),
            },
        ],
    }
}

#[test]
fn one_type_for_each_record_in_order() {
    let empty = TypeSpec { h4: String::from("CallbackGame"), p: None, table: vec![] };
    let made = types(vec![user(), empty]);
    assert_eq!(
        made,
        vec![
            user_type(),
            Type { name: String::from("CallbackGame"), descr: String::new(), fields: vec![] },
        ]
    );
}

#[test]
fn no_records_no_types() {
    assert_eq!(types(vec![]), Vec::<Type>::new());
    assert_eq!(try_types(vec![]), Ok(vec![]));
}

#[test]
fn cells_behind_the_third_are_left_out() {
    let made = field(row(&["chat_id", "Integer or String", "Optional. Target", "extra", "more"]));
    assert_eq!(
        made,
        Field {
            name: String::from("chat_id"),
            ty: Primitive::Option(Box::new(Primitive::ChatId)),
            descr: String::from("Target"),
        }
    );
}

#[test]
fn field_name_decides_parse_mode() {
    let made = fields(vec![
        row(&["parse_mode", "String", "Mode"]),
        row(&["text", "String", "Text"]),
    ]);
    assert_eq!(made[0].ty, Primitive::ParseMode);
    assert_eq!(made[1].ty, Primitive::String);
    assert_eq!(made.len(), 2);
}

#[test]
fn a_record_without_description_gets_an_empty_one() {
    let made = type_from(TypeSpec { h4: String::from("T"), p: None, table: vec![] });
    assert_eq!(made, Type { name: String::from("T"), descr: String::new(), fields: vec![] });
}

#[test]
fn a_row_of_two_cells_is_malformed() {
    let short = TypeSpec {
        h4: String::from("Broken"),
        p: None,
        table: vec![row(&["id", "Integer", "fine"]), row(&["name", "String"])],
    };
    assert_eq!(try_types(vec![user(), short]), Err(TransformError::MalformedRow));
}

#[test]
fn complete_rows_are_read() {
    assert_eq!(try_types(vec![user()]), Ok(vec![user_type()]));
}

#[test]
fn completeness_tests() {
    assert!(has_complete_rows(&vec![]));
    assert!(has_complete_rows(&vec![row(&["a", "b", "c"]), row(&["a", "b", "c", "d"])]));
    assert!(!has_complete_rows(&vec![row(&["a", "b", "c"]), row(&[])]));
    assert!(!has_complete_rows(&vec![row(&["a", "b"])]));
    assert!(has_complete_records(&vec![]));
    assert!(has_complete_records(&vec![user()]));
    let short = TypeSpec { h4: String::new(), p: None, table: vec![row(&["a"])] };
    assert!(!has_complete_records(&vec![user(), short]));
}

#[test]
fn releases_keep_their_strings() {
    let raw = vec![
        parse::Change {
            h4: String::from("March 9, 2020"),
            p: Some(String::from("Bot API 4.6")),
            ul: vec![String::from("Added polls."), String::from("Added dice.")],
        },
        parse::Change { h4: String::from("January 23, 2020"), p: None, ul: vec![] },
    ];
    assert_eq!(
        recent_changes(raw),
        vec![
            Change {
                date: String::from("March 9, 2020"),
                version: String::from("Bot API 4.6"),
                changes: vec![String::from("Added polls."), String::from("Added dice.")],
            },
            Change { date: String::from("January 23, 2020"), version: String::new(), changes: vec![] },
        ]
    );
    assert_eq!(recent_changes(vec![]), Vec::<Change>::new());
}

#[test]
fn both_names_of_a_raw_type() {
    let spec: tgslib::parse::TypeSpecification =
        TypeSpec { h4: String::from("T"), p: None, table: vec![row(&["a", "True", "d"])] };
    let made = types(vec![spec]);
    assert_eq!(made[0].fields[0].ty, Primitive::True);
}
