use tgslib::text::same_text;
use tgslib::transform::{parse_leaf, parse_type};
use tgslib::Primitive;

fn resolve(name: &str, ty: &str, descr: &str) -> (Primitive, String) {
    let mut descr = String::from(descr);
    let ty = parse_type(name, ty, &mut descr);
    (ty, descr)
}

fn array(inner: Primitive) -> Primitive {
    Primitive::Array(Box::new(inner))
}

fn option(inner: Primitive) -> Primitive {
    Primitive::Option(Box::new(inner))
}

fn named(name: &str) -> Primitive {
    Primitive::Struct { name: String::from(name) }
}

#[test]
fn chat_id_is_integer_or_string() {
    assert_eq!(
        resolve("chat_id", "Integer or String", "Unique identifier for chat"),
        (Primitive::ChatId, String::from("Unique identifier for chat"))
    );
}

#[test]
fn integer_is_wide_where_the_prose_says_64() {
    assert_eq!(
        resolve("user_id", "Integer", "Unique identifier, 64-bit"),
        (Primitive::I64, String::from("Unique identifier, 64-bit"))
    );
}

#[test]
fn integer_is_narrow_otherwise() {
    assert_eq!(resolve("count", "Integer", "a count"), (Primitive::I32, String::from("a count")));
}

#[test]
fn optional_parse_mode() {
    assert_eq!(
        resolve("parse_mode", "String", "Optional. Send Markdown or HTML"),
        (option(Primitive::ParseMode), String::from("Send Markdown or HTML"))
    );
}

#[test]
fn array_of_array_of_integer() {
    assert_eq!(
        resolve("photos", "Array of Array of Integer", "Sizes"),
        (array(array(Primitive::I32)), String::from("Sizes"))
    );
}

#[test]
fn array_of_wide_integer() {
    assert_eq!(
        resolve("ids", "Array of Integer", "Needs 64 bits"),
        (array(Primitive::I64), String::from("Needs 64 bits"))
    );
}

#[test]
fn optional_array_keeps_optional_outermost() {
    assert_eq!(
        resolve("entities", "Array of MessageEntity", "Optional. Special entities"),
        (option(array(named("MessageEntity"))), String::from("Special entities"))
    );
}

#[test]
fn optional_marker_is_stripped_each_time_it_opens_the_description() {
    assert_eq!(
        resolve("x", "True", "Optional. Optional. Twice"),
        (option(option(Primitive::True)), String::from("Twice"))
    );
}

#[test]
fn optional_marker_needs_its_space() {
    assert_eq!(resolve("x", "True", "Optional."), (Primitive::True, String::from("Optional.")));
    assert_eq!(
        resolve("x", "True", "Is Optional. Really"),
        (Primitive::True, String::from("Is Optional. Really"))
    );
}

#[test]
fn resolving_a_cleaned_description_strips_nothing_more() {
    let (first, cleaned) = resolve("x", "Integer", "Optional. Optional. A number");
    assert_eq!(first, option(option(Primitive::I32)));
    let (second, again) = resolve("x", "Integer", &cleaned);
    assert_eq!(second, Primitive::I32);
    assert_eq!(again, cleaned);
    assert_eq!(again, "A number");
}

#[test]
fn leading_spaces_are_skipped() {
    assert_eq!(resolve("x", "  Boolean", "d"), (Primitive::Bool, String::from("d")));
    assert_eq!(resolve("x", " Array of  String", "d"), (array(Primitive::String), String::from("d")));
}

#[test]
fn trailing_space_makes_a_name() {
    assert_eq!(resolve("x", "Boolean ", "d"), (named("Boolean "), String::from("d")));
}

#[test]
fn array_prefix_needs_its_space() {
    assert_eq!(resolve("x", "Array of", "d"), (named("Array of"), String::from("d")));
    assert_eq!(resolve("x", "Array ofInteger", "d"), (named("Array ofInteger"), String::from("d")));
    assert_eq!(resolve("x", "Array of ", "d"), (array(named("")), String::from("d")));
}

#[test]
fn every_leaf() {
    assert_eq!(parse_leaf("x", "Integer", "plain"), Primitive::I32);
    assert_eq!(parse_leaf("x", "Integer", "a 64-bit number"), Primitive::I64);
    assert_eq!(parse_leaf("x", "Integer", "6 and 4"), Primitive::I32);
    assert_eq!(parse_leaf("x", "String", "d"), Primitive::String);
    assert_eq!(parse_leaf("parse_mode", "String", "d"), Primitive::ParseMode);
    assert_eq!(parse_leaf("parse_mode", "Integer", "d"), Primitive::I32);
    assert_eq!(parse_leaf("x", "Boolean", "d"), Primitive::Bool);
    assert_eq!(parse_leaf("x", "True", "d"), Primitive::True);
    assert_eq!(parse_leaf("x", "Integer or String", "d"), Primitive::ChatId);
    assert_eq!(parse_leaf("x", "Float", "d"), Primitive::F32);
    assert_eq!(parse_leaf("x", "Float number", "d"), Primitive::F32);
    assert_eq!(parse_leaf("x", "InputFile or String", "d"), Primitive::InputFile);
    assert_eq!(parse_leaf("x", "Message", "d"), named("Message"));
    assert_eq!(parse_leaf("x", "integer", "d"), named("integer"));
    assert_eq!(parse_leaf("x", "", "d"), named(""));
}

#[test]
fn leaf_reads_no_prefix() {
    assert_eq!(parse_leaf("x", " Integer", "Optional. d"), named(" Integer"));
    assert_eq!(parse_leaf("x", "Array of Integer", "d"), named("Array of Integer"));
}

#[test]
fn wide_integer_behind_the_optional_marker() {
    assert_eq!(
        resolve("x", "Integer", "Optional. Up to 64 bits"),
        (option(Primitive::I64), String::from("Up to 64 bits"))
    );
}

#[test]
fn text_beyond_ascii() {
    assert_eq!(
        resolve("x", "Тип", "Optional. Описание 64"),
        (option(named("Тип")), String::from("Описание 64"))
    );
}

#[test]
fn clone_keeps_the_descriptor() {
    let ty = option(array(named("PhotoSize")));
    assert_eq!(ty.clone(), ty);
}

#[test]
fn same_text_compares_every_byte() {
    assert!(same_text("", ""));
    assert!(same_text("Integer", "Integer"));
    assert!(!same_text("Integer", "Integes"));
    assert!(!same_text("Integer", "Integer "));
    assert!(!same_text("Integer", "integer"));
    assert!(!same_text("", "x"));
    assert!(same_text("See earlier changes »", "See earlier changes »"));
    assert!(!same_text("See earlier changes »", "See earlier changes ›"));
}
