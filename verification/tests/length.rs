use graph_gateway::document::{parse_schema, FieldDefinition};
use graph_gateway::generation::ParentRelation;
use graph_gateway::input::InputValue;
use graph_gateway::length::{get_length_validator, read_bound, LengthValidator};
use graph_gateway::registry::MetaRelation;

fn field_of(text: &str) -> FieldDefinition {
    let mut document = parse_schema(text).expect("the schema is well-formed");
    document.types.remove(0).fields.remove(0)
}

#[test]
fn both_bounds_are_read() {
    let field = field_of("type Post { title: String @length(min: 2, max: 10) }");
    assert_eq!(get_length_validator(&field), Some(LengthValidator { min: Some(2), max: Some(10) }));
}

#[test]
fn a_side_without_an_argument_is_open() {
    let field = field_of("type Post { title: String @length(max: 300) }");
    assert_eq!(get_length_validator(&field), Some(LengthValidator { min: None, max: Some(300) }));
    let field = field_of("type Post { title: String @length }");
    assert_eq!(get_length_validator(&field), Some(LengthValidator { min: None, max: None }));
}

#[test]
fn a_field_without_the_directive_has_no_bounds() {
    let field = field_of("type Post { title: String @unique }");
    assert_eq!(get_length_validator(&field), None);
}

#[test]
fn the_first_length_directive_counts() {
    let field = field_of("type Post { title: String @unique @length(min: 1) @length(min: 5) }");
    assert_eq!(get_length_validator(&field), Some(LengthValidator { min: Some(1), max: None }));
}

#[test]
fn a_bound_is_a_number_in_digits_alone() {
    let field = field_of(r#"type Post { title: String @length(min: "2", max: -3) }"#);
    assert_eq!(get_length_validator(&field), Some(LengthValidator { min: None, max: None }));
    assert_eq!(read_bound(&InputValue::Number("0".to_string())), Some(0));
    assert_eq!(read_bound(&InputValue::Number("42".to_string())), Some(42));
    assert_eq!(read_bound(&InputValue::Number("4.2".to_string())), None);
    assert_eq!(read_bound(&InputValue::Number("1e2".to_string())), None);
    assert_eq!(read_bound(&InputValue::Number("".to_string())), None);
    assert_eq!(read_bound(&InputValue::Text("42".to_string())), None);
    assert_eq!(read_bound(&InputValue::Null), None);
}

#[test]
fn a_bound_that_the_machine_cannot_hold_is_none() {
    assert_eq!(read_bound(&InputValue::Number(usize::MAX.to_string())), Some(usize::MAX));
    assert_eq!(read_bound(&InputValue::Number(format!("{}0", usize::MAX))), None);
    assert_eq!(read_bound(&InputValue::Number("99999999999999999999999999".to_string())), None);
    let mut above = usize::MAX.to_string().into_bytes();
    let last = above.len() - 1;
    above[last] += 1;
    assert_eq!(read_bound(&InputValue::Number(String::from_utf8(above).unwrap())), None);
}

#[test]
fn a_parent_relation_names_its_model() {
    let mut document = parse_schema("type Blog { posts: [Post] }").expect("the schema is well-formed");
    let model = document.types.remove(0);
    let meta = MetaRelation { name: "BlogToPost".to_string(), to: "Post".to_string() };
    let relation = ParentRelation { model_type_definition: &model, meta: &meta };
    assert_eq!(relation.to_string(), "BlogToPost relation of Blog");
}
