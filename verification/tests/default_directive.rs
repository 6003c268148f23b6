use graph_gateway::document::parse_schema;
use graph_gateway::rules::{visit, DefaultDirective, VisitorContext};

fn errors_of(schema: &str) -> Vec<String> {
    let schema = parse_schema(schema).unwrap();
    let mut ctx = VisitorContext::new(&schema);
    visit(&mut ctx, &schema);
    ctx.errors.into_iter().map(|error| error.message).collect()
}

#[test]
fn test_default_wrong_argument_name() {
    let schema = r#"
            type Product @model {
                id: ID!
                name: String @default(foo: "default")
            }
            "#;

    let errors = errors_of(schema);

    assert_eq!(errors.len(), 1);
    assert_eq!(
        errors.get(0).unwrap(),
        "The @default directive takes a single `value` argument",
    );
}

#[test]
fn test_default_missing_argument() {
    let schema = r#"
            type Product @model {
                id: ID!
                name: String @default
            }
            "#;

    let errors = errors_of(schema);

    assert_eq!(errors.len(), 1);
    assert_eq!(
        errors.get(0).unwrap(),
        "The @default directive takes a single `value` argument",
    );
}

#[test]
fn test_default_on_id_field() {
    let schema = r#"
            type Product @model {
                id: ID! @default(value: "default")
                name: String
            }
            "#;

    let errors = errors_of(schema);

    assert_eq!(errors.len(), 1);
    assert_eq!(
        errors.get(0).unwrap(),
        "The @default directive is not accepted on the `id` field",
    );
}

#[test]
fn test_default_model_field() {
    let schema = r#"
            type Category @model {
                id: ID!
                name: String!
            }

            type Product @model {
                id: ID!
                name: String!
                category: Category @default(value: null)
            }
            "#;

    let errors = errors_of(schema);

    assert_eq!(errors.len(), 1);
    assert_eq!(
        errors.get(0).unwrap(),
        "The @default directive is not accepted on fields referring to other models",
    );
}

#[test]
fn test_wrong_value_type() {
    let schema = r#"
            type Product @model {
                id: ID!
                name: String! @default(value: 10)
            }
            "#;

    let errors = errors_of(schema);

    assert_eq!(errors.len(), 1);
    assert_eq!(
        errors.get(0).unwrap(),
        "The @default value is of a wrong type: \"name\", expected type \"String\"",
    );
}

#[test]
fn test_valid() {
    let schema = r#"
            type Product @model {
                id: ID!
                name: String @default(value: "foo")
            }
            "#;

    let errors = errors_of(schema);

    assert_eq!(errors.len(), 0);
}

#[test]
fn a_default_has_to_fit_the_type() {
    assert_eq!(
        errors_of("type P { n: Int @default(value: 1.5) }"),
        vec!["The @default value is of a wrong type: \"n\", expected type \"Int\""]
    );
    assert!(errors_of("type P { n: Float @default(value: 1.5) m: Int @default(value: -3) b: Boolean! @default(value: true) }").is_empty());
    assert_eq!(
        errors_of("type P { n: [Int!]! @default(value: null) }"),
        vec!["The @default value is of a wrong type: \"n\", expected type \"[Int!]!\""]
    );
    assert!(errors_of("type P { n: [Int!] @default(value: [1, 2]) c: Color @default(value: RED) }").is_empty());
}

#[test]
fn the_definition_of_the_default_directive() {
    assert!(DefaultDirective.directives().contains("directive @default(value: String) on FIELD_DEFINITION"));
}

#[test]
fn documents_keep_names_types_and_places() {
    let doc = parse_schema(
        "type Product @model {\n  \"note\": String\n}",
    );
    assert!(doc.is_none());
    let doc = parse_schema("type Product @model @key(fields: \"id\") {\n  id: ID!\n  tags(first: Int): [ String ! ] ! @tag(name: \"a\\\"b\", list: [1, {k: -2.5e3}], flag: false, nothing: null)\n}").unwrap();
    assert_eq!(doc.types.len(), 1);
    let ty = &doc.types[0];
    assert_eq!(ty.name, "Product");
    assert_eq!(ty.directives.iter().map(|d| d.name.as_str()).collect::<Vec<_>>(), vec!["model", "key"]);
    assert_eq!((ty.directives[1].pos.line, ty.directives[1].pos.column), (1, 21));
    assert_eq!(ty.fields[0].ty.text, "ID!");
    assert_eq!(ty.fields[1].name, "tags");
    assert_eq!(ty.fields[1].ty.text, "[String!]!");
    assert_eq!(ty.fields[1].ty.base, "String");
    let tag = &ty.fields[1].directives[0];
    assert_eq!(tag.arguments.iter().map(|a| a.name.as_str()).collect::<Vec<_>>(), vec!["name", "list", "flag", "nothing"]);
    assert_eq!((tag.arguments[0].pos.line, tag.arguments[0].pos.column), (3, 47));
    assert_eq!(format!("{:?}", tag.arguments[0].value), "Text(\"a\\\"b\")");
    assert_eq!(
        format!("{:?}", tag.arguments[1].value),
        "List([Number(\"1\"), Object([(\"k\", Number(\"-2.5e3\"))])])"
    );
    assert_eq!(format!("{:?}", tag.arguments[2].value), "Boolean(false)");
    assert_eq!(format!("{:?}", tag.arguments[3].value), "Null");
}
