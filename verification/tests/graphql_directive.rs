use graph_gateway::directives::{checked_url, read_url, to_url, ConnectorHeaderValue};
use graph_gateway::input::InputValue;
use graph_gateway::rules::{parse_registry, Error, RuleError};

fn first_validation_error(schema: &str) -> Option<RuleError> {
    parse_registry(schema)
        .err()
        .and_then(Error::validation_errors)
        // We don't care whether there are more errors or not.
        // It only matters that we find the expected error.
        .and_then(|errors| errors.into_iter().next())
}

#[test]
fn parsing_graphql_directive() {
    let schema = r#"
            extend schema
              @graphql(
                name: "countries",
                url: "https://countries.trevorblades.com",
                headers: [{ name: "authorization", value: "Bearer i_am_a_key"}],
                introspectionHeaders: [{ name: "x-user-id", value: "root"}]
              )
            "#;

    let ctx = parse_registry(schema).unwrap();
    assert_eq!(ctx.graphql_directives.len(), 1);
    let directive = &ctx.graphql_directives[0];
    assert_eq!(directive.id, Some(0));
    assert_eq!(directive.namespace, None);
    assert_eq!(directive.name.as_deref(), Some("countries"));
    assert_eq!(directive.namespace(), Some("countries"));
    assert_eq!(directive.url, "https://countries.trevorblades.com");
    assert_eq!(directive.headers().len(), 1);
    assert_eq!(directive.headers()[0].name, "authorization");
    assert!(matches!(&directive.headers()[0].value, ConnectorHeaderValue::Static(v) if v == "Bearer i_am_a_key"));
    assert_eq!(directive.introspection_headers(), vec![("x-user-id", "root")]);
}

#[test]
fn parsing_unnamed_graphql_directive() {
    let schema = r#"
            extend schema
              @graphql(
                url: "https://countries.trevorblades.com",
                headers: [{ name: "authorization", value: "Bearer i_am_a_key"}],
                introspectionHeaders: [{ name: "x-user-id", value: "root"}]
              )
            "#;

    let ctx = parse_registry(schema).unwrap();
    let directive = &ctx.graphql_directives[0];
    assert_eq!(directive.id, Some(0));
    assert_eq!(directive.namespace, None);
    assert_eq!(directive.name, None);
    assert_eq!(directive.namespace(), None);
    assert_eq!(directive.url, "https://countries.trevorblades.com");
}

#[test]
fn missing_field() {
    let error = first_validation_error(
        r#"
            extend schema
              @graphql(
                name: "countries",
                headers: [{ name: "authorization", value: "..."}],
              )
            "#,
    );
    match error {
        Some(RuleError { message, .. }) => {
            assert_eq!(message, "missing field `url`");
        }
        None => panic!("a validation error was expected"),
    }
}

#[test]
fn invalid_header_name_type() {
    let error = first_validation_error(
        r#"
            extend schema
              @graphql(
                name: "countries",
                url: "https://countries.trevorblades.com",
                headers: [{ name: 12, value: "..."}],
              )
            "#,
    );
    match error {
        Some(RuleError { message, .. }) => {
            assert_eq!(message, "[6:26] invalid type: integer `12`, expected a string");
        }
        None => panic!("a validation error was expected"),
    }
}

#[test]
fn invalid_introspection_header_name_type() {
    let error = first_validation_error(
        r#"
            extend schema
              @graphql(
                name: "countries",
                url: "https://countries.trevorblades.com",
                introspectionHeaders: [{ name: 12, value: "..."}],
              )
            "#,
    );
    match error {
        Some(RuleError { message, .. }) => {
            assert_eq!(message, "[6:39] invalid type: integer `12`, expected a string");
        }
        None => panic!("a validation error was expected"),
    }
}

#[test]
fn test_no_introspection_headers() {
    let schema = r#"
            extend schema
              @graphql(
                name: "countries",
                url: "https://countries.trevorblades.com",
                headers: [{ name: "authorization", value: "Bearer blah"}],
                introspectionHeaders: []
              )
            "#;

    let ctx = parse_registry(schema).unwrap();

    assert_eq!(ctx.graphql_directives[0].introspection_headers(), vec![]);
}

#[test]
fn test_introspection_headers_inherits_headers_by_default() {
    let schema = r#"
            extend schema
              @graphql(
                name: "countries",
                url: "https://countries.trevorblades.com",
                headers: [{ name: "authorization", value: "Bearer blah"}],
              )
            "#;

    let ctx = parse_registry(schema).unwrap();

    assert_eq!(
        ctx.graphql_directives[0].introspection_headers(),
        vec![("authorization", "Bearer blah")]
    );
}

#[test]
fn forwarded_headers_are_not_inherited() {
    let schema = r#"
            extend schema
              @graphql(
                namespace: "countries",
                url: "https://countries.trevorblades.com",
                headers: [{ name: "authorization", forward: "authorization"}, { name: "x-key", value: "k" }],
              )
            "#;
    let ctx = parse_registry(schema).unwrap();
    let directive = &ctx.graphql_directives[0];
    assert!(matches!(&directive.headers()[0].value, ConnectorHeaderValue::Forward(v) if v == "authorization"));
    assert_eq!(directive.introspection_headers(), vec![("x-key", "k")]);
    assert_eq!(directive.namespace(), Some("countries"));
}

#[test]
fn an_invalid_url_is_reported_at_its_place() {
    let error = first_validation_error("extend schema @graphql(url: \"not a url\")").unwrap();
    assert_eq!(
        error.message,
        "[1:29] invalid value: string \"not a url\", expected relative URL without a base"
    );
    assert_eq!(error.locations.len(), 1);
    assert_eq!((error.locations[0].line, error.locations[0].column), (1, 15));
}

#[test]
fn a_header_needs_a_value_or_a_forward() {
    let error = first_validation_error(
        "extend schema @graphql(url: \"https://example.com\", headers: [{ name: \"a\" }])",
    )
    .unwrap();
    assert_eq!(error.message, "[1:61] missing field `value`");
    let error = first_validation_error("extend schema @graphql(url: \"https://example.com\", headers: {})").unwrap();
    assert_eq!(error.message, "[1:61] invalid type: map, expected a sequence");
    let error = first_validation_error("extend schema @graphql(url: true)").unwrap();
    assert_eq!(error.message, "[1:29] invalid type: boolean `true`, expected a string");
    let error = first_validation_error("extend schema @graphql(url: 1.5)").unwrap();
    assert_eq!(error.message, "[1:29] invalid type: floating point `1.5`, expected a string");
}

#[test]
fn a_text_that_is_no_document_is_a_parser_error() {
    assert!(matches!(parse_registry("extend schema @graphql(url: "), Err(Error::Parser)));
    assert!(matches!(parse_registry("union A = B"), Err(Error::Parser)));
    assert!(parse_registry("").unwrap().graphql_directives.is_empty());
    assert!(parse_registry("# only a comment\nschema { query: Query }").unwrap().errors.is_empty());
}

#[test]
fn a_url_is_checked_with_the_message_of_its_error() {
    assert_eq!(checked_url("https://example.com".to_string(), None), Ok("https://example.com".to_string()));
    assert_eq!(
        checked_url("nope".to_string(), Some("a reason".to_string())),
        Err(r#"invalid value: string "nope", expected a reason"#.to_string())
    );
    assert_eq!(read_url(&InputValue::Text("https://example.com/graphql".to_string())), Ok("https://example.com/graphql".to_string()));
    assert_eq!(
        read_url(&InputValue::Text("example.com".to_string())),
        Err(r#"invalid value: string "example.com", expected relative URL without a base"#.to_string())
    );
    assert_eq!(to_url("https://example.com/graphql").map(|url| url.to_string()), Some("https://example.com/graphql".to_string()));
    assert!(to_url("example.com").is_none());
}
