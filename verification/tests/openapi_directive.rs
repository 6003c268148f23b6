use graph_gateway::connectors::OpenApiQueryNamingStrategy;
use graph_gateway::directives::ConnectorHeaderValue;
use graph_gateway::rules::{parse_registry, Error, RuleError};

fn first_validation_error(schema: &str) -> Option<RuleError> {
    parse_registry(schema)
        .err()
        .and_then(Error::validation_errors)
        .and_then(|errors| errors.into_iter().next())
}

#[test]
fn test_parsing_openapi_directive() {
    let schema = r#"
            extend schema
              @openapi(
                namespace: "stripe",
                url: "https://api.stripe.com",
                schema: "https://raw.githubusercontent.com/stripe/openapi/master/openapi/spec3.json",
                headers: [{ name: "authorization", value: "Bearer i_am_a_key"}],
              )
            "#;
    let ctx = parse_registry(schema).unwrap();
    assert_eq!(ctx.openapi_directives.len(), 1);
    let directive = &ctx.openapi_directives[0];
    assert_eq!(directive.id, Some(0));
    assert_eq!(directive.namespace.as_deref(), Some("stripe"));
    assert_eq!(directive.url.as_deref(), Some("https://api.stripe.com"));
    assert_eq!(
        directive.schema_url,
        "https://raw.githubusercontent.com/stripe/openapi/master/openapi/spec3.json"
    );
    assert_eq!(directive.headers().len(), 1);
    assert!(matches!(&directive.headers()[0].value, ConnectorHeaderValue::Static(v) if v == "Bearer i_am_a_key"));
    assert!(directive.introspection_headers().is_empty());
    assert_eq!(directive.transforms.query_naming, OpenApiQueryNamingStrategy::SchemaName);
}

fn naming_strategy_of(input: &str) -> OpenApiQueryNamingStrategy {
    let schema = format!(
        r#"
                    extend schema
                      @openapi(
                        namespace: "stripe",
                        url: "https://api.stripe.com",
                        schema: "https://raw.githubusercontent.com/stripe/openapi/master/openapi/spec3.json",
                        transforms: {{
                            queryNaming: {input}
                        }}
                      )
            "#
    );
    parse_registry(&schema).unwrap().openapi_directives.first().unwrap().transforms.query_naming
}

#[test]
fn test_parse_naming_strategy_operation_id() {
    assert_eq!(naming_strategy_of("OPERATION_ID"), OpenApiQueryNamingStrategy::OperationId);
}

#[test]
fn test_parse_naming_strategy_schema_name() {
    assert_eq!(naming_strategy_of("SCHEMA_NAME"), OpenApiQueryNamingStrategy::SchemaName);
}

#[test]
fn test_missing_field() {
    let error = first_validation_error(
        r#"
            extend schema
              @openapi(
                namespace: "stripe",
                url: "https://api.stripe.com",
                headers: [{ name: "authorization", value: "BLAH" }],
              )
            "#,
    );
    match error {
        Some(RuleError { message, .. }) => {
            assert_eq!(message, "missing field `schema`");
        }
        None => panic!("a validation error was expected"),
    }
}

#[test]
fn test_invalid_query_strategy() {
    let error = first_validation_error(
        r#"
            extend schema
              @openapi(
                namespace: "stripe",
                schema: "https://raw.githubusercontent.com/stripe/openapi/master/openapi/spec3.json",
                url: "https://api.stripe.com",
                transforms: {queryNaming: PIES}
              )
            "#,
    );
    match error {
        Some(RuleError { message, .. }) => {
            assert_eq!(
                message,
                "[7:29] unknown variant `PIES`, expected `OPERATION_ID` or `SCHEMA_NAME`"
            );
        }
        None => panic!("a validation error was expected"),
    }
}

#[test]
fn the_name_of_an_openapi_source_is_its_namespace() {
    let ctx = parse_registry("extend schema @openapi(name: \"stripe\", schema: \"s\", introspectionHeaders: [{name: \"a\", value: \"b\"}])").unwrap();
    let directive = &ctx.openapi_directives[0];
    assert_eq!(directive.namespace.as_deref(), Some("stripe"));
    assert_eq!(directive.url, None);
    assert_eq!(directive.introspection_headers(), vec![("a".to_string(), "b".to_string())]);
}

#[test]
fn transforms_have_to_be_an_object() {
    let error = first_validation_error("extend schema @openapi(schema: \"s\", transforms: [])").unwrap();
    assert_eq!(error.message, "[1:49] invalid type: sequence, expected struct OpenApiTransforms");
    let error = first_validation_error("extend schema @openapi(schema: \"s\", transforms: {queryNaming: 3})").unwrap();
    assert_eq!(error.message, "[1:49] invalid type: integer `3`, expected enum OpenApiQueryNamingStrategy");
}

#[test]
fn directives_are_numbered_in_their_order() {
    let ctx = parse_registry(
        "extend schema @openapi(schema: \"a\") @graphql(url: \"https://a.example\") @openapi(schema: \"b\")\nextend schema @graphql(url: \"https://b.example\")",
    )
    .unwrap();
    assert_eq!(ctx.openapi_directives.iter().map(|d| d.id).collect::<Vec<_>>(), vec![Some(0), Some(1)]);
    assert_eq!(ctx.graphql_directives.iter().map(|d| d.id).collect::<Vec<_>>(), vec![Some(0), Some(1)]);
    assert_eq!(ctx.graphql_directives[1].url, "https://b.example");
}
