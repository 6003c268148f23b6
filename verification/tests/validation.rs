use graph_gateway::arena::{FieldId, IdRange, SelectionSetId};
use graph_gateway::input_values::{QueryInputValues, SchemaInputValues};
use graph_gateway::operation::{Location, Operation, OperationField, OperationType, OperationWalker, SelectionSet};
use graph_gateway::schema::{Graph, GraphqlEndpoints, OperationLimits, Schema, Settings};
use graph_gateway::validation::{
    alias_count, complexity, max_depth, validate_operation, ErrorCode, OperationLimitExceededError, ValidationError,
};

fn schema(limits: OperationLimits, disable_introspection: bool) -> Schema {
    Schema::new(Graph {
        strings: vec![],
        urls: vec![],
        subgraphs: 0,
        header_rules: vec![],
        graphql: GraphqlEndpoints { endpoints: vec![] },
        interfaces: vec![],
        objects: vec![],
        field_definitions: vec![],
        input_value_definitions: vec![],
        directives: vec![],
        required_fields: vec![],
        required_field_sets: vec![],
        input_values: SchemaInputValues { values: vec![], input_fields: vec![], key_values: vec![] },
        settings: Settings { operation_limits: limits, disable_introspection },
    })
    .unwrap()
}

fn no_limits() -> OperationLimits {
    OperationLimits { depth: None, aliases: None, root_fields: None, complexity: None }
}

fn field(name: &str, has_alias: bool, line: u16, selection_set: Option<usize>) -> OperationField {
    OperationField {
        name: name.to_string(),
        has_alias,
        location: Location { line, column: 3 },
        arguments: IdRange::empty(),
        selection_set: selection_set.map(SelectionSetId::new),
    }
}

/// `{ products { name cost: price reviews { text } } shop: store { name } }`
fn operation(ty: OperationType) -> Operation {
    Operation {
        ty,
        root_selection_set_id: SelectionSetId::new(0),
        selection_sets: vec![
            SelectionSet { fields: vec![FieldId::new(0), FieldId::new(1)] },
            SelectionSet { fields: vec![FieldId::new(2), FieldId::new(3), FieldId::new(4)] },
            SelectionSet { fields: vec![FieldId::new(5)] },
            SelectionSet { fields: vec![FieldId::new(6)] },
        ],
        fields: vec![
            field("products", false, 1, Some(1)),
            field("store", true, 1, Some(3)),
            field("name", false, 2, None),
            field("price", true, 2, None),
            field("reviews", false, 2, Some(2)),
            field("text", false, 3, None),
            field("name", false, 4, None),
        ],
        field_arguments: vec![],
        query_input_values: QueryInputValues::new(),
        variables: vec![],
    }
}

fn introspection() -> Operation {
    Operation {
        ty: OperationType::Query,
        root_selection_set_id: SelectionSetId::new(0),
        selection_sets: vec![SelectionSet { fields: vec![FieldId::new(0), FieldId::new(1), FieldId::new(2)] }],
        fields: vec![field("products", false, 1, None), field("__type", false, 7, None), field("__schema", false, 9, None)],
        field_arguments: vec![],
        query_input_values: QueryInputValues::new(),
        variables: vec![],
    }
}

#[test]
fn the_measures_of_an_operation() {
    let op = operation(OperationType::Query);
    assert_eq!(max_depth(&op, 0, 5), 3);
    assert_eq!(alias_count(&op, 0, 5), 2);
    assert_eq!(complexity(&op, 0, 5), 7);
    assert_eq!(max_depth(&op, 2, 5), 1);
    assert_eq!(max_depth(&op, 9, 5), 0);
    assert_eq!(max_depth(&op, 0, 2), 2);
    assert_eq!(complexity(&op, 0, 0), 0);
}

#[test]
fn an_operation_within_its_limits_passes() {
    let limits = OperationLimits { depth: Some(3), aliases: Some(2), root_fields: Some(2), complexity: Some(7) };
    assert_eq!(validate_operation(&schema(limits, true), &operation(OperationType::Query)), Ok(()));
    assert_eq!(validate_operation(&schema(no_limits(), false), &introspection()), Ok(()));
}

#[test]
fn each_limit_is_enforced() {
    let op = operation(OperationType::Query);
    let cases = [
        (OperationLimits { depth: Some(2), ..no_limits() }, OperationLimitExceededError::QueryTooDeep, "Query is nested too deep."),
        (
            OperationLimits { aliases: Some(1), ..no_limits() },
            OperationLimitExceededError::QueryContainsTooManyAliases,
            "Query contains too many aliases.",
        ),
        (
            OperationLimits { root_fields: Some(1), ..no_limits() },
            OperationLimitExceededError::QueryContainsTooManyRootFields,
            "Query contains too many root fields.",
        ),
        (OperationLimits { complexity: Some(6), ..no_limits() }, OperationLimitExceededError::QueryTooComplex, "Query is too complex."),
    ];
    for (limits, expected, message) in cases {
        let err = validate_operation(&schema(limits, false), &op).unwrap_err();
        assert_eq!(err, ValidationError::OperationLimitExceeded(expected));
        let error = err.to_graphql_error();
        assert_eq!(error.message, message);
        assert_eq!(error.code, ErrorCode::OperationValidationError);
        assert!(error.locations.is_empty());
    }
    let all = OperationLimits { depth: Some(0), aliases: Some(0), root_fields: Some(0), complexity: Some(0) };
    assert_eq!(
        validate_operation(&schema(all, true), &op).unwrap_err(),
        ValidationError::OperationLimitExceeded(OperationLimitExceededError::QueryTooDeep)
    );
}

#[test]
fn introspection_is_refused_where_it_is_disabled() {
    let err = validate_operation(&schema(no_limits(), true), &introspection()).unwrap_err();
    assert_eq!(err, ValidationError::IntrospectionWhenDisabled { location: Location { line: 7, column: 3 } });
    let error = err.to_graphql_error();
    assert_eq!(
        error.message,
        "GraphQL introspection is not allowed, but the query contained __schema or __type"
    );
    assert_eq!(error.code, ErrorCode::OperationValidationError);
    assert_eq!(error.locations, vec![Location { line: 7, column: 3 }]);
    let mut mutation = introspection();
    mutation.ty = OperationType::Mutation;
    assert_eq!(validate_operation(&schema(no_limits(), true), &mutation), Ok(()));
    let limited = OperationLimits { root_fields: Some(2), ..no_limits() };
    assert_eq!(
        validate_operation(&schema(limited, true), &introspection()).unwrap_err(),
        ValidationError::OperationLimitExceeded(OperationLimitExceededError::QueryContainsTooManyRootFields)
    );
}

#[test]
fn walkers_walk() {
    let schema = schema(no_limits(), false);
    let op = operation(OperationType::Mutation);
    let walker = OperationWalker::new(&schema, &op);
    assert!(!walker.is_query());
    assert_eq!(walker.as_ref().fields.len(), 7);
    let root = walker.selection_set();
    assert_eq!(root.id().index(), 0);
    let other = root.walk_with(FieldId::new(3), 5u8);
    assert_eq!(other.item.index(), 3);
    assert_eq!(other.schema_item, 5);
    let same = other.walk("x");
    assert_eq!((same.item, same.schema_item), ("x", 5));
}
