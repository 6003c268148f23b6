use graph_gateway::arena::{
    EnumValueId, FieldArgumentId, IdRange, InputValueDefinitionId, QueryInputValueId, SchemaInputValueId, SelectionSetId, StringId,
    VariableDefinitionId,
};
use graph_gateway::input_values::{
    float_bits_eq, query_value_eq, QueryInputValue, QueryInputValues, SchemaInputValue, SchemaInputValues, VariableState,
};
use graph_gateway::operation::{FieldArgument, FieldArgumentWalker, FieldArgumentsWalker, InputValueSet, Operation, OperationType};
use graph_gateway::schema::{Graph, GraphqlEndpoints, OperationLimits, Schema, Settings};

fn strings() -> Vec<String> {
    vec!["a".to_string(), "red".to_string(), "k".to_string(), "l".to_string()]
}

/// Default values: slot 0 is the list `[1, 2]`, slot 3 is the object
/// `{d0: "a", d2: true}` and slot 4 the map `{k: 1, l: null}`.
fn schema_values() -> SchemaInputValues {
    SchemaInputValues {
        values: vec![
            SchemaInputValue::List(IdRange::new(1, 3)),
            SchemaInputValue::Int(1),
            SchemaInputValue::Int(2),
            SchemaInputValue::InputObject(IdRange::new(0, 2)),
            SchemaInputValue::JsonMap(IdRange::new(0, 2)),
        ],
        input_fields: vec![
            (InputValueDefinitionId::new(0), SchemaInputValue::String(StringId::new(0))),
            (InputValueDefinitionId::new(2), SchemaInputValue::Boolean(true)),
        ],
        key_values: vec![(StringId::new(2), SchemaInputValue::Int(1)), (StringId::new(3), SchemaInputValue::Null)],
    }
}

#[test]
fn handles_name_positions() {
    let id = QueryInputValueId::new(7);
    assert_eq!(id.index(), 7);
    assert!(id.same(QueryInputValueId::new(7)));
    assert!(!id.same(QueryInputValueId::new(8)));
    assert_eq!(id, QueryInputValueId::new(7));
    assert!(QueryInputValueId::try_new(usize::MAX).is_none());
    assert_eq!(graph_gateway::arena::GraphqlEndpointId::try_new(254).unwrap().index(), 254);
    assert!(graph_gateway::arena::GraphqlEndpointId::try_new(255).is_none());
    let range = IdRange::new(2, 5);
    assert_eq!((range.len(), range.is_empty()), (3, false));
    assert_eq!((IdRange::new(5, 2).len(), IdRange::new(5, 2).is_empty(), IdRange::empty().is_empty()), (0, true, true));
}

#[test]
fn values_are_pushed_and_reserved_side_by_side() {
    let mut values = QueryInputValues::new();
    let first = values.push_value(QueryInputValue::Int(1));
    assert_eq!(first.index(), 0);
    let list = values.reserve_list(3);
    assert_eq!((list.start, list.end), (1, 4));
    assert!(values.values[1..4].iter().all(|v| matches!(v, QueryInputValue::Null)));
    let second = values.push_value(QueryInputValue::Boolean(true));
    assert_eq!(second.index(), 4);
    values.set_value(2, QueryInputValue::String("x".to_string()));
    assert!(matches!(values.get(QueryInputValueId::new(2)), Some(QueryInputValue::String(s)) if s == "x"));
    assert!(values.get(QueryInputValueId::new(5)).is_none());

    let map = values.reserve_map(2);
    assert_eq!((map.start, map.end), (0, 2));
    assert!(values.key_values.iter().all(|(k, v)| k.is_empty() && matches!(v, QueryInputValue::Null)));
    values.set_key_value(1, "k".to_string(), QueryInputValue::Int(3));
    assert_eq!(values.key_values[1].0, "k");

    let mut fields = vec![
        (InputValueDefinitionId::new(4), QueryInputValue::Null),
        (InputValueDefinitionId::new(5), QueryInputValue::Int(2)),
    ];
    let object = values.append_input_object(&mut fields);
    assert_eq!((object.start, object.end), (0, 2));
    assert!(fields.is_empty());
    let more = values.append_input_object(&mut vec![(InputValueDefinitionId::new(6), QueryInputValue::Null)]);
    assert_eq!((more.start, more.end), (2, 3));
    assert_eq!(values.reserve_list(0).len(), 0);
}

#[test]
fn a_value_is_undefined_if_its_variable_is_neither_supplied_nor_defaulted() {
    let variables = vec![
        VariableState { supplied: false, has_default: false },
        VariableState { supplied: true, has_default: false },
        VariableState { supplied: false, has_default: true },
    ];
    assert!(QueryInputValue::Variable(VariableDefinitionId::new(0)).is_undefined(&variables));
    assert!(!QueryInputValue::Variable(VariableDefinitionId::new(1)).is_undefined(&variables));
    assert!(!QueryInputValue::Variable(VariableDefinitionId::new(2)).is_undefined(&variables));
    assert!(QueryInputValue::Variable(VariableDefinitionId::new(3)).is_undefined(&variables));
    assert!(!QueryInputValue::Null.is_undefined(&variables));
}

#[test]
fn doubles_are_compared_as_numbers() {
    let nan = f64::NAN.to_bits();
    assert!(float_bits_eq(1.5f64.to_bits(), 1.5f64.to_bits()));
    assert!(!float_bits_eq(1.5f64.to_bits(), 2.5f64.to_bits()));
    assert!(float_bits_eq(0.0f64.to_bits(), (-0.0f64).to_bits()));
    assert!(!float_bits_eq(nan, nan));
    assert!(!float_bits_eq(nan, 1.0f64.to_bits()));
    assert!(float_bits_eq(f64::INFINITY.to_bits(), f64::INFINITY.to_bits()));
    assert!(!float_bits_eq(f64::INFINITY.to_bits(), f64::NEG_INFINITY.to_bits()));
}

#[test]
fn scalars_are_equal_by_value() {
    let query = QueryInputValues::new();
    let schema = schema_values();
    let strings = strings();
    let eq = |l: QueryInputValue, r: SchemaInputValue| query.eq(&schema, &strings, &l, &r);
    assert!(eq(QueryInputValue::Null, SchemaInputValue::Null));
    assert!(eq(QueryInputValue::String("a".to_string()), SchemaInputValue::String(StringId::new(0))));
    assert!(!eq(QueryInputValue::String("b".to_string()), SchemaInputValue::String(StringId::new(0))));
    assert!(!eq(QueryInputValue::String("a".to_string()), SchemaInputValue::String(StringId::new(9))));
    assert!(eq(QueryInputValue::EnumValue(EnumValueId::new(1)), SchemaInputValue::EnumValue(EnumValueId::new(1))));
    assert!(!eq(QueryInputValue::EnumValue(EnumValueId::new(1)), SchemaInputValue::EnumValue(EnumValueId::new(2))));
    assert!(eq(QueryInputValue::Int(3), SchemaInputValue::Int(3)));
    assert!(!eq(QueryInputValue::Int(3), SchemaInputValue::BigInt(3)));
    assert!(eq(QueryInputValue::BigInt(-3), SchemaInputValue::BigInt(-3)));
    assert!(eq(QueryInputValue::U64(3), SchemaInputValue::U64(3)));
    assert!(eq(QueryInputValue::Float(0.0f64.to_bits()), SchemaInputValue::Float((-0.0f64).to_bits())));
    assert!(eq(QueryInputValue::Boolean(true), SchemaInputValue::Boolean(true)));
    assert!(!eq(QueryInputValue::Boolean(true), SchemaInputValue::Boolean(false)));
    assert!(!eq(QueryInputValue::Null, SchemaInputValue::Int(0)));
    assert!(!eq(QueryInputValue::Variable(VariableDefinitionId::new(0)), SchemaInputValue::Null));
}

#[test]
fn nested_values_are_equal_slot_by_slot() {
    let schema = schema_values();
    let strings = strings();
    let query = QueryInputValues {
        values: vec![QueryInputValue::Int(1), QueryInputValue::Int(2), QueryInputValue::Int(3)],
        input_fields: vec![
            (InputValueDefinitionId::new(2), QueryInputValue::Boolean(true)),
            (InputValueDefinitionId::new(0), QueryInputValue::String("a".to_string())),
            (InputValueDefinitionId::new(1), QueryInputValue::Null),
        ],
        key_values: vec![
            ("l".to_string(), QueryInputValue::Null),
            ("k".to_string(), QueryInputValue::Int(1)),
            ("m".to_string(), QueryInputValue::Null),
        ],
    };
    let list = &schema.values[0];
    assert!(query.eq(&schema, &strings, &QueryInputValue::List(IdRange::new(0, 2)), list));
    assert!(!query.eq(&schema, &strings, &QueryInputValue::List(IdRange::new(1, 3)), list));
    assert!(!query.eq(&schema, &strings, &QueryInputValue::List(IdRange::new(0, 3)), list));
    assert!(!query.eq(&schema, &strings, &QueryInputValue::List(IdRange::new(0, 9)), list));
    assert!(!query_value_eq(&query, &schema, &strings, &QueryInputValue::List(IdRange::new(0, 2)), list, 0));

    let object = &schema.values[3];
    assert!(query.eq(&schema, &strings, &QueryInputValue::InputObject(IdRange::new(0, 2)), object));
    assert!(!query.eq(&schema, &strings, &QueryInputValue::InputObject(IdRange::new(1, 3)), object));
    assert!(!query.eq(&schema, &strings, &QueryInputValue::InputObject(IdRange::new(0, 3)), object));

    let map = &schema.values[4];
    assert!(query.eq(&schema, &strings, &QueryInputValue::JsonMap(IdRange::new(0, 2)), map));
    assert!(!query.eq(&schema, &strings, &QueryInputValue::JsonMap(IdRange::new(1, 3)), map));
    assert!(!query.eq(&schema, &strings, &QueryInputValue::JsonMap(IdRange::new(0, 3)), map));

    assert!(query.eq(&schema, &strings, &QueryInputValue::DefaultValue(SchemaInputValueId::new(0)), list));
    assert!(query.eq(&schema, &strings, &QueryInputValue::DefaultValue(SchemaInputValueId::new(1)), &SchemaInputValue::Int(1)));
    assert!(!query.eq(&schema, &strings, &QueryInputValue::DefaultValue(SchemaInputValueId::new(0)), object));
    assert!(!query.eq(&schema, &strings, &QueryInputValue::DefaultValue(SchemaInputValueId::new(9)), list));
}

#[test]
fn arguments_without_a_value_are_left_out() {
    let schema = Schema::new(Graph {
        strings: vec![],
        urls: vec![],
        subgraphs: 0,
        header_rules: vec![],
        graphql: GraphqlEndpoints { endpoints: vec![] },
        interfaces: vec![],
        objects: vec![],
        field_definitions: vec![],
        input_value_definitions: vec![],
        directives: vec![],
        required_fields: vec![],
        required_field_sets: vec![],
        input_values: SchemaInputValues { values: vec![], input_fields: vec![], key_values: vec![] },
        settings: Settings {
            operation_limits: OperationLimits { depth: None, aliases: None, root_fields: None, complexity: None },
            disable_introspection: false,
        },
    })
    .unwrap();
    let operation = Operation {
        ty: OperationType::Query,
        root_selection_set_id: SelectionSetId::new(0),
        selection_sets: vec![],
        fields: vec![],
        field_arguments: vec![
            FieldArgument { input_value_definition_id: InputValueDefinitionId::new(0), input_value_id: QueryInputValueId::new(0) },
            FieldArgument { input_value_definition_id: InputValueDefinitionId::new(1), input_value_id: QueryInputValueId::new(1) },
        ],
        query_input_values: QueryInputValues {
            values: vec![QueryInputValue::Boolean(false), QueryInputValue::Variable(VariableDefinitionId::new(0))],
            input_fields: vec![],
            key_values: vec![],
        },
        variables: vec![VariableState { supplied: false, has_default: false }],
    };
    let arguments = FieldArgumentsWalker { schema: &schema, operation: &operation, item: IdRange::new(0, 2) };
    assert!(!arguments.is_empty());
    let walkers = arguments.into_iter();
    assert_eq!(walkers.len(), 2);
    assert!(matches!(walkers[0].value(), Some(QueryInputValue::Boolean(false))));
    assert!(walkers[1].value().is_none());
    let missing = FieldArgumentWalker { schema: &schema, operation: &operation, item: FieldArgumentId::new(5) };
    assert!(missing.value().is_none());
    let empty = FieldArgumentsWalker { schema: &schema, operation: &operation, item: IdRange::empty() };
    assert!(empty.is_empty());
    let set = InputValueSet { selected: None };
    let view = FieldArgumentsWalker { schema: &schema, operation: &operation, item: IdRange::new(0, 1) }.with_selection_set(&set);
    assert_eq!(view.inner.item, IdRange::new(0, 1));
    let defaults = SchemaInputValues {
        values: vec![SchemaInputValue::Boolean(false), SchemaInputValue::EnumValue(EnumValueId::new(1)), SchemaInputValue::Int(3)],
        input_fields: vec![],
        key_values: vec![],
    };
    let names = vec!["RED".to_string(), "GREEN".to_string()];
    let text = |value: QueryInputValue| value.to_normalized_query_const_value_str(&defaults, &names);
    assert_eq!(text(QueryInputValue::Boolean(true)), Some("true"));
    assert_eq!(text(QueryInputValue::Boolean(false)), Some("false"));
    assert_eq!(text(QueryInputValue::EnumValue(EnumValueId::new(0))), Some("RED"));
    assert_eq!(text(QueryInputValue::EnumValue(EnumValueId::new(2))), None);
    assert_eq!(text(QueryInputValue::DefaultValue(SchemaInputValueId::new(0))), Some("false"));
    assert_eq!(text(QueryInputValue::DefaultValue(SchemaInputValueId::new(1))), Some("GREEN"));
    assert_eq!(text(QueryInputValue::DefaultValue(SchemaInputValueId::new(2))), None);
    assert_eq!(text(QueryInputValue::DefaultValue(SchemaInputValueId::new(9))), None);
    assert_eq!(text(QueryInputValue::Int(1)), None);
    assert!(matches!(QueryInputValue::Int(1).with_selection_set(&set).inner, QueryInputValue::Int(1)));
}

#[test]
fn maps_of_different_size_are_not_equal() {
    let schema = schema_values();
    let strings = strings();
    let query = QueryInputValues {
        values: vec![],
        input_fields: vec![],
        key_values: vec![("l".to_string(), QueryInputValue::Null), ("k".to_string(), QueryInputValue::Int(1))],
    };
    let map = &schema.values[4];
    assert!(query.eq(&schema, &strings, &QueryInputValue::JsonMap(IdRange::new(0, 2)), map));
    // Every entry of the smaller map is in the schema's map, still the two differ.
    assert!(!query.eq(&schema, &strings, &QueryInputValue::JsonMap(IdRange::new(0, 1)), map));
    assert!(!query.eq(&schema, &strings, &QueryInputValue::JsonMap(IdRange::new(0, 0)), map));
    let schema_side_empty = SchemaInputValue::JsonMap(IdRange::new(0, 0));
    assert!(query.eq(&schema, &strings, &QueryInputValue::JsonMap(IdRange::new(0, 0)), &schema_side_empty));
    assert!(!query.eq(&schema, &strings, &QueryInputValue::JsonMap(IdRange::new(0, 1)), &schema_side_empty));
}
