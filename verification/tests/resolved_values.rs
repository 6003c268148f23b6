use graph_gateway::arena::{IdRange, InputValueDefinitionId, QueryInputValueId, SchemaInputValueId, StringId, VariableDefinitionId};
use graph_gateway::input_values::{QueryInputValue, QueryInputValues, SchemaInputValue, SchemaInputValues, VariableState};
use graph_gateway::resolved_values::{schema_tree, to_input_value, ResolvedValue, VariableValues};
use graph_gateway::subscription::{cannot_query_field, collect_subscription_streams, qualified_type_name, Fragment, SelectionItem};

fn names() -> Vec<String> {
    vec!["a".to_string(), "k".to_string()]
}

/// Default values: slot 0 is the list `[1, 2]`, slot 3 the object `{d0: "a"}`
/// and slot 4 the map `{k: 1}`.
fn defaults() -> SchemaInputValues {
    SchemaInputValues {
        values: vec![
            SchemaInputValue::List(IdRange::new(1, 3)),
            SchemaInputValue::Int(1),
            SchemaInputValue::Int(2),
            SchemaInputValue::InputObject(IdRange::new(0, 1)),
            SchemaInputValue::JsonMap(IdRange::new(0, 1)),
        ],
        input_fields: vec![(InputValueDefinitionId::new(0), SchemaInputValue::String(StringId::new(0)))],
        key_values: vec![(StringId::new(1), SchemaInputValue::Int(1))],
    }
}

#[test]
fn a_default_value_becomes_a_tree() {
    let schema = defaults();
    let tree = schema_tree(&schema, &names(), &schema.values[0], 4);
    assert!(matches!(&tree, ResolvedValue::List(items)
        if matches!(items.as_slice(), [ResolvedValue::Int(1), ResolvedValue::Int(2)])));

    let tree = schema_tree(&schema, &names(), &schema.values[3], 4);
    assert!(matches!(&tree, ResolvedValue::InputObject(fields)
        if fields.len() == 1 && fields[0].0 == InputValueDefinitionId::new(0)
            && matches!(&fields[0].1, ResolvedValue::Text(s) if s == "a")));

    let tree = schema_tree(&schema, &names(), &schema.values[4], 4);
    assert!(matches!(&tree, ResolvedValue::JsonMap(entries)
        if entries.len() == 1 && entries[0].0 == "k" && matches!(entries[0].1, ResolvedValue::Int(1))));
}

#[test]
fn a_tree_is_cut_where_the_fuel_ends() {
    let schema = defaults();
    let tree = schema_tree(&schema, &names(), &schema.values[0], 0);
    assert!(matches!(tree, ResolvedValue::Null));
    let tree = schema_tree(&schema, &names(), &SchemaInputValue::Int(7), 0);
    assert!(matches!(tree, ResolvedValue::Int(7)));
}

#[test]
fn a_text_outside_the_strings_is_null() {
    let schema = defaults();
    let tree = schema_tree(&schema, &names(), &SchemaInputValue::String(StringId::new(9)), 2);
    assert!(matches!(tree, ResolvedValue::Null));
    let tree = schema_tree(&schema, &names(), &SchemaInputValue::List(IdRange::new(3, 9)), 2);
    assert!(matches!(tree, ResolvedValue::Null));
}

/// An operation's values: slot 0 is the object `{d0: 5, d1: $0, d2: $1}`,
/// slot 1 the value of the first variable, slot 2 a list of a default and a text.
fn operation_values() -> QueryInputValues {
    QueryInputValues {
        values: vec![
            QueryInputValue::InputObject(IdRange::new(0, 3)),
            QueryInputValue::Boolean(true),
            QueryInputValue::List(IdRange::new(3, 5)),
            QueryInputValue::DefaultValue(SchemaInputValueId::new(0)),
            QueryInputValue::String("x".to_string()),
        ],
        input_fields: vec![
            (InputValueDefinitionId::new(0), QueryInputValue::Int(5)),
            (InputValueDefinitionId::new(1), QueryInputValue::Variable(VariableDefinitionId::new(0))),
            (InputValueDefinitionId::new(2), QueryInputValue::Variable(VariableDefinitionId::new(1))),
        ],
        key_values: vec![],
    }
}

#[test]
fn an_object_keeps_its_defined_fields_only() {
    let query = operation_values();
    let schema = defaults();
    let states = vec![VariableState { supplied: true, has_default: false }, VariableState { supplied: false, has_default: false }];
    let values = vec![Some(QueryInputValueId::new(1)), None];
    let variables = VariableValues { states: &states, values: &values };
    let tree = to_input_value(&query, &schema, &names(), &variables, &query.values[0], 4);
    match tree {
        ResolvedValue::InputObject(fields) => {
            assert_eq!(fields.len(), 2);
            assert_eq!(fields[0].0, InputValueDefinitionId::new(0));
            assert!(matches!(fields[0].1, ResolvedValue::Int(5)));
            assert_eq!(fields[1].0, InputValueDefinitionId::new(1));
            assert!(matches!(fields[1].1, ResolvedValue::Boolean(true)));
        }
        other => panic!("no object: {other:?}"),
    }
}

#[test]
fn a_list_follows_defaults_into_the_schema() {
    let query = operation_values();
    let schema = defaults();
    let states: Vec<VariableState> = vec![];
    let values: Vec<Option<QueryInputValueId>> = vec![];
    let variables = VariableValues { states: &states, values: &values };
    let tree = to_input_value(&query, &schema, &names(), &variables, &query.values[2], 4);
    match tree {
        ResolvedValue::List(items) => {
            assert_eq!(items.len(), 2);
            assert!(matches!(&items[0], ResolvedValue::List(inner)
                if matches!(inner.as_slice(), [ResolvedValue::Int(1), ResolvedValue::Int(2)])));
            assert!(matches!(&items[1], ResolvedValue::Text(s) if s == "x"));
        }
        other => panic!("no list: {other:?}"),
    }
}

#[test]
fn a_variable_without_a_value_is_null() {
    let query = operation_values();
    let schema = defaults();
    let states = vec![VariableState { supplied: true, has_default: false }];
    let values = vec![None];
    let variables = VariableValues { states: &states, values: &values };
    let tree = to_input_value(&query, &schema, &names(), &variables, &QueryInputValue::Variable(VariableDefinitionId::new(0)), 4);
    assert!(matches!(tree, ResolvedValue::Null));
}

fn field(name: &str) -> SelectionItem {
    SelectionItem::Field { response_key: name.to_string() }
}

#[test]
fn streams_are_collected_in_the_order_of_the_selections() {
    let fragments = vec![
        Fragment { name: "Rest".to_string(), selection_set: vec![field("c"), SelectionItem::FragmentSpread { fragment_name: "More".to_string() }] },
        Fragment { name: "More".to_string(), selection_set: vec![field("d")] },
    ];
    let items = vec![
        field("a"),
        SelectionItem::InlineFragment { type_condition: Some("Subscription".to_string()), selection_set: vec![field("b")] },
        SelectionItem::InlineFragment { type_condition: Some("Query".to_string()), selection_set: vec![field("no")] },
        SelectionItem::InlineFragment { type_condition: None, selection_set: vec![field("any")] },
        SelectionItem::FragmentSpread { fragment_name: "Rest".to_string() },
        SelectionItem::FragmentSpread { fragment_name: "Missing".to_string() },
        field("e"),
    ];
    let mut streams = vec!["first".to_string()];
    collect_subscription_streams(&items, &fragments, "Subscription", 3, &mut streams);
    assert_eq!(streams, ["first", "a", "b", "any", "c", "d", "e"]);
}

#[test]
fn fragments_that_spread_each_other_end() {
    let fragments = vec![
        Fragment { name: "A".to_string(), selection_set: vec![field("a"), SelectionItem::FragmentSpread { fragment_name: "B".to_string() }] },
        Fragment { name: "B".to_string(), selection_set: vec![field("b"), SelectionItem::FragmentSpread { fragment_name: "A".to_string() }] },
    ];
    let items = vec![SelectionItem::FragmentSpread { fragment_name: "A".to_string() }];
    let mut streams = Vec::new();
    collect_subscription_streams(&items, &fragments, "Subscription", 2, &mut streams);
    assert_eq!(streams, ["a", "b"]);
    let mut streams = Vec::new();
    collect_subscription_streams(&items, &fragments, "Subscription", 0, &mut streams);
    assert!(streams.is_empty());
}

#[test]
fn a_field_that_is_not_there_is_named_in_the_message() {
    assert_eq!(cannot_query_field("ticks", "Subscription"), r#"Cannot query field "ticks" on type "Subscription"."#);
    assert_eq!(qualified_type_name("Subscription"), "Subscription!");
}
