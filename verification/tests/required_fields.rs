use graph_gateway::arena::{FieldDefinitionId, IdRange, InputValueDefinitionId, SchemaInputValueId, StringId};
use graph_gateway::input_values::{SchemaInputValue, SchemaInputValues};
use graph_gateway::required::{BuildError, InputValueError, RequiredFieldSet};
use graph_gateway::required_builder::{BuildContext, Converter, FieldSetItem, IdMaps, RequiredFieldSetBuffer};
use graph_gateway::schema::{
    graph_is_valid, FieldDefinition, Graph, GraphqlEndpoints, InputType, InputValueDefinition, OperationLimits, Settings, Wrapping,
};

/// A graph with three fields: `a(x: Int!, y: Int = <default 0>)`, `b` and `c(z: Int)`.
fn graph() -> Graph {
    Graph {
        strings: vec!["a".into(), "b".into(), "c".into(), "x".into(), "y".into(), "z".into()],
        urls: vec![],
        subgraphs: 0,
        header_rules: vec![],
        graphql: GraphqlEndpoints { endpoints: vec![] },
        interfaces: vec![],
        objects: vec![],
        field_definitions: vec![
            FieldDefinition { name: StringId::new(0), argument_ids: IdRange::new(0, 2) },
            FieldDefinition { name: StringId::new(1), argument_ids: IdRange::new(2, 2) },
            FieldDefinition { name: StringId::new(2), argument_ids: IdRange::new(2, 3) },
        ],
        input_value_definitions: vec![
            InputValueDefinition {
                name: StringId::new(3),
                ty: InputType { wrapping: Wrapping { required: true } },
                default_value: None,
            },
            InputValueDefinition {
                name: StringId::new(4),
                ty: InputType { wrapping: Wrapping { required: false } },
                default_value: Some(SchemaInputValueId::new(0)),
            },
            InputValueDefinition {
                name: StringId::new(5),
                ty: InputType { wrapping: Wrapping { required: false } },
                default_value: None,
            },
        ],
        directives: vec![],
        required_fields: vec![],
        required_field_sets: vec![],
        input_values: SchemaInputValues {
            values: vec![SchemaInputValue::Int(0), SchemaInputValue::Int(7), SchemaInputValue::Int(8)],
            input_fields: vec![],
            key_values: vec![],
        },
        settings: Settings {
            operation_limits: OperationLimits { depth: None, aliases: None, root_fields: None, complexity: None },
            disable_introspection: false,
        },
    }
}

/// The composed graph numbers the fields 10, 11, 12 and the arguments 20, 21, 22; field 13 is left out.
fn context() -> BuildContext {
    let mut field = vec![None; 14];
    field[10] = Some(FieldDefinitionId::new(0));
    field[11] = Some(FieldDefinitionId::new(1));
    field[12] = Some(FieldDefinitionId::new(2));
    let mut input_value = vec![None; 23];
    input_value[20] = Some(InputValueDefinitionId::new(0));
    input_value[21] = Some(InputValueDefinitionId::new(1));
    input_value[22] = Some(InputValueDefinitionId::new(2));
    BuildContext { idmaps: IdMaps { field, input_value } }
}

fn item(field: usize, arguments: Vec<(usize, usize)>, subselection: Vec<FieldSetItem>) -> FieldSetItem {
    FieldSetItem {
        field,
        arguments: arguments.into_iter().map(|(id, value)| (id, Ok(SchemaInputValueId::new(value)))).collect(),
        subselection,
    }
}

fn ids(set: &RequiredFieldSet) -> Vec<usize> {
    set.items.iter().map(|item| item.id.index()).collect()
}

#[test]
fn equal_required_fields_share_a_handle() {
    let mut graph = graph();
    assert!(graph_is_valid(&graph));
    let ctx = context();
    let mut buffer = RequiredFieldSetBuffer::new();
    let first = buffer.push("Product.a".to_string(), vec![item(10, vec![(20, 1)], vec![]), item(11, vec![], vec![])]);
    let second = buffer.push("Review.b".to_string(), vec![item(11, vec![], vec![item(10, vec![(20, 1)], vec![])])]);
    let third = buffer.push("Review.c".to_string(), vec![item(10, vec![(20, 2)], vec![]), item(10, vec![(21, 1), (20, 1)], vec![])]);
    assert_eq!((first.index(), second.index(), third.index()), (0, 1, 2));

    buffer.try_insert_into(&ctx, &mut graph).unwrap();

    assert_eq!(graph.required_field_sets.len(), 3);
    assert_eq!(ids(&graph.required_field_sets[0]), vec![0, 1]);
    assert_eq!(ids(&graph.required_field_sets[1]), vec![1]);
    assert_eq!(ids(&graph.required_field_sets[1].items[0].subselection), vec![0]);
    // Another value of `x`, and another value of `y`, are other fields.
    assert_eq!(ids(&graph.required_field_sets[2]), vec![2, 3]);
    assert_eq!(graph.required_fields.len(), 4);
    let arguments: Vec<Vec<(usize, usize)>> = graph
        .required_fields
        .iter()
        .map(|field| field.arguments.iter().map(|(d, v)| (d.index(), v.index())).collect())
        .collect();
    assert_eq!(
        arguments,
        vec![vec![(0, 1), (1, 0)], vec![], vec![(0, 2), (1, 0)], vec![(0, 1), (1, 1)]]
    );
    assert_eq!(graph.required_fields[1].definition_id.index(), 1);
}

#[test]
fn fields_of_other_subgraphs_are_dropped() {
    let mut graph = graph();
    let ctx = context();
    let mut buffer = RequiredFieldSetBuffer::new();
    buffer.push(
        "Product.a".to_string(),
        vec![item(13, vec![], vec![item(11, vec![], vec![])]), item(99, vec![], vec![]), item(12, vec![(99, 1), (21, 1)], vec![])],
    );
    buffer.try_insert_into(&ctx, &mut graph).unwrap();
    assert_eq!(ids(&graph.required_field_sets[0]), vec![0]);
    assert_eq!(graph.required_fields.len(), 1);
    assert_eq!(graph.required_fields[0].definition_id.index(), 2);
    assert!(graph.required_fields[0].arguments.is_empty());
}

#[test]
fn a_required_argument_has_to_be_given() {
    let mut graph = graph();
    let ctx = context();
    let mut buffer = RequiredFieldSetBuffer::new();
    buffer.push("Product.b".to_string(), vec![item(11, vec![], vec![])]);
    buffer.push("Product.a".to_string(), vec![item(11, vec![], vec![item(10, vec![(21, 2)], vec![])])]);
    buffer.push("Product.c".to_string(), vec![item(12, vec![], vec![])]);
    let err = buffer.try_insert_into(&ctx, &mut graph).unwrap_err();
    match err {
        BuildError::RequiredFieldArgumentCoercionError { location, err } => {
            assert_eq!(location, "Product.a");
            assert!(matches!(err, InputValueError::MissingRequiredArgument(name) if name == "x"));
        }
    }
    assert!(graph.required_fields.is_empty());
    assert!(graph.required_field_sets.is_empty());
}

#[test]
fn a_value_that_does_not_fit_is_reported() {
    let mut graph = graph();
    let ctx = context();
    let mut buffer = RequiredFieldSetBuffer::new();
    buffer.push(
        "Product.c".to_string(),
        vec![FieldSetItem {
            field: 12,
            arguments: vec![(22, Err(InputValueError::Coercion("not an Int".to_string())))],
            subselection: vec![],
        }],
    );
    let err = buffer.try_insert_into(&ctx, &mut graph).unwrap_err();
    match err {
        BuildError::RequiredFieldArgumentCoercionError { location, err } => {
            assert_eq!(location, "Product.c");
            assert!(matches!(err, InputValueError::Coercion(message) if message == "not an Int"));
        }
    }
}

#[test]
fn a_converter_keeps_its_table_between_sets() {
    let graph = graph();
    let ctx = context();
    let mut converter = Converter { ctx: &ctx, graph: &graph, deduplicated_fields: vec![] };
    let one = converter.convert_set(&vec![item(11, vec![], vec![])]).unwrap();
    let two = converter.convert_set(&vec![item(12, vec![(22, 1)], vec![]), item(11, vec![], vec![])]).unwrap();
    assert_eq!(ids(&one), vec![0]);
    assert_eq!(ids(&two), vec![1, 0]);
    assert!(converter.convert_item(&item(13, vec![], vec![])).unwrap().is_none());
    assert_eq!(converter.convert_item(&item(12, vec![(22, 1)], vec![])).unwrap().unwrap().id.index(), 1);
    assert_eq!(converter.deduplicated_fields.len(), 2);
}

#[test]
fn a_field_that_cannot_be_built_gets_no_handle() {
    let graph = graph();
    let ctx = context();
    let mut converter = Converter { ctx: &ctx, graph: &graph, deduplicated_fields: vec![] };
    converter.convert_item(&item(11, vec![], vec![])).unwrap();
    assert_eq!(converter.deduplicated_fields.len(), 1);
    // `a` lacks its required argument: the table stays as it was.
    let err = converter.convert_item(&item(10, vec![(21, 2)], vec![])).unwrap_err();
    assert!(matches!(err, InputValueError::MissingRequiredArgument(name) if name == "x"));
    assert_eq!(converter.deduplicated_fields.len(), 1);
    // An item below fails: the field above it has its handle by then, and nothing else is added.
    let err = converter.convert_item(&item(12, vec![], vec![item(12, vec![(22, 1)], vec![]), item(10, vec![], vec![])])).unwrap_err();
    assert!(matches!(err, InputValueError::MissingRequiredArgument(name) if name == "x"));
    assert_eq!(converter.deduplicated_fields.len(), 3);
    assert_eq!(converter.convert_item(&item(12, vec![], vec![])).unwrap().unwrap().id.index(), 1);
    assert_eq!(converter.convert_item(&item(12, vec![(22, 1)], vec![])).unwrap().unwrap().id.index(), 2);
    assert_eq!(converter.deduplicated_fields.len(), 3);
}

#[test]
fn two_declarations_of_one_field_share_its_handle() {
    let graph = graph();
    let ctx = context();
    let mut converter = Converter { ctx: &ctx, graph: &graph, deduplicated_fields: vec![] };
    let x = converter.convert_item(&item(10, vec![(20, 1)], vec![])).unwrap().unwrap();
    let y = converter.convert_item(&item(10, vec![(20, 1)], vec![])).unwrap().unwrap();
    let z = converter.convert_item(&item(10, vec![(20, 2)], vec![])).unwrap().unwrap();
    assert_eq!(x.id, y.id);
    assert_ne!(x.id, z.id);
    assert_eq!(converter.deduplicated_fields.len(), 2);
}
