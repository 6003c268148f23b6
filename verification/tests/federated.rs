use graph_gateway::federated::{
    convert_keys, field_set_to_selection_set, value_from_v3, AuthorizedDirective, EnumValue, EnumValues, AuthorizedDirectiveId, AuthorizedDirectiveV3, Definition,
    Directive, DirectiveId, DirectiveV3, Directives, FederatedGraph, FederatedGraphV3, FieldId, FieldSetItem, FieldSetOfSubgraph, FieldV3, Fields,
    InputValueDefinitionId, InputValueDefinitionV3, InputValueDefinitions, InterfaceId, InterfaceV3, KeyV1, Named, ObjectId, ObjectV3,
    RootOperationTypes, Selection, StringId, Subgraph, SubgraphId, Value, ValueV3,
};

fn no_directives() -> Directives {
    Directives { start: DirectiveId(0), len: 0 }
}

fn field_set() -> Vec<FieldSetItem> {
    vec![FieldSetItem {
        field: FieldId(3),
        arguments: vec![(InputValueDefinitionId(1), ValueV3::EnumValue(StringId(4)))],
        subselection: vec![FieldSetItem { field: FieldId(4), arguments: vec![], subselection: vec![] }],
    }]
}

fn authorized(marker: i64) -> AuthorizedDirective {
    AuthorizedDirective { fields: None, node: None, metadata: Some(Value::Int(marker)) }
}

#[test]
fn values_are_brought_up() {
    assert!(value_from_v3(&ValueV3::Null).is_null());
    assert!(matches!(value_from_v3(&ValueV3::EnumValue(StringId(2))), Value::String(StringId(2))));
    assert!(matches!(value_from_v3(&ValueV3::Float(7)), Value::Float(7)));
    let nested = ValueV3::List(vec![
        ValueV3::Object(vec![(StringId(1), ValueV3::Boolean(true)), (StringId(2), ValueV3::Int(-4))]),
        ValueV3::String(StringId(9)),
    ]);
    let value = value_from_v3(&nested);
    assert!(value.is_list());
    assert!(!value.is_null());
    match value {
        Value::List(items) => {
            assert_eq!(items.len(), 2);
            match &items[0] {
                Value::Object(fields) => {
                    assert_eq!(fields.len(), 2);
                    assert!(matches!(fields[0], (StringId(1), Value::Boolean(true))));
                    assert!(matches!(fields[1], (StringId(2), Value::Int(-4))));
                }
                other => panic!("an object was expected, not {other:?}"),
            }
            assert!(matches!(items[1], Value::String(StringId(9))));
        }
        other => panic!("a list was expected, not {other:?}"),
    }
}

#[test]
fn field_sets_become_selection_sets() {
    let selections = field_set_to_selection_set(&field_set());
    assert_eq!(selections.len(), 1);
    match &selections[0] {
        Selection::Field { field, arguments, subselection } => {
            assert_eq!(*field, FieldId(3));
            assert!(matches!(arguments[..], [(InputValueDefinitionId(1), Value::String(StringId(4)))]));
            assert!(matches!(&subselection[..], [Selection::Field { field: FieldId(4), .. }]));
        }
        other => panic!("a field was expected, not {other:?}"),
    }
    let keys = convert_keys(&vec![KeyV1 { subgraph_id: SubgraphId(2), fields: field_set(), is_interface_object: true, resolvable: false }]);
    assert_eq!(keys.len(), 1);
    assert_eq!(keys[0].subgraph_id, SubgraphId(2));
    assert_eq!(keys[0].fields.len(), 1);
    assert!(keys[0].is_interface_object);
    assert!(!keys[0].resolvable);
}

#[test]
fn a_graph_is_brought_up() {
    let old = FederatedGraphV3 {
        subgraphs: vec![Subgraph { name: StringId(0), url: StringId(1) }],
        root_operation_types: RootOperationTypes { query: ObjectId(0), mutation: None, subscription: None },
        objects: vec![ObjectV3 {
            name: StringId(2),
            implements_interfaces: vec![InterfaceId(0)],
            keys: vec![KeyV1 { subgraph_id: SubgraphId(0), fields: field_set(), is_interface_object: false, resolvable: true }],
            composed_directives: Directives { start: DirectiveId(0), len: 2 },
            fields: Fields { start: FieldId(0), end: FieldId(1) },
            description: Some(StringId(3)),
        }],
        interfaces: vec![InterfaceV3 {
            name: StringId(4),
            implements_interfaces: vec![],
            keys: vec![],
            composed_directives: no_directives(),
            fields: Fields { start: FieldId(0), end: FieldId(0) },
            description: None,
        }],
        fields: vec![FieldV3 {
            name: StringId(5),
            arguments: InputValueDefinitions { start: InputValueDefinitionId(0), len: 1 },
            resolvable_in: vec![SubgraphId(0)],
            provides: vec![FieldSetOfSubgraph { subgraph_id: SubgraphId(0), fields: field_set() }],
            requires: vec![],
            composed_directives: no_directives(),
            description: None,
        }],
        enums: vec![Named { name: StringId(6), description: None }],
        unions: vec![],
        scalars: vec![Named { name: StringId(7), description: None }],
        input_objects: vec![],
        enum_values: vec![EnumValue { name: StringId(8), composed_directives: no_directives(), description: None }],
        input_value_definitions: vec![InputValueDefinitionV3 {
            name: StringId(5),
            directives: no_directives(),
            description: None,
            default: Some(ValueV3::EnumValue(StringId(6))),
        }],
        strings: (0..8).map(|i| format!("s{i}")).collect(),
        directives: vec![
            DirectiveV3::Authenticated,
            DirectiveV3::Other { name: StringId(1), arguments: vec![(StringId(2), ValueV3::Int(3))] },
            DirectiveV3::Deprecated { reason: Some(StringId(3)) },
            DirectiveV3::Policy(vec![vec![StringId(1)]]),
        ],
        authorized_directives: vec![AuthorizedDirectiveV3 { fields: Some(field_set()), node: None, metadata: Some(ValueV3::Null) }],
        field_authorized_directives: vec![(FieldId(0), AuthorizedDirectiveId(0))],
        object_authorized_directives: vec![(ObjectId(0), AuthorizedDirectiveId(0))],
        interface_authorized_directives: vec![],
    };
    let graph = FederatedGraph::from_v3(old);
    assert_eq!(graph.subgraphs.len(), 1);
    assert_eq!(graph.objects[0].name, StringId(2));
    assert_eq!(graph.objects[0].implements_interfaces, vec![InterfaceId(0)]);
    assert!(graph.objects[0].join_implements.is_empty());
    assert_eq!(graph.objects[0].keys.len(), 1);
    assert_eq!(graph.objects[0].composed_directives.len, 2);
    assert_eq!(graph.objects[0].description, Some(StringId(3)));
    assert!(graph.interfaces[0].implemented_in.is_empty());
    assert_eq!(graph.fields[0].provides.len(), 1);
    assert_eq!(graph.fields[0].provides[0].fields.len(), 1);
    assert_eq!(graph.fields[0].resolvable_in, vec![SubgraphId(0)]);
    assert!(matches!(graph.input_value_definitions[0].default, Some(Value::String(StringId(6)))));
    assert!(matches!(graph.directives[0], Directive::Authenticated));
    assert!(matches!(&graph.directives[1], Directive::Other { name: StringId(1), arguments } if matches!(arguments[..], [(StringId(2), Value::Int(3))])));
    assert!(matches!(graph.directives[2], Directive::Deprecated { reason: Some(StringId(3)) }));
    assert!(matches!(&graph.directives[3], Directive::Policy(policy) if policy == &vec![vec![StringId(1)]]));
    assert!(graph.authorized_directives[0].fields.is_some());
    assert_eq!(graph.enum_values, vec![EnumValue { name: StringId(8), composed_directives: no_directives(), description: None }]);
    assert_eq!(graph.field_authorized_directives, vec![(FieldId(0), AuthorizedDirectiveId(0))]);
    assert!(matches!(graph.authorized_directives[0].metadata, Some(Value::Null)));
    assert_eq!(graph.definition_name(Definition::Object(ObjectId(0))), Some("s2"));
    assert_eq!(graph.definition_name(Definition::Interface(InterfaceId(0))), Some("s4"));
    assert_eq!(graph.definition_name(Definition::Enum(graph_gateway::federated::EnumId(0))), Some("s6"));
    assert_eq!(graph.definition_name(Definition::Scalar(graph_gateway::federated::ScalarId(0))), Some("s7"));
    assert_eq!(graph.definition_name(Definition::Union(graph_gateway::federated::UnionId(0))), None);
    assert_eq!(graph.iter_objects().iter().map(|(id, o)| (id.0, o.name.0)).collect::<Vec<_>>(), vec![(0, 2)]);
    assert_eq!(graph.iter_interfaces().iter().map(|(id, i)| (id.0, i.name.0)).collect::<Vec<_>>(), vec![(0, 4)]);
}

#[test]
fn the_empty_graph_has_the_query_root() {
    let graph = FederatedGraph::default();
    assert_eq!(graph.strings, vec!["Query", "__type", "__schema"]);
    assert_eq!(graph.definition_name(Definition::Object(graph.root_operation_types.query)), Some("Query"));
    assert_eq!(graph.fields.len(), 2);
    assert_eq!(graph.objects[0].fields, Fields { start: FieldId(0), end: FieldId(2) });
}

#[test]
fn authorized_directives_are_found_by_bisection() {
    let mut graph = FederatedGraph::default();
    graph.authorized_directives = (0..6).map(authorized).collect();
    graph.object_authorized_directives = vec![
        (ObjectId(1), AuthorizedDirectiveId(5)),
        (ObjectId(3), AuthorizedDirectiveId(0)),
        (ObjectId(3), AuthorizedDirectiveId(2)),
        (ObjectId(3), AuthorizedDirectiveId(1)),
        (ObjectId(7), AuthorizedDirectiveId(4)),
    ];
    graph.interface_authorized_directives = vec![(InterfaceId(2), AuthorizedDirectiveId(3)), (InterfaceId(2), AuthorizedDirectiveId(4))];
    let markers = |found: Vec<&AuthorizedDirective>| -> Vec<i64> {
        found
            .into_iter()
            .map(|d| match d.metadata {
                Some(Value::Int(i)) => i,
                _ => -1,
            })
            .collect()
    };
    assert_eq!(markers(graph.object_authorized_directives(ObjectId(3))), vec![0, 2, 1]);
    assert_eq!(markers(graph.object_authorized_directives(ObjectId(1))), vec![5]);
    assert_eq!(markers(graph.object_authorized_directives(ObjectId(7))), vec![4]);
    assert!(graph.object_authorized_directives(ObjectId(0)).is_empty());
    assert!(graph.object_authorized_directives(ObjectId(5)).is_empty());
    assert!(graph.object_authorized_directives(ObjectId(9)).is_empty());
    assert_eq!(markers(graph.interface_authorized_directives(InterfaceId(2))), vec![3, 4]);
    assert!(graph.interface_authorized_directives(InterfaceId(1)).is_empty());
}

#[test]
fn runs_are_read_as_slices() {
    let mut graph = FederatedGraph::default();
    assert_eq!(graph.fields_in(Fields { start: FieldId(0), end: FieldId(2) }).len(), 2);
    assert_eq!(graph.fields_in(Fields { start: FieldId(1), end: FieldId(2) })[0].name, StringId(2));
    assert!(graph.fields_in(Fields { start: FieldId(2), end: FieldId(2) }).is_empty());
    assert!(graph.directives_in(no_directives()).is_empty());
    graph.directives = vec![Directive::Authenticated, Directive::Inaccessible, Directive::Deprecated { reason: None }];
    let run = graph.directives_in(Directives { start: DirectiveId(1), len: 2 });
    assert!(matches!(run, [Directive::Inaccessible, Directive::Deprecated { reason: None }]));
    graph.enum_values = (0..4).map(|i| EnumValue { name: StringId(i), composed_directives: no_directives(), description: None }).collect();
    let names: Vec<usize> = graph.enum_values_in(EnumValues { start: graph_gateway::federated::EnumValueId(1), len: 2 }).iter().map(|v| v.name.0).collect();
    assert_eq!(names, vec![1, 2]);
    assert!(graph.input_value_definitions_in(InputValueDefinitions { start: InputValueDefinitionId(0), len: 0 }).is_empty());
}
