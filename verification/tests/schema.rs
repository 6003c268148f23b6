use graph_gateway::arena::{
    FieldDefinitionId, GraphqlEndpointId, HeaderRuleId, IdRange, InterfaceDefinitionId, ObjectDefinitionId, RequiredFieldId,
    RequiredFieldSetId, StringId, SubgraphId, UrlId,
};
use graph_gateway::directives::to_url;
use graph_gateway::input_values::SchemaInputValues;
use graph_gateway::required::{RequiredField, RequiredFieldSet, RequiredFieldSetItem};
use graph_gateway::schema::{
    graph_is_valid, FederationEntityResolverDefinition, FederationKey, FieldDefinition, Graph, GraphqlEndpoint, GraphqlEndpoints, HeaderRule,
    InterfaceDefinition, ObjectDefinition, OperationLimits, RetryConfig, RootFieldResolverDefinition, Schema, Settings, TypeSystemDirective,
};
use std::time::Duration;

fn graph() -> Graph {
    Graph {
        strings: vec![
            "products".into(),
            "authorization".into(),
            "Node".into(),
            "Product".into(),
            "id".into(),
            "name".into(),
            "key".into(),
            "Entity".into(),
        ],
        urls: vec![to_url("https://products.example/graphql").unwrap(), to_url("wss://products.example/ws").unwrap()],
        subgraphs: 1,
        header_rules: vec![HeaderRule { name: StringId::new(1) }],
        graphql: GraphqlEndpoints {
            endpoints: vec![
                GraphqlEndpoint {
                    subgraph_id: SubgraphId::new(0),
                    subgraph_name: StringId::new(0),
                    url: UrlId::new(0),
                    websocket_url: Some(UrlId::new(1)),
                    header_rules: vec![HeaderRuleId::new(0)],
                    timeout: Duration::from_secs(30),
                    retry: Some(RetryConfig {
                        min_per_second: Some(2),
                        ttl: None,
                        retry_percent_bits: Some(0.1f32.to_bits()),
                        retry_mutations: false,
                    }),
                    entity_cache_ttl: Some(Duration::from_secs(60)),
                },
                GraphqlEndpoint {
                    subgraph_id: SubgraphId::new(0),
                    subgraph_name: StringId::new(0),
                    url: UrlId::new(0),
                    websocket_url: None,
                    header_rules: vec![],
                    timeout: Duration::from_secs(5),
                    retry: None,
                    entity_cache_ttl: None,
                },
            ],
        },
        interfaces: vec![
            InterfaceDefinition {
                name: StringId::new(2),
                fields: IdRange::new(0, 2),
                interfaces: vec![InterfaceDefinitionId::new(1)],
                possible_types: vec![ObjectDefinitionId::new(0)],
                directives: IdRange::new(0, 1),
            },
            InterfaceDefinition {
                name: StringId::new(7),
                fields: IdRange::new(0, 1),
                interfaces: vec![],
                possible_types: vec![],
                directives: IdRange::empty(),
            },
        ],
        objects: vec![ObjectDefinition { name: StringId::new(3), fields: IdRange::new(0, 2) }],
        field_definitions: vec![
            FieldDefinition { name: StringId::new(4), argument_ids: IdRange::empty() },
            FieldDefinition { name: StringId::new(5), argument_ids: IdRange::empty() },
        ],
        input_value_definitions: vec![],
        directives: vec![TypeSystemDirective { name: StringId::new(6) }],
        required_fields: vec![RequiredField { definition_id: FieldDefinitionId::new(0), arguments: vec![] }],
        required_field_sets: vec![RequiredFieldSet {
            items: vec![RequiredFieldSetItem { id: RequiredFieldId::new(0), subselection: RequiredFieldSet { items: vec![] } }],
        }],
        input_values: SchemaInputValues { values: vec![], input_fields: vec![], key_values: vec![] },
        settings: Settings {
            operation_limits: OperationLimits { depth: None, aliases: None, root_fields: None, complexity: None },
            disable_introspection: false,
        },
    }
}

#[test]
fn a_graph_with_a_handle_that_names_nothing_is_no_schema() {
    assert!(graph_is_valid(&graph()));
    let mut broken = graph();
    broken.graphql.endpoints[0].header_rules.push(HeaderRuleId::new(4));
    assert!(!graph_is_valid(&broken));
    assert!(Schema::new(broken).is_none());
    let mut broken = graph();
    broken.interfaces[0].fields = IdRange::new(1, 3);
    assert!(Schema::new(broken).is_none());
    let mut broken = graph();
    broken.directives[0].name = StringId::new(8);
    assert!(Schema::new(broken).is_none());
    let mut broken = graph();
    broken.graphql.endpoints[1].url = UrlId::new(2);
    assert!(Schema::new(broken).is_none());
}

#[test]
fn an_endpoint_is_read_through_its_walker() {
    let schema = Schema::new(graph()).unwrap();
    assert!(schema.walk_endpoint(GraphqlEndpointId::new(2)).is_none());
    let endpoint = schema.walk_endpoint(GraphqlEndpointId::new(0)).unwrap();
    assert_eq!(endpoint.id().index(), 0);
    assert_eq!(endpoint.subgraph_name(), "products");
    assert_eq!(endpoint.timeout(), Duration::from_secs(30));
    assert_eq!(endpoint.entity_cache_ttl(), Some(Duration::from_secs(60)));
    assert_eq!(endpoint.url().as_str(), "https://products.example/graphql");
    assert_eq!(endpoint.websocket_url().as_str(), "wss://products.example/ws");
    assert_eq!(endpoint.as_ref().subgraph_id.index(), 0);
    let retry = endpoint.retry_config().unwrap();
    assert_eq!(retry.min_per_second, Some(2));
    assert_eq!(retry.retry_percent_bits.map(f32::from_bits), Some(0.1f32));
    let rules = endpoint.header_rules();
    assert_eq!(rules.len(), 1);
    assert_eq!(rules[0].name(), "authorization");
    assert_eq!(rules[0].id().index(), 0);

    let plain = schema.walk_endpoint(GraphqlEndpointId::new(1)).unwrap();
    assert_eq!(plain.websocket_url().as_str(), "https://products.example/graphql");
    assert_eq!(plain.entity_cache_ttl(), None);
    assert!(plain.retry_config().is_none());
    assert!(plain.header_rules().is_empty());
}

#[test]
fn resolvers_are_named_after_their_subgraph() {
    let schema = Schema::new(graph()).unwrap();
    let root = RootFieldResolverDefinition { endpoint_id: GraphqlEndpointId::new(0) };
    let walker = schema.walk_root_field_resolver(&root).unwrap();
    assert_eq!(walker.name(), "Graphql root field resolver for subgraph 'products'");
    assert_eq!(walker.subgraph_id().index(), 0);
    assert_eq!(walker.endpoint().id().index(), 0);
    let missing = RootFieldResolverDefinition { endpoint_id: GraphqlEndpointId::new(9) };
    assert!(schema.walk_root_field_resolver(&missing).is_none());

    let entity = FederationEntityResolverDefinition {
        endpoint_id: GraphqlEndpointId::new(1),
        key: FederationKey { fields: RequiredFieldSetId::new(0) },
    };
    let walker = schema.walk_entity_resolver(&entity).unwrap();
    assert_eq!(walker.name(), "Graphql federation entity resolver for subgraph 'products'");
    assert_eq!(walker.subgraph_id().index(), 0);
    assert_eq!(walker.endpoint().id().index(), 1);
    assert_eq!(walker.required_fields().items.len(), 1);
    let keyless = FederationEntityResolverDefinition {
        endpoint_id: GraphqlEndpointId::new(1),
        key: FederationKey { fields: RequiredFieldSetId::new(1) },
    };
    assert!(schema.walk_entity_resolver(&keyless).is_none());
}

#[test]
fn an_interface_is_read_through_its_walker() {
    let schema = Schema::new(graph()).unwrap();
    assert!(schema.walk_interface(InterfaceDefinitionId::new(2)).is_none());
    let node = schema.walk_interface(InterfaceDefinitionId::new(0)).unwrap();
    assert_eq!(node.name(), "Node");
    assert_eq!(node.fields().iter().map(|f| f.name()).collect::<Vec<_>>(), vec!["id", "name"]);
    assert_eq!(node.interfaces().iter().map(|i| i.name()).collect::<Vec<_>>(), vec!["Entity"]);
    assert_eq!(node.possible_types().iter().map(|t| t.name()).collect::<Vec<_>>(), vec!["Product"]);
    let directives = node.directives();
    assert_eq!(directives.len(), 1);
    assert_eq!(directives.name_at(0), "key");
    assert_eq!(node.as_ref().interfaces.len(), 1);
    let entity = schema.walk_interface(InterfaceDefinitionId::new(1)).unwrap();
    assert_eq!(entity.fields().len(), 1);
    assert!(entity.interfaces().is_empty());
    assert_eq!(entity.directives().len(), 0);
    assert_eq!(schema.graph().strings.len(), 8);
}
