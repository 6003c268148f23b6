//! The schema as the engine holds it: flat arenas of definitions that refer
//! to each other by handle, and walkers that read them.

use crate::arena::{
    GraphqlEndpointId, HeaderRuleId, IdRange, InterfaceDefinitionId, ObjectDefinitionId, RequiredFieldSetId, SchemaInputValueId, StringId,
    SubgraphId, UrlId,
};
use crate::input_values::SchemaInputValues;
use crate::required::{RequiredField, RequiredFieldSet};
use crate::text::concat3;
use std::time::Duration;
use url::Url;
use vstd::prelude::*;

verus! {

#[verifier::external_type_specification]
#[verifier::external_body]
pub struct ExUrl(Url);

/// How often failed requests to a subgraph are tried again.
#[derive(Debug)]
pub struct RetryConfig {
    /// How many retries are available per second, at a minimum.
    pub min_per_second: Option<u32>,
    /// For how long the budget remembers successful requests.
    pub ttl: Option<Duration>,
    /// The share of the budget of successful requests that retries may use,
    /// as the bits of a single-precision number.
    pub retry_percent_bits: Option<u32>,
    /// Whether mutations are retried at all.
    pub retry_mutations: bool,
}

/// A GraphQL endpoint of a subgraph.
#[derive(Debug)]
pub struct GraphqlEndpoint {
    pub subgraph_id: SubgraphId,
    pub subgraph_name: StringId,
    pub url: UrlId,
    pub websocket_url: Option<UrlId>,
    pub header_rules: Vec<HeaderRuleId>,
    pub timeout: Duration,
    pub retry: Option<RetryConfig>,
    /// For how long entities of this subgraph are cached; not at all if `None`.
    pub entity_cache_ttl: Option<Duration>,
}

/// The GraphQL endpoints of a schema.
#[derive(Debug)]
pub struct GraphqlEndpoints {
    pub endpoints: Vec<GraphqlEndpoint>,
}

/// The resolver of a root field of a GraphQL subgraph.
#[derive(Debug, PartialEq, Eq, Structural)]
pub struct RootFieldResolverDefinition {
    pub endpoint_id: GraphqlEndpointId,
}

/// The key by which a subgraph finds an entity.
#[derive(Debug, PartialEq, Eq, Structural)]
pub struct FederationKey {
    pub fields: RequiredFieldSetId,
}

/// The resolver of an entity of a federated GraphQL subgraph.
#[derive(Debug, PartialEq, Eq, Structural)]
pub struct FederationEntityResolverDefinition {
    pub endpoint_id: GraphqlEndpointId,
    pub key: FederationKey,
}

/// A rule on the headers of the requests to a subgraph.
#[derive(Debug)]
pub struct HeaderRule {
    pub name: StringId,
}

/// Whether a value of a type has to be there.
#[derive(Clone, Copy, Debug, PartialEq, Eq, Structural)]
pub struct Wrapping {
    pub required: bool,
}

impl Wrapping {
    pub fn is_required(self) -> (r: bool)
        ensures
            r == self.required,
    {
        self.required
    }
}

/// The type of an argument or input field.
#[derive(Clone, Copy, Debug, PartialEq, Eq, Structural)]
pub struct InputType {
    pub wrapping: Wrapping,
}

/// The definition of an argument or input field.
#[derive(Debug)]
pub struct InputValueDefinition {
    pub name: StringId,
    pub ty: InputType,
    pub default_value: Option<SchemaInputValueId>,
}

/// The definition of a field of an object or interface.
#[derive(Debug)]
pub struct FieldDefinition {
    pub name: StringId,
    /// The field's arguments, in the order of their declaration.
    pub argument_ids: IdRange,
}

/// The definition of an object type.
#[derive(Debug)]
pub struct ObjectDefinition {
    pub name: StringId,
    pub fields: IdRange,
}

/// The definition of an interface.
#[derive(Debug)]
pub struct InterfaceDefinition {
    pub name: StringId,
    pub fields: IdRange,
    pub interfaces: Vec<InterfaceDefinitionId>,
    pub possible_types: Vec<ObjectDefinitionId>,
    pub directives: IdRange,
}

/// A directive on a type of the schema.
#[derive(Debug)]
pub struct TypeSystemDirective {
    pub name: StringId,
}

/// The ceilings that an operation has to stay under; `None` sets no ceiling.
#[derive(Clone, Copy, Debug, PartialEq, Eq, Structural)]
pub struct OperationLimits {
    pub depth: Option<u16>,
    pub aliases: Option<u16>,
    pub root_fields: Option<u16>,
    pub complexity: Option<u16>,
}

/// The settings of a schema.
#[derive(Debug)]
pub struct Settings {
    pub operation_limits: OperationLimits,
    pub disable_introspection: bool,
}

/// The arenas of a schema. A graph is plain data: nothing is promised of the
/// handles in it until it has become a [`Schema`].
#[derive(Debug)]
pub struct Graph {
    pub strings: Vec<String>,
    pub urls: Vec<Url>,
    pub subgraphs: usize,
    pub header_rules: Vec<HeaderRule>,
    pub graphql: GraphqlEndpoints,
    pub interfaces: Vec<InterfaceDefinition>,
    pub objects: Vec<ObjectDefinition>,
    pub field_definitions: Vec<FieldDefinition>,
    pub input_value_definitions: Vec<InputValueDefinition>,
    pub directives: Vec<TypeSystemDirective>,
    /// The required fields, each once, in the order of their handles.
    pub required_fields: Vec<RequiredField>,
    /// The required field sets, in the order in which they were asked for.
    pub required_field_sets: Vec<RequiredFieldSet>,
    /// The default values of arguments and input fields.
    pub input_values: SchemaInputValues,
    pub settings: Settings,
}

/// Whether the handles of an endpoint name elements of the graph.
pub open spec fn endpoint_valid(endpoint: GraphqlEndpoint, graph: Graph) -> bool {
    &&& endpoint.subgraph_id.position() < graph.subgraphs
    &&& endpoint.subgraph_name.position() < graph.strings.len()
    &&& endpoint.url.position() < graph.urls.len()
    &&& endpoint.websocket_url is Some ==> endpoint.websocket_url->Some_0.position() < graph.urls.len()
    &&& forall|i: int| 0 <= i < endpoint.header_rules.len() ==> (#[trigger] endpoint.header_rules[i]).position() < graph.header_rules.len()
}

/// Whether the handles of an interface name elements of the graph.
pub open spec fn interface_valid(interface: InterfaceDefinition, graph: Graph) -> bool {
    &&& interface.name.position() < graph.strings.len()
    &&& interface.fields.within(graph.field_definitions.len() as nat)
    &&& interface.directives.within(graph.directives.len() as nat)
    &&& forall|i: int| 0 <= i < interface.interfaces.len() ==> (#[trigger] interface.interfaces[i]).position() < graph.interfaces.len()
    &&& forall|i: int| 0 <= i < interface.possible_types.len() ==> (#[trigger] interface.possible_types[i]).position() < graph.objects.len()
}

/// Whether every handle in a graph names an element of the graph.
pub open spec fn graph_valid(graph: Graph) -> bool {
    &&& forall|i: int| 0 <= i < graph.header_rules.len() ==> (#[trigger] graph.header_rules[i]).name.position() < graph.strings.len()
    &&& forall|i: int| 0 <= i < graph.graphql.endpoints.len() ==> endpoint_valid(#[trigger] graph.graphql.endpoints[i], graph)
    &&& forall|i: int| 0 <= i < graph.interfaces.len() ==> interface_valid(#[trigger] graph.interfaces[i], graph)
    &&& forall|i: int|
        0 <= i < graph.objects.len() ==> (#[trigger] graph.objects[i]).name.position() < graph.strings.len() && graph.objects[i].fields.within(
            graph.field_definitions.len() as nat,
        )
    &&& forall|i: int|
        0 <= i < graph.field_definitions.len() ==> (#[trigger] graph.field_definitions[i]).name.position() < graph.strings.len()
            && graph.field_definitions[i].argument_ids.within(graph.input_value_definitions.len() as nat)
    &&& forall|i: int|
        0 <= i < graph.input_value_definitions.len() ==> (#[trigger] graph.input_value_definitions[i]).name.position() < graph.strings.len() && (
        graph.input_value_definitions[i].default_value is Some ==> graph.input_value_definitions[i].default_value->Some_0.position()
            < graph.input_values.values.len())
    &&& forall|i: int| 0 <= i < graph.directives.len() ==> (#[trigger] graph.directives[i]).name.position() < graph.strings.len()
}

fn endpoint_is_valid(endpoint: &GraphqlEndpoint, graph: &Graph) -> (r: bool)
    ensures
        r == endpoint_valid(*endpoint, *graph),
{
    if !(endpoint.subgraph_id.index() < graph.subgraphs && endpoint.subgraph_name.index() < graph.strings.len() && endpoint.url.index()
        < graph.urls.len()) {
        return false;
    }
    match endpoint.websocket_url {
        Some(url) => {
            if url.index() >= graph.urls.len() {
                return false;
            }
        },
        None => {},
    }
    let mut i: usize = 0;
    while i < endpoint.header_rules.len()
        invariant
            i <= endpoint.header_rules.len(),
            forall|j: int| 0 <= j < i ==> (#[trigger] endpoint.header_rules[j]).position() < graph.header_rules.len(),
        decreases endpoint.header_rules.len() - i,
    {
        if endpoint.header_rules[i].index() >= graph.header_rules.len() {
            return false;
        }
        i = i + 1;
    }
    true
}

fn range_is_within(range: IdRange, n: usize) -> (r: bool)
    ensures
        r == range.within(n as nat),
{
    range.start <= range.end && range.end <= n
}

fn interface_is_valid(interface: &InterfaceDefinition, graph: &Graph) -> (r: bool)
    ensures
        r == interface_valid(*interface, *graph),
{
    if !(interface.name.index() < graph.strings.len() && range_is_within(interface.fields, graph.field_definitions.len()) && range_is_within(
        interface.directives,
        graph.directives.len(),
    )) {
        return false;
    }
    let mut i: usize = 0;
    while i < interface.interfaces.len()
        invariant
            i <= interface.interfaces.len(),
            forall|j: int| 0 <= j < i ==> (#[trigger] interface.interfaces[j]).position() < graph.interfaces.len(),
        decreases interface.interfaces.len() - i,
    {
        if interface.interfaces[i].index() >= graph.interfaces.len() {
            return false;
        }
        i = i + 1;
    }
    let mut k: usize = 0;
    while k < interface.possible_types.len()
        invariant
            k <= interface.possible_types.len(),
            forall|j: int| 0 <= j < interface.interfaces.len() ==> (#[trigger] interface.interfaces[j]).position() < graph.interfaces.len(),
            forall|j: int| 0 <= j < k ==> (#[trigger] interface.possible_types[j]).position() < graph.objects.len(),
        decreases interface.possible_types.len() - k,
    {
        if interface.possible_types[k].index() >= graph.objects.len() {
            return false;
        }
        k = k + 1;
    }
    true
}

/// Checks that every handle in a graph names an element of the graph.
pub fn graph_is_valid(graph: &Graph) -> (r: bool)
    ensures
        r == graph_valid(*graph),
{
    let mut i: usize = 0;
    while i < graph.header_rules.len()
        invariant
            i <= graph.header_rules.len(),
            forall|j: int| 0 <= j < i ==> (#[trigger] graph.header_rules[j]).name.position() < graph.strings.len(),
        decreases graph.header_rules.len() - i,
    {
        if graph.header_rules[i].name.index() >= graph.strings.len() {
            return false;
        }
        i = i + 1;
    }
    i = 0;
    while i < graph.graphql.endpoints.len()
        invariant
            i <= graph.graphql.endpoints.len(),
            forall|j: int| 0 <= j < i ==> endpoint_valid(#[trigger] graph.graphql.endpoints[j], *graph),
        decreases graph.graphql.endpoints.len() - i,
    {
        if !endpoint_is_valid(&graph.graphql.endpoints[i], graph) {
            return false;
        }
        i = i + 1;
    }
    i = 0;
    while i < graph.interfaces.len()
        invariant
            i <= graph.interfaces.len(),
            forall|j: int| 0 <= j < i ==> interface_valid(#[trigger] graph.interfaces[j], *graph),
        decreases graph.interfaces.len() - i,
    {
        if !interface_is_valid(&graph.interfaces[i], graph) {
            return false;
        }
        i = i + 1;
    }
    i = 0;
    while i < graph.objects.len()
        invariant
            i <= graph.objects.len(),
            forall|j: int|
                0 <= j < i ==> (#[trigger] graph.objects[j]).name.position() < graph.strings.len() && graph.objects[j].fields.within(
                    graph.field_definitions.len() as nat,
                ),
        decreases graph.objects.len() - i,
    {
        if !(graph.objects[i].name.index() < graph.strings.len() && range_is_within(graph.objects[i].fields, graph.field_definitions.len())) {
            return false;
        }
        i = i + 1;
    }
    i = 0;
    while i < graph.field_definitions.len()
        invariant
            i <= graph.field_definitions.len(),
            forall|j: int|
                0 <= j < i ==> (#[trigger] graph.field_definitions[j]).name.position() < graph.strings.len()
                    && graph.field_definitions[j].argument_ids.within(graph.input_value_definitions.len() as nat),
        decreases graph.field_definitions.len() - i,
    {
        if !(graph.field_definitions[i].name.index() < graph.strings.len() && range_is_within(
            graph.field_definitions[i].argument_ids,
            graph.input_value_definitions.len(),
        )) {
            return false;
        }
        i = i + 1;
    }
    i = 0;
    while i < graph.input_value_definitions.len()
        invariant
            i <= graph.input_value_definitions.len(),
            forall|j: int|
                0 <= j < i ==> (#[trigger] graph.input_value_definitions[j]).name.position() < graph.strings.len() && (
                graph.input_value_definitions[j].default_value is Some ==> graph.input_value_definitions[j].default_value->Some_0.position()
                    < graph.input_values.values.len()),
        decreases graph.input_value_definitions.len() - i,
    {
        let definition = &graph.input_value_definitions[i];
        if definition.name.index() >= graph.strings.len() {
            return false;
        }
        match definition.default_value {
            Some(id) => {
                if id.index() >= graph.input_values.values.len() {
                    return false;
                }
            },
            None => {},
        }
        i = i + 1;
    }
    i = 0;
    while i < graph.directives.len()
        invariant
            i <= graph.directives.len(),
            forall|j: int| 0 <= j < i ==> (#[trigger] graph.directives[j]).name.position() < graph.strings.len(),
        decreases graph.directives.len() - i,
    {
        if graph.directives[i].name.index() >= graph.strings.len() {
            return false;
        }
        i = i + 1;
    }
    true
}

/// A schema: a graph in which every handle names an element of the graph.
#[derive(Debug)]
pub struct Schema {
    graph: Graph,
}

impl Schema {
    #[verifier::type_invariant]
    closed spec fn valid(&self) -> bool {
        graph_valid(self.graph)
    }

    /// The graph of the schema.
    pub closed spec fn graph_spec(&self) -> Graph {
        self.graph
    }

    /// The schema of a graph; `None` where a handle in the graph names nothing.
    pub fn new(graph: Graph) -> (r: Option<Schema>)
        ensures
            r is Some == graph_valid(graph),
            r is Some ==> r->Some_0.graph_spec() == graph,
    {
        if graph_is_valid(&graph) {
            Some(Schema { graph })
        } else {
            None
        }
    }

    /// The graph of the schema.
    pub fn graph(&self) -> (r: &Graph)
        ensures
            *r == self.graph_spec(),
            graph_valid(*r),
    {
        proof {
            use_type_invariant(self);
        }
        &self.graph
    }

    /// The walker of an endpoint, if the schema has it.
    pub fn walk_endpoint(&self, id: GraphqlEndpointId) -> (r: Option<GraphqlEndpointWalker<'_>>)
        ensures
            r is Some == (id.position() < self.graph_spec().graphql.endpoints.len()),
            r is Some ==> r->Some_0.schema_spec() == *self && r->Some_0.id_spec() == id,
    {
        if id.index() < self.graph.graphql.endpoints.len() {
            Some(GraphqlEndpointWalker { schema: self, item: id })
        } else {
            None
        }
    }

    /// The walker of the resolver of a root field, if its endpoint is one of the schema's.
    pub fn walk_root_field_resolver<'a>(&'a self, definition: &'a RootFieldResolverDefinition) -> (r: Option<RootFieldResolverDefinitionWalker<'a>>)
        ensures
            r is Some == (definition.endpoint_id.position() < self.graph_spec().graphql.endpoints.len()),
            r is Some ==> r->Some_0.schema_spec() == *self && r->Some_0.definition_spec() == *definition,
    {
        if definition.endpoint_id.index() < self.graph.graphql.endpoints.len() {
            Some(RootFieldResolverDefinitionWalker { schema: self, item: definition })
        } else {
            None
        }
    }

    /// The walker of the resolver of an entity, if its endpoint and its key are the schema's.
    pub fn walk_entity_resolver<'a>(&'a self, definition: &'a FederationEntityResolverDefinition) -> (r: Option<
        FederationEntityResolveDefinitionrWalker<'a>,
    >)
        ensures
            r is Some == (definition.endpoint_id.position() < self.graph_spec().graphql.endpoints.len() && definition.key.fields.position()
                < self.graph_spec().required_field_sets.len()),
            r is Some ==> r->Some_0.schema_spec() == *self && r->Some_0.definition_spec() == *definition,
    {
        if definition.endpoint_id.index() < self.graph.graphql.endpoints.len() && definition.key.fields.index()
            < self.graph.required_field_sets.len() {
            Some(FederationEntityResolveDefinitionrWalker { schema: self, item: definition })
        } else {
            None
        }
    }

    /// The walker of an interface, if the schema has it.
    pub fn walk_interface(&self, id: InterfaceDefinitionId) -> (r: Option<InterfaceDefinitionWalker<'_>>)
        ensures
            r is Some == (id.position() < self.graph_spec().interfaces.len()),
            r is Some ==> r->Some_0.schema_spec() == *self && r->Some_0.id_spec() == id,
    {
        if id.index() < self.graph.interfaces.len() {
            Some(InterfaceDefinitionWalker { schema: self, item: id })
        } else {
            None
        }
    }
}

/// Reads a GraphQL endpoint of a schema.
#[derive(Clone, Copy, Debug)]
pub struct GraphqlEndpointWalker<'a> {
    schema: &'a Schema,
    item: GraphqlEndpointId,
}

impl<'a> GraphqlEndpointWalker<'a> {
    #[verifier::type_invariant]
    closed spec fn in_schema(&self) -> bool {
        self.item.position() < self.schema.graph.graphql.endpoints.len()
    }

    pub closed spec fn schema_spec(&self) -> Schema {
        *self.schema
    }

    pub closed spec fn id_spec(&self) -> GraphqlEndpointId {
        self.item
    }

    /// The endpoint that the walker reads.
    pub open spec fn endpoint(&self) -> GraphqlEndpoint {
        self.schema_spec().graph_spec().graphql.endpoints[self.id_spec().position() as int]
    }

    pub fn id(&self) -> (r: GraphqlEndpointId)
        ensures
            r == self.id_spec(),
    {
        self.item
    }

    pub fn as_ref(&self) -> (r: &'a GraphqlEndpoint)
        ensures
            *r == self.endpoint(),
            endpoint_valid(*r, self.schema_spec().graph_spec()),
            graph_valid(self.schema_spec().graph_spec()),
    {
        proof {
            use_type_invariant(self);
            use_type_invariant(self.schema);
        }
        &self.schema.graph.graphql.endpoints[self.item.index()]
    }

    /// The name of the endpoint's subgraph.
    pub fn subgraph_name(&self) -> (r: &'a str)
        ensures
            r@ == self.schema_spec().graph_spec().strings[self.endpoint().subgraph_name.position() as int]@,
    {
        let endpoint = self.as_ref();
        self.schema.graph.strings[endpoint.subgraph_name.index()].as_str()
    }

    pub fn timeout(self) -> (r: Duration)
        ensures
            r == self.endpoint().timeout,
    {
        self.as_ref().timeout
    }

    pub fn url(&self) -> (r: &'a Url)
        ensures
            *r == self.schema_spec().graph_spec().urls[self.endpoint().url.position() as int],
    {
        let endpoint = self.as_ref();
        &self.schema.graph.urls[endpoint.url.index()]
    }

    /// The URL for websockets: the endpoint's own where it has one, else its URL.
    pub fn websocket_url(&self) -> (r: &'a Url)
        ensures
            *r == self.schema_spec().graph_spec().urls[(match self.endpoint().websocket_url {
                Some(id) => id.position(),
                None => self.endpoint().url.position(),
            }) as int],
    {
        let endpoint = self.as_ref();
        match endpoint.websocket_url {
            Some(websocket_id) => &self.schema.graph.urls[websocket_id.index()],
            None => self.url(),
        }
    }

    /// The header rules of the endpoint, in their order.
    pub fn header_rules(self) -> (r: Vec<HeaderRuleWalker<'a>>)
        ensures
            r.len() == self.endpoint().header_rules.len(),
            forall|i: int| 0 <= i < r.len() ==> (#[trigger] r[i]).id_spec() == self.endpoint().header_rules[i] && r[i].schema_spec() == self.schema_spec(),
    {
        let endpoint = self.as_ref();
        let mut out: Vec<HeaderRuleWalker<'a>> = Vec::new();
        let mut i: usize = 0;
        while i < endpoint.header_rules.len()
            invariant
                i <= endpoint.header_rules.len(),
                *endpoint == self.endpoint(),
                endpoint_valid(*endpoint, self.schema_spec().graph_spec()),
                out.len() == i,
                forall|j: int| 0 <= j < i ==> (#[trigger] out[j]).id_spec() == endpoint.header_rules[j] && out[j].schema_spec() == self.schema_spec(),
            decreases endpoint.header_rules.len() - i,
        {
            out.push(HeaderRuleWalker { schema: self.schema, item: endpoint.header_rules[i] });
            i = i + 1;
        }
        out
    }

    pub fn entity_cache_ttl(self) -> (r: Option<Duration>)
        ensures
            r == self.endpoint().entity_cache_ttl,
    {
        self.as_ref().entity_cache_ttl
    }

    pub fn retry_config(self) -> (r: Option<&'a RetryConfig>)
        ensures
            r is Some == self.endpoint().retry is Some,
            r is Some ==> *r->Some_0 == self.endpoint().retry->Some_0,
    {
        self.as_ref().retry.as_ref()
    }
}

/// Reads a header rule of a schema.
#[derive(Clone, Copy, Debug)]
pub struct HeaderRuleWalker<'a> {
    schema: &'a Schema,
    item: HeaderRuleId,
}

impl<'a> HeaderRuleWalker<'a> {
    #[verifier::type_invariant]
    closed spec fn in_schema(&self) -> bool {
        self.item.position() < self.schema.graph.header_rules.len()
    }

    pub closed spec fn schema_spec(&self) -> Schema {
        *self.schema
    }

    pub closed spec fn id_spec(&self) -> HeaderRuleId {
        self.item
    }

    pub fn id(&self) -> (r: HeaderRuleId)
        ensures
            r == self.id_spec(),
    {
        self.item
    }

    /// The name of the header that the rule is about.
    pub fn name(&self) -> (r: &'a str)
        ensures
            r@ == self.schema_spec().graph_spec().strings[self.schema_spec().graph_spec().header_rules[self.id_spec().position() as int].name.position() as int]@,
    {
        proof {
            use_type_invariant(self);
            use_type_invariant(self.schema);
        }
        let rule = &self.schema.graph.header_rules[self.item.index()];
        self.schema.graph.strings[rule.name.index()].as_str()
    }
}

/// Reads the resolver of a root field of a GraphQL subgraph.
#[derive(Clone, Copy, Debug)]
pub struct RootFieldResolverDefinitionWalker<'a> {
    schema: &'a Schema,
    item: &'a RootFieldResolverDefinition,
}

impl<'a> RootFieldResolverDefinitionWalker<'a> {
    #[verifier::type_invariant]
    closed spec fn in_schema(&self) -> bool {
        self.item.endpoint_id.position() < self.schema.graph.graphql.endpoints.len()
    }

    pub closed spec fn schema_spec(&self) -> Schema {
        *self.schema
    }

    pub closed spec fn definition_spec(&self) -> RootFieldResolverDefinition {
        *self.item
    }

    /// The endpoint that the resolver asks.
    pub fn endpoint(&self) -> (r: GraphqlEndpointWalker<'a>)
        ensures
            r.schema_spec() == self.schema_spec(),
            r.id_spec() == self.definition_spec().endpoint_id,
    {
        proof {
            use_type_invariant(self);
        }
        GraphqlEndpointWalker { schema: self.schema, item: self.item.endpoint_id }
    }

    /// The name of the resolver, for messages.
    pub fn name(&self) -> (r: String)
        ensures
            r@ == "Graphql root field resolver for subgraph '"@ + self.schema_spec().graph_spec().strings[self.schema_spec().graph_spec().graphql.endpoints[self.definition_spec().endpoint_id.position() as int].subgraph_name.position() as int]@
                + "'"@,
    {
        let endpoint = self.endpoint();
        concat3("Graphql root field resolver for subgraph '", endpoint.subgraph_name(), "'")
    }

    pub fn subgraph_id(&self) -> (r: SubgraphId)
        ensures
            r == self.schema_spec().graph_spec().graphql.endpoints[self.definition_spec().endpoint_id.position() as int].subgraph_id,
    {
        self.endpoint().as_ref().subgraph_id
    }
}

/// Reads the resolver of an entity of a federated GraphQL subgraph.
#[derive(Clone, Copy, Debug)]
pub struct FederationEntityResolveDefinitionrWalker<'a> {
    schema: &'a Schema,
    item: &'a FederationEntityResolverDefinition,
}

impl<'a> FederationEntityResolveDefinitionrWalker<'a> {
    #[verifier::type_invariant]
    closed spec fn in_schema(&self) -> bool {
        &&& self.item.endpoint_id.position() < self.schema.graph.graphql.endpoints.len()
        &&& self.item.key.fields.position() < self.schema.graph.required_field_sets.len()
    }

    pub closed spec fn schema_spec(&self) -> Schema {
        *self.schema
    }

    pub closed spec fn definition_spec(&self) -> FederationEntityResolverDefinition {
        *self.item
    }

    /// The endpoint that the resolver asks.
    pub fn endpoint(&self) -> (r: GraphqlEndpointWalker<'a>)
        ensures
            r.schema_spec() == self.schema_spec(),
            r.id_spec() == self.definition_spec().endpoint_id,
    {
        proof {
            use_type_invariant(self);
        }
        GraphqlEndpointWalker { schema: self.schema, item: self.item.endpoint_id }
    }

    /// The name of the resolver, for messages.
    pub fn name(&self) -> (r: String)
        ensures
            r@ == "Graphql federation entity resolver for subgraph '"@ + self.schema_spec().graph_spec().strings[self.schema_spec().graph_spec().graphql.endpoints[self.definition_spec().endpoint_id.position() as int].subgraph_name.position() as int]@
                + "'"@,
    {
        let endpoint = self.endpoint();
        concat3("Graphql federation entity resolver for subgraph '", endpoint.subgraph_name(), "'")
    }

    pub fn subgraph_id(&self) -> (r: SubgraphId)
        ensures
            r == self.schema_spec().graph_spec().graphql.endpoints[self.definition_spec().endpoint_id.position() as int].subgraph_id,
    {
        self.endpoint().as_ref().subgraph_id
    }

    /// The fields that the subgraph needs to find the entity.
    pub fn required_fields(&self) -> (r: &'a RequiredFieldSet)
        ensures
            *r == self.schema_spec().graph_spec().required_field_sets[self.definition_spec().key.fields.position() as int],
    {
        proof {
            use_type_invariant(self);
        }
        &self.schema.graph.required_field_sets[self.item.key.fields.index()]
    }
}

/// Reads the definition of a field.
#[derive(Clone, Copy, Debug)]
pub struct FieldDefinitionWalker<'a> {
    schema: &'a Schema,
    item: usize,
}

impl<'a> FieldDefinitionWalker<'a> {
    #[verifier::type_invariant]
    closed spec fn in_schema(&self) -> bool {
        self.item < self.schema.graph.field_definitions.len()
    }

    pub closed spec fn schema_spec(&self) -> Schema {
        *self.schema
    }

    /// The position of the definition in the schema.
    pub closed spec fn position(&self) -> nat {
        self.item as nat
    }

    pub fn name(&self) -> (r: &'a str)
        ensures
            r@ == self.schema_spec().graph_spec().strings[self.schema_spec().graph_spec().field_definitions[self.position() as int].name.position() as int]@,
    {
        proof {
            use_type_invariant(self);
            use_type_invariant(self.schema);
        }
        let field = &self.schema.graph.field_definitions[self.item];
        self.schema.graph.strings[field.name.index()].as_str()
    }
}

/// Reads the definition of an object type.
#[derive(Clone, Copy, Debug)]
pub struct ObjectDefinitionWalker<'a> {
    schema: &'a Schema,
    item: ObjectDefinitionId,
}

impl<'a> ObjectDefinitionWalker<'a> {
    #[verifier::type_invariant]
    closed spec fn in_schema(&self) -> bool {
        self.item.position() < self.schema.graph.objects.len()
    }

    pub closed spec fn schema_spec(&self) -> Schema {
        *self.schema
    }

    pub closed spec fn id_spec(&self) -> ObjectDefinitionId {
        self.item
    }

    pub fn name(&self) -> (r: &'a str)
        ensures
            r@ == self.schema_spec().graph_spec().strings[self.schema_spec().graph_spec().objects[self.id_spec().position() as int].name.position() as int]@,
    {
        proof {
            use_type_invariant(self);
            use_type_invariant(self.schema);
        }
        let object = &self.schema.graph.objects[self.item.index()];
        self.schema.graph.strings[object.name.index()].as_str()
    }
}

/// Reads the directives of a type.
#[derive(Clone, Copy, Debug)]
pub struct TypeSystemDirectivesWalker<'a> {
    schema: &'a Schema,
    item: IdRange,
}

impl<'a> TypeSystemDirectivesWalker<'a> {
    #[verifier::type_invariant]
    closed spec fn in_schema(&self) -> bool {
        self.item.within(self.schema.graph.directives.len() as nat)
    }

    pub closed spec fn schema_spec(&self) -> Schema {
        *self.schema
    }

    pub closed spec fn range_spec(&self) -> IdRange {
        self.item
    }

    /// The number of directives.
    pub fn len(&self) -> (n: usize)
        ensures
            n == self.range_spec().count(),
    {
        self.item.len()
    }

    /// The name of the directive at a position.
    pub fn name_at(&self, i: usize) -> (r: &'a str)
        requires
            i < self.range_spec().count(),
        ensures
            r@ == self.schema_spec().graph_spec().strings[self.schema_spec().graph_spec().directives[self.range_spec().start + i].name.position() as int]@,
    {
        proof {
            use_type_invariant(self);
            use_type_invariant(self.schema);
        }
        let directive = &self.schema.graph.directives[self.item.start + i];
        self.schema.graph.strings[directive.name.index()].as_str()
    }
}

/// Reads the definition of an interface.
#[derive(Clone, Copy, Debug)]
pub struct InterfaceDefinitionWalker<'a> {
    schema: &'a Schema,
    item: InterfaceDefinitionId,
}

impl<'a> InterfaceDefinitionWalker<'a> {
    #[verifier::type_invariant]
    closed spec fn in_schema(&self) -> bool {
        self.item.position() < self.schema.graph.interfaces.len()
    }

    pub closed spec fn schema_spec(&self) -> Schema {
        *self.schema
    }

    pub closed spec fn id_spec(&self) -> InterfaceDefinitionId {
        self.item
    }

    /// The interface that the walker reads.
    pub open spec fn interface(&self) -> InterfaceDefinition {
        self.schema_spec().graph_spec().interfaces[self.id_spec().position() as int]
    }

    pub fn as_ref(&self) -> (r: &'a InterfaceDefinition)
        ensures
            *r == self.interface(),
            interface_valid(*r, self.schema_spec().graph_spec()),
    {
        proof {
            use_type_invariant(self);
            use_type_invariant(self.schema);
        }
        &self.schema.graph.interfaces[self.item.index()]
    }

    pub fn name(&self) -> (r: &'a str)
        ensures
            r@ == self.schema_spec().graph_spec().strings[self.interface().name.position() as int]@,
    {
        let interface = self.as_ref();
        self.schema.graph.strings[interface.name.index()].as_str()
    }

    /// The fields of the interface, in the order of their definition.
    pub fn fields(self) -> (r: Vec<FieldDefinitionWalker<'a>>)
        ensures
            r.len() == self.interface().fields.count(),
            forall|i: int| 0 <= i < r.len() ==> (#[trigger] r[i]).position() == self.interface().fields.start + i && r[i].schema_spec() == self.schema_spec(),
    {
        let interface = self.as_ref();
        let fields = interface.fields;
        let mut out: Vec<FieldDefinitionWalker<'a>> = Vec::new();
        let mut i: usize = fields.start;
        while i < fields.end
            invariant
                fields.start <= i <= fields.end,
                fields == self.interface().fields,
                interface_valid(*interface, self.schema_spec().graph_spec()),
                *interface == self.interface(),
                out.len() == i - fields.start,
                forall|j: int| 0 <= j < out.len() ==> (#[trigger] out[j]).position() == fields.start + j && out[j].schema_spec() == self.schema_spec(),
            decreases fields.end - i,
        {
            out.push(FieldDefinitionWalker { schema: self.schema, item: i });
            i = i + 1;
        }
        out
    }

    /// The interfaces that the interface implements.
    pub fn interfaces(self) -> (r: Vec<InterfaceDefinitionWalker<'a>>)
        ensures
            r.len() == self.interface().interfaces.len(),
            forall|i: int| 0 <= i < r.len() ==> (#[trigger] r[i]).id_spec() == self.interface().interfaces[i] && r[i].schema_spec() == self.schema_spec(),
    {
        let interface = self.as_ref();
        let mut out: Vec<InterfaceDefinitionWalker<'a>> = Vec::new();
        let mut i: usize = 0;
        while i < interface.interfaces.len()
            invariant
                i <= interface.interfaces.len(),
                interface_valid(*interface, self.schema_spec().graph_spec()),
                *interface == self.interface(),
                out.len() == i,
                forall|j: int| 0 <= j < i ==> (#[trigger] out[j]).id_spec() == interface.interfaces[j] && out[j].schema_spec() == self.schema_spec(),
            decreases interface.interfaces.len() - i,
        {
            out.push(InterfaceDefinitionWalker { schema: self.schema, item: interface.interfaces[i] });
            i = i + 1;
        }
        out
    }

    /// The object types that implement the interface.
    pub fn possible_types(self) -> (r: Vec<ObjectDefinitionWalker<'a>>)
        ensures
            r.len() == self.interface().possible_types.len(),
            forall|i: int| 0 <= i < r.len() ==> (#[trigger] r[i]).id_spec() == self.interface().possible_types[i] && r[i].schema_spec() == self.schema_spec(),
    {
        let interface = self.as_ref();
        let mut out: Vec<ObjectDefinitionWalker<'a>> = Vec::new();
        let mut i: usize = 0;
        while i < interface.possible_types.len()
            invariant
                i <= interface.possible_types.len(),
                interface_valid(*interface, self.schema_spec().graph_spec()),
                *interface == self.interface(),
                out.len() == i,
                forall|j: int| 0 <= j < i ==> (#[trigger] out[j]).id_spec() == interface.possible_types[j] && out[j].schema_spec() == self.schema_spec(),
            decreases interface.possible_types.len() - i,
        {
            out.push(ObjectDefinitionWalker { schema: self.schema, item: interface.possible_types[i] });
            i = i + 1;
        }
        out
    }

    pub fn directives(&self) -> (r: TypeSystemDirectivesWalker<'a>)
        ensures
            r.range_spec() == self.interface().directives,
            r.schema_spec() == self.schema_spec(),
    {
        let interface = self.as_ref();
        TypeSystemDirectivesWalker { schema: self.schema, item: interface.directives }
    }
}

} // verus!
