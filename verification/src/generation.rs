//! Generating the types and fields of a model: the paginated collection
//! query, the delete mutation and the input type.

use crate::assoc::lemma_put_absent;
use crate::document::{FieldModel, TypeDefinition, TypeModel, TypeRef, TypeRefModel};
use crate::text::{chars_of, contains_text, text_between};
use crate::ordered::OrderedMap;
use crate::registry::{
    auth_model, with_type, AuthConfig, CacheControl, ContextDataResolver, Deprecation, DynamoResolver, GenerationContext, MetaField, MetaFieldModel,
    MetaInputValue, MetaInputValueModel, MetaRelation, MetaType, MetaTypeModel, Operations, Resolver, ResolverOfFieldModel, ResolverType,
    ResolverTypeModel, Transformer, TransformerModel,
};
use crate::resolver::{DynamoMutationResolver, ResolverModel, VariableModel, VariableResolveDefinition};
use crate::row::SK;
use crate::text::{camel, camel_text, clone_strings, concat2, concat3, lower_camel_text, lowercase, lowercase_text, to_lower_camelcase, views};
use vstd::prelude::*;

verus! {

/// How results are cached unless something else is said.
pub open spec fn default_cache() -> CacheControl {
    CacheControl { public: true, max_age: 0 }
}

/// A field without arguments, resolver or transformer: what most generated
/// fields start from.
pub open spec fn plain_field(name: Seq<char>, ty: Seq<char>, operation: Operations, auth: Option<Seq<Seq<char>>>) -> MetaFieldModel {
    MetaFieldModel {
        name,
        description: None,
        args: Seq::empty(),
        ty,
        deprecation: Deprecation::NoDeprecated,
        cache_control: default_cache(),
        external: false,
        required_fields: None,
        provides: None,
        edges: Seq::empty(),
        relation: None,
        resolve: None,
        transformer: None,
        required_operation: Some(operation),
        auth,
    }
}

/// An object type that is no node and no subscription.
pub open spec fn plain_object(name: Seq<char>, fields: Seq<(Seq<char>, MetaFieldModel)>) -> MetaTypeModel {
    MetaTypeModel::Object {
        name,
        description: None,
        fields,
        cache_control: default_cache(),
        extends: false,
        is_subscription: false,
        is_node: false,
        rust_typename: name,
    }
}

fn copy_auth(auth: Option<&AuthConfig>) -> (r: Option<AuthConfig>)
    ensures
        auth_model(r) == (match auth {
            Some(config) => Some(views(config.rules@)),
            None => None,
        }),
{
    match auth {
        Some(config) => Some(config.duplicate()),
        None => None,
    }
}

/// The rules of an optional configuration behind a reference.
pub open spec fn auth_of(auth: Option<&AuthConfig>) -> Option<Seq<Seq<char>>> {
    match auth {
        Some(config) => Some(views(config.rules@)),
        None => None,
    }
}

fn make_field(name: &str, ty: String, operation: Operations, auth: Option<&AuthConfig>) -> (r: MetaField)
    ensures
        r.deep_view() == plain_field(name@, ty@, operation, auth_of(auth)),
{
    let edges: Vec<String> = Vec::new();
    assert(views(edges@) =~= Seq::empty());
    MetaField {
        name: name.to_owned(),
        description: None,
        args: OrderedMap::new(),
        ty,
        deprecation: Deprecation::NoDeprecated,
        cache_control: CacheControl { public: true, max_age: 0 },
        external: false,
        required_fields: None,
        provides: None,
        edges,
        relation: None,
        resolve: None,
        transformer: None,
        required_operation: Some(operation),
        auth: copy_auth(auth),
    }
}

fn make_object(name: &str, fields: OrderedMap<MetaField>) -> (r: MetaType)
    ensures
        r.deep_view() == plain_object(name@, fields.deep_view()),
{
    MetaType::Object {
        name: name.to_owned(),
        description: None,
        fields,
        cache_control: CacheControl { public: true, max_age: 0 },
        extends: false,
        is_subscription: false,
        is_node: false,
        rust_typename: name.to_owned(),
    }
}

/// The forms of a type's name that the generated names are made of.
#[derive(Debug)]
pub struct TypeNames {
    /// The name in camel case, as the generated types have it.
    pub camel: String,
    /// The name in lower camel case, as the generated fields have it.
    pub lower_camel: String,
    /// The name in lower case, as the resolvers have it.
    pub lowered: String,
}

/// The mathematical model of the forms of a name.
pub struct NamesModel {
    pub camel: Seq<char>,
    pub lower_camel: Seq<char>,
    pub lowered: Seq<char>,
}

impl DeepView for TypeNames {
    type V = NamesModel;

    open spec fn deep_view(&self) -> NamesModel {
        NamesModel { camel: self.camel@, lower_camel: self.lower_camel@, lowered: self.lowered@ }
    }
}

impl View for TypeNames {
    type V = NamesModel;

    open spec fn view(&self) -> NamesModel {
        self.deep_view()
    }
}

/// The forms of the name of a type.
pub open spec fn names_of(ty: Seq<char>) -> NamesModel {
    NamesModel { camel: camel_text(ty), lower_camel: lower_camel_text(ty), lowered: lowercase_text(ty) }
}

/// Works out the forms of the name of a type.
pub fn type_names(ty_name: &str) -> (r: TypeNames)
    ensures
        r@ == names_of(ty_name@),
{
    TypeNames { camel: camel(ty_name), lower_camel: to_lower_camelcase(ty_name), lowered: lowercase(ty_name) }
}

/// The name of the type that a deletion results in.
pub open spec fn delete_payload_name(camel: Seq<char>) -> Seq<char> {
    camel + "DeletePayload"@
}

/// The type that a deletion results in: the identifier of what was deleted.
pub open spec fn delete_payload(camel: Seq<char>, auth: Option<Seq<Seq<char>>>) -> MetaTypeModel {
    plain_object(
        delete_payload_name(camel),
        seq![
            (
                "deletedId"@,
                MetaFieldModel {
                    transformer: Some(TransformerModel::JSONSelect { property: "id"@ }),
                    ..plain_field("deletedId"@, "ID!"@, Operations::Delete, auth)
                },
            ),
        ],
    )
}

/// The mutation that deletes a node of a type by what identifies it.
pub open spec fn delete_mutation(ty: Seq<char>, names: NamesModel, auth: Option<Seq<Seq<char>>>) -> MetaFieldModel {
    MetaFieldModel {
        description: Some("Delete a "@ + ty + " by ID or unique field"@),
        args: seq![("by"@, MetaInputValueModel { name: "by"@, description: None, ty: ty + "ByInput!"@, is_secret: false })],
        resolve: Some(
            ResolverOfFieldModel {
                id: Some(names.lowered + "_delete_resolver"@),
                ty: ResolverTypeModel::DynamoMutationResolver(ResolverModel::DeleteNode { id: VariableModel::InputTypeName("by"@) }),
            },
        ),
        ..plain_field(names.lower_camel + "Delete"@, delete_payload_name(names.camel), Operations::Delete, auth)
    }
}

/// Adds the mutation that deletes a node of a type, and the type of its result.
pub fn add_remove_mutation(ctx: &mut GenerationContext, ty_name: &str, auth: Option<&AuthConfig>)
    ensures
        final(ctx).registry.types@ == with_type(
            old(ctx).registry.types@,
            delete_payload_name(camel_text(ty_name@)),
            delete_payload(camel_text(ty_name@), auth_of(auth)),
        ),
        final(ctx).mutations.deep_view() == old(ctx).mutations.deep_view().push(delete_mutation(ty_name@, names_of(ty_name@), auth_of(auth))),
        final(ctx).queries == old(ctx).queries,
{
    let names = type_names(ty_name);
    add_remove_mutation_named(ctx, ty_name, &names, auth)
}

/// Adds the mutation that deletes a node of a type, and the type of its
/// result, with the names made of the given forms of the type's name.
pub fn add_remove_mutation_named(ctx: &mut GenerationContext, ty_name: &str, names: &TypeNames, auth: Option<&AuthConfig>)
    ensures
        final(ctx).registry.types@ == with_type(
            old(ctx).registry.types@,
            delete_payload_name(names.camel@),
            delete_payload(names.camel@, auth_of(auth)),
        ),
        final(ctx).mutations.deep_view() == old(ctx).mutations.deep_view().push(delete_mutation(ty_name@, names@, auth_of(auth))),
        final(ctx).queries == old(ctx).queries,
{
    let payload_name = concat2(names.camel.as_str(), "DeletePayload");

    let mut deleted = make_field("deletedId", "ID!".to_owned(), Operations::Delete, auth);
    deleted.transformer = Some(Transformer::JSONSelect { property: "id".to_owned() });
    let mut fields: OrderedMap<MetaField> = OrderedMap::new();
    proof {
        lemma_put_absent(fields@, "deletedId"@, deleted.deep_view());
    }
    fields.insert("deletedId".to_owned(), deleted);
    assert(fields@ =~= delete_payload(names.camel@, auth_of(auth))->Object_fields);
    ctx.registry.create_type(make_object(payload_name.as_str(), fields), payload_name.as_str());

    let mut mutation = make_field(concat2(names.lower_camel.as_str(), "Delete").as_str(), payload_name, Operations::Delete, auth);
    mutation.description = Some(concat3("Delete a ", ty_name, " by ID or unique field"));
    let mut args: OrderedMap<MetaInputValue> = OrderedMap::new();
    let by = MetaInputValue { name: "by".to_owned(), description: None, ty: concat2(ty_name, "ByInput!"), is_secret: false };
    proof {
        lemma_put_absent(args@, "by"@, by.deep_view());
    }
    args.insert("by".to_owned(), by);
    assert(args@ =~= delete_mutation(ty_name@, names@, auth_of(auth)).args);
    mutation.args = args;
    mutation.resolve = Some(
        Resolver {
            id: Some(concat2(names.lowered.as_str(), "_delete_resolver")),
            ty: ResolverType::DynamoMutationResolver(DynamoMutationResolver::DeleteNode { id: VariableResolveDefinition::InputTypeName("by".to_owned()) }),
        },
    );
    let ghost before = ctx.mutations.deep_view();
    let ghost model = mutation.deep_view();
    ctx.mutations.push(mutation);
    assert(ctx.mutations.deep_view() =~= before.push(model));
}

/// The name of the type of an edge of a collection.
pub open spec fn edge_name(camel: Seq<char>) -> Seq<char> {
    camel + "Edge"@
}

/// The name of the type of a collection.
pub open spec fn connection_name(camel: Seq<char>) -> Seq<char> {
    camel + "Connection"@
}

/// The type of an edge of a collection: the node, and the cursor that
/// stands for the node's place.
pub open spec fn edge_type(ty: Seq<char>, camel: Seq<char>, auth: Option<Seq<Seq<char>>>) -> MetaTypeModel {
    plain_object(
        edge_name(camel),
        seq![
            ("node"@, plain_field("node"@, camel + "!"@, Operations::List, auth)),
            (
                "cursor"@,
                MetaFieldModel {
                    resolve: Some(ResolverOfFieldModel { id: None, ty: ResolverTypeModel::LocalKey { key: ty } }),
                    transformer: Some(
                        TransformerModel::Pipeline(seq![TransformerModel::DynamoSelect { property: SK@ }, TransformerModel::ConvertSkToCursor]),
                    ),
                    ..plain_field("cursor"@, "String!"@, Operations::List, auth)
                },
            ),
        ],
    )
}

/// A field of the page information: it is read from what the pagination has found.
pub open spec fn page_info_field(name: Seq<char>, ty: Seq<char>, property: Seq<char>, auth: Option<Seq<Seq<char>>>) -> MetaFieldModel {
    MetaFieldModel {
        resolve: Some(ResolverOfFieldModel { id: None, ty: ResolverTypeModel::PaginationData }),
        transformer: Some(TransformerModel::JSONSelect { property }),
        ..plain_field(name, ty, Operations::List, auth)
    }
}

/// The type of the information on a page.
pub open spec fn page_info_type(auth: Option<Seq<Seq<char>>>) -> MetaTypeModel {
    plain_object(
        "PageInfo"@,
        seq![
            ("hasPreviousPage"@, page_info_field("hasPreviousPage"@, "Boolean!"@, "has_previous_page"@, auth)),
            ("hasNextPage"@, page_info_field("hasNextPage"@, "Boolean!"@, "has_next_page"@, auth)),
            ("startCursor"@, page_info_field("startCursor"@, "String"@, "start_cursor"@, auth)),
            ("endCursor"@, page_info_field("endCursor"@, "String"@, "end_cursor"@, auth)),
        ],
    )
}

/// The type of a collection: the information on the page, and its edges.
pub open spec fn connection_type(camel: Seq<char>, connection_edges: Seq<Seq<char>>, auth: Option<Seq<Seq<char>>>) -> MetaTypeModel {
    plain_object(
        connection_name(camel),
        seq![
            (
                "pageInfo"@,
                MetaFieldModel {
                    description: Some("Information to aid in pagination"@),
                    ..plain_field("pageInfo"@, "PageInfo!"@, Operations::List, auth)
                },
            ),
            (
                "edges"@,
                MetaFieldModel { edges: connection_edges, ..plain_field("edges"@, "["@ + edge_name(camel) + "]"@, Operations::List, auth) },
            ),
        ],
    )
}

/// An argument of pagination.
pub open spec fn pagination_argument(name: Seq<char>, ty: Seq<char>) -> (Seq<char>, MetaInputValueModel) {
    (name, MetaInputValueModel { name, description: None, ty, is_secret: false })
}

/// The arguments of a paginated field.
pub open spec fn pagination_arguments_model() -> Seq<(Seq<char>, MetaInputValueModel)> {
    seq![
        pagination_argument("after"@, "String"@),
        pagination_argument("before"@, "String"@),
        pagination_argument("first"@, "Int"@),
        pagination_argument("last"@, "Int"@),
    ]
}

/// The query that lists the nodes of a type page by page.
pub open spec fn collection_query(ty: Seq<char>, names: NamesModel, auth: Option<Seq<Seq<char>>>) -> MetaFieldModel {
    MetaFieldModel {
        description: Some("Paginated query to fetch the whole list of `"@ + ty + "`."@),
        args: pagination_arguments_model(),
        cache_control: default_cache(),
        relation: Some((names.lower_camel + "Collection"@, ty)),
        resolve: Some(
            ResolverOfFieldModel {
                id: Some(names.lowered + "_resolver"@),
                ty: ResolverTypeModel::ListResultByTypePaginated {
                    ty: VariableModel::DebugString(ty),
                    first: VariableModel::InputTypeName("first"@),
                    after: VariableModel::InputTypeName("after"@),
                    before: VariableModel::InputTypeName("before"@),
                    last: VariableModel::InputTypeName("last"@),
                    nested: None,
                },
            },
        ),
        ..plain_field(names.lower_camel + "Collection"@, connection_name(names.camel), Operations::List, auth)
    }
}

fn argument(name: &str, ty: &str) -> (r: MetaInputValue)
    ensures
        r.deep_view() == pagination_argument(name@, ty@).1,
{
    MetaInputValue { name: name.to_owned(), description: None, ty: ty.to_owned(), is_secret: false }
}

/// The names of the arguments of pagination and of the fields of the
/// generated types, which all differ within their type.
proof fn lemma_generated_names()
    ensures
        "after"@.len() == 5,
        "before"@.len() == 6,
        "first"@.len() == 5,
        "last"@.len() == 4,
        "after"@[0] == 'a',
        "first"@[0] == 'f',
        "node"@.len() == 4,
        "cursor"@.len() == 6,
        "pageInfo"@.len() == 8,
        "edges"@.len() == 5,
        "hasPreviousPage"@.len() == 15,
        "hasNextPage"@.len() == 11,
        "startCursor"@.len() == 11,
        "endCursor"@.len() == 9,
        "hasNextPage"@[0] == 'h',
        "startCursor"@[0] == 's',
{
    reveal_strlit("after");
    reveal_strlit("before");
    reveal_strlit("first");
    reveal_strlit("last");
    reveal_strlit("node");
    reveal_strlit("cursor");
    reveal_strlit("pageInfo");
    reveal_strlit("edges");
    reveal_strlit("hasPreviousPage");
    reveal_strlit("hasNextPage");
    reveal_strlit("startCursor");
    reveal_strlit("endCursor");
}

/// The arguments of a paginated field: where to continue, and how many to return.
pub fn pagination_arguments() -> (r: OrderedMap<MetaInputValue>)
    ensures
        r@ == pagination_arguments_model(),
{
    let mut args: OrderedMap<MetaInputValue> = OrderedMap::new();
    proof {
        lemma_generated_names();
        lemma_put_absent(args@, "after"@, pagination_argument("after"@, "String"@).1);
    }
    args.insert("after".to_owned(), argument("after", "String"));
    proof {
        assert(args@ =~= seq![pagination_argument("after"@, "String"@)]);
        lemma_put_absent(args@, "before"@, pagination_argument("before"@, "String"@).1);
    }
    args.insert("before".to_owned(), argument("before", "String"));
    proof {
        assert(args@ =~= seq![pagination_argument("after"@, "String"@), pagination_argument("before"@, "String"@)]);
        lemma_put_absent(args@, "first"@, pagination_argument("first"@, "Int"@).1);
    }
    args.insert("first".to_owned(), argument("first", "Int"));
    proof {
        assert(args@ =~= seq![
            pagination_argument("after"@, "String"@),
            pagination_argument("before"@, "String"@),
            pagination_argument("first"@, "Int"@),
        ]);
        lemma_put_absent(args@, "last"@, pagination_argument("last"@, "Int"@).1);
    }
    args.insert("last".to_owned(), argument("last", "Int"));
    assert(args@ =~= pagination_arguments_model());
    args
}

fn make_page_info_field(name: &str, ty: &str, property: &str, auth: Option<&AuthConfig>) -> (r: MetaField)
    ensures
        r.deep_view() == page_info_field(name@, ty@, property@, auth_of(auth)),
{
    let mut field = make_field(name, ty.to_owned(), Operations::List, auth);
    field.resolve = Some(Resolver { id: None, ty: ResolverType::ContextDataResolver(ContextDataResolver::PaginationData) });
    field.transformer = Some(Transformer::JSONSelect { property: property.to_owned() });
    field
}

fn make_edge_type(ty_name: &str, edge: &str, camel_name: &str, auth: Option<&AuthConfig>) -> (r: MetaType)
    requires
        edge@ == edge_name(camel_name@),
    ensures
        r.deep_view() == edge_type(ty_name@, camel_name@, auth_of(auth)),
{
    let mut fields: OrderedMap<MetaField> = OrderedMap::new();
    let node = make_field("node", concat2(camel_name, "!"), Operations::List, auth);
    proof {
        lemma_generated_names();
        lemma_put_absent(fields@, "node"@, node.deep_view());
    }
    fields.insert("node".to_owned(), node);
    let mut cursor = make_field("cursor", "String!".to_owned(), Operations::List, auth);
    cursor.resolve = Some(
        Resolver { id: None, ty: ResolverType::ContextDataResolver(ContextDataResolver::LocalKey { key: ty_name.to_owned() }) },
    );
    let mut stages: Vec<Transformer> = Vec::new();
    stages.push(Transformer::DynamoSelect { property: SK.to_owned() });
    stages.push(Transformer::ConvertSkToCursor);
    assert(stages[0].deep_view() == (TransformerModel::DynamoSelect { property: SK@ }));
    assert(stages[1].deep_view() == TransformerModel::ConvertSkToCursor);
    let ghost held = stages;
    let pipeline = Transformer::Pipeline(stages);
    assert(pipeline.deep_view()->Pipeline_0.len() == 2);
    assert(pipeline.deep_view()->Pipeline_0[0] == held[0].deep_view());
    assert(pipeline.deep_view()->Pipeline_0[1] == held[1].deep_view());
    assert(pipeline.deep_view()->Pipeline_0 =~= seq![TransformerModel::DynamoSelect { property: SK@ }, TransformerModel::ConvertSkToCursor]);
    cursor.transformer = Some(pipeline);
    proof {
        assert(fields@ =~= seq![("node"@, plain_field("node"@, camel_name@ + "!"@, Operations::List, auth_of(auth)))]);
        lemma_put_absent(fields@, "cursor"@, cursor.deep_view());
    }
    fields.insert("cursor".to_owned(), cursor);
    assert(fields@ =~= edge_type(ty_name@, camel_name@, auth_of(auth))->Object_fields);
    make_object(edge, fields)
}

fn make_page_info_type(auth: Option<&AuthConfig>) -> (r: MetaType)
    ensures
        r.deep_view() == page_info_type(auth_of(auth)),
{
    let ghost a = auth_of(auth);
    let mut fields: OrderedMap<MetaField> = OrderedMap::new();
    let previous = make_page_info_field("hasPreviousPage", "Boolean!", "has_previous_page", auth);
    proof {
        lemma_generated_names();
        lemma_put_absent(fields@, "hasPreviousPage"@, previous.deep_view());
    }
    fields.insert("hasPreviousPage".to_owned(), previous);
    let next = make_page_info_field("hasNextPage", "Boolean!", "has_next_page", auth);
    proof {
        assert(fields@ =~= seq![("hasPreviousPage"@, page_info_field("hasPreviousPage"@, "Boolean!"@, "has_previous_page"@, a))]);
        lemma_put_absent(fields@, "hasNextPage"@, next.deep_view());
    }
    fields.insert("hasNextPage".to_owned(), next);
    let start = make_page_info_field("startCursor", "String", "start_cursor", auth);
    proof {
        assert(fields@ =~= seq![
            ("hasPreviousPage"@, page_info_field("hasPreviousPage"@, "Boolean!"@, "has_previous_page"@, a)),
            ("hasNextPage"@, page_info_field("hasNextPage"@, "Boolean!"@, "has_next_page"@, a)),
        ]);
        lemma_put_absent(fields@, "startCursor"@, start.deep_view());
    }
    fields.insert("startCursor".to_owned(), start);
    let end = make_page_info_field("endCursor", "String", "end_cursor", auth);
    proof {
        assert(fields@ =~= seq![
            ("hasPreviousPage"@, page_info_field("hasPreviousPage"@, "Boolean!"@, "has_previous_page"@, a)),
            ("hasNextPage"@, page_info_field("hasNextPage"@, "Boolean!"@, "has_next_page"@, a)),
            ("startCursor"@, page_info_field("startCursor"@, "String"@, "start_cursor"@, a)),
        ]);
        lemma_put_absent(fields@, "endCursor"@, end.deep_view());
    }
    fields.insert("endCursor".to_owned(), end);
    assert(fields@ =~= page_info_type(a)->Object_fields);
    make_object("PageInfo", fields)
}

fn make_connection_type(camel_name: &str, edge: &str, connection: &str, connection_edges: &Vec<String>, auth: Option<&AuthConfig>) -> (r: MetaType)
    requires
        edge@ == edge_name(camel_name@),
        connection@ == connection_name(camel_name@),
    ensures
        r.deep_view() == connection_type(camel_name@, views(connection_edges@), auth_of(auth)),
{
    let ghost a = auth_of(auth);
    let mut fields: OrderedMap<MetaField> = OrderedMap::new();
    let mut page_info = make_field("pageInfo", "PageInfo!".to_owned(), Operations::List, auth);
    page_info.description = Some("Information to aid in pagination".to_owned());
    proof {
        lemma_generated_names();
        lemma_put_absent(fields@, "pageInfo"@, page_info.deep_view());
    }
    let ghost first = page_info.deep_view();
    fields.insert("pageInfo".to_owned(), page_info);
    let mut edges = make_field("edges", concat3("[", edge, "]"), Operations::List, auth);
    edges.edges = clone_strings(connection_edges);
    proof {
        assert(fields@ =~= seq![("pageInfo"@, first)]);
        lemma_put_absent(fields@, "edges"@, edges.deep_view());
    }
    fields.insert("edges".to_owned(), edges);
    assert(fields@ =~= connection_type(camel_name@, views(connection_edges@), a)->Object_fields);
    make_object(connection, fields)
}

/// The types of a registry after the types of a collection have been
/// created in it: the edge, the information on the page and the collection,
/// each kept as it is if the registry has a type of its name.
pub open spec fn collection_types(
    types: Seq<(Seq<char>, MetaTypeModel)>,
    ty: Seq<char>,
    camel: Seq<char>,
    connection_edges: Seq<Seq<char>>,
    auth: Option<Seq<Seq<char>>>,
) -> Seq<(Seq<char>, MetaTypeModel)> {
    with_type(
        with_type(with_type(types, edge_name(camel), edge_type(ty, camel, auth)), "PageInfo"@, page_info_type(auth)),
        connection_name(camel),
        connection_type(camel, connection_edges, auth),
    )
}

/// Adds the query that lists the nodes of a type page by page, with the
/// types of its result: the edge, the information on the page and the
/// collection.
pub fn add_list_query_paginated(ctx: &mut GenerationContext, ty_name: &str, connection_edges: Vec<String>, auth: Option<&AuthConfig>)
    ensures
        final(ctx).registry.types@ == collection_types(
            old(ctx).registry.types@,
            ty_name@,
            camel_text(ty_name@),
            views(connection_edges@),
            auth_of(auth),
        ),
        final(ctx).queries.deep_view() == old(ctx).queries.deep_view().push(collection_query(ty_name@, names_of(ty_name@), auth_of(auth))),
        final(ctx).mutations == old(ctx).mutations,
{
    let names = type_names(ty_name);
    add_list_query_paginated_named(ctx, ty_name, &names, connection_edges, auth)
}

/// Adds the query that lists the nodes of a type page by page, with the
/// types of its result, with the names made of the given forms of the
/// type's name.
pub fn add_list_query_paginated_named(
    ctx: &mut GenerationContext,
    ty_name: &str,
    names: &TypeNames,
    connection_edges: Vec<String>,
    auth: Option<&AuthConfig>,
)
    ensures
        final(ctx).registry.types@ == collection_types(old(ctx).registry.types@, ty_name@, names.camel@, views(connection_edges@), auth_of(auth)),
        final(ctx).queries.deep_view() == old(ctx).queries.deep_view().push(collection_query(ty_name@, names@, auth_of(auth))),
        final(ctx).mutations == old(ctx).mutations,
{
    let camel_name = &names.camel;
    let edge = concat2(camel_name.as_str(), "Edge");
    ctx.registry.create_type(make_edge_type(ty_name, edge.as_str(), camel_name.as_str(), auth), edge.as_str());
    ctx.registry.create_type(make_page_info_type(auth), "PageInfo");
    let connection = concat2(camel_name.as_str(), "Connection");
    ctx.registry.create_type(
        make_connection_type(camel_name.as_str(), edge.as_str(), connection.as_str(), &connection_edges, auth),
        connection.as_str(),
    );

    let query_name = concat2(names.lower_camel.as_str(), "Collection");
    let mut query = make_field(query_name.as_str(), connection, Operations::List, auth);
    query.description = Some(concat3("Paginated query to fetch the whole list of `", ty_name, "`."));
    query.args = pagination_arguments();
    query.relation = Some(MetaRelation { name: query_name, to: ty_name.to_owned() });
    query.resolve = Some(
        Resolver {
            id: Some(concat2(names.lowered.as_str(), "_resolver")),
            ty: ResolverType::DynamoResolver(
                DynamoResolver::ListResultByTypePaginated {
                    ty: VariableResolveDefinition::DebugString(ty_name.to_owned()),
                    first: VariableResolveDefinition::InputTypeName("first".to_owned()),
                    after: VariableResolveDefinition::InputTypeName("after".to_owned()),
                    before: VariableResolveDefinition::InputTypeName("before".to_owned()),
                    last: VariableResolveDefinition::InputTypeName("last".to_owned()),
                    nested: None,
                },
            ),
        },
    );
    let ghost before = ctx.queries.deep_view();
    let ghost model = query.deep_view();
    ctx.queries.push(query);
    assert(ctx.queries.deep_view() =~= before.push(model));
}

/// How many opening brackets a type starts with.
pub open spec fn leading_brackets(text: Seq<char>, from: int) -> int
    decreases text.len() - from,
{
    if from < 0 || from >= text.len() || text[from] != '[' {
        from
    } else {
        leading_brackets(text, from + 1)
    }
}

/// The named type that stands for a named type in an input: the identifier
/// for a model, the input type of any other object type, and the type
/// itself for anything else.
pub open spec fn input_base(model_types: Seq<Seq<char>>, object_types: Seq<Seq<char>>, base: Seq<char>) -> Seq<char> {
    if model_types.contains(base) {
        "ID"@
    } else if object_types.contains(base) {
        base + "Input"@
    } else {
        base
    }
}

/// The type that stands for a type in an input: the same lists and marks
/// around the named type that stands for its named type.
pub open spec fn input_type_text(model_types: Seq<Seq<char>>, object_types: Seq<Seq<char>>, ty: TypeRefModel) -> Seq<char> {
    let k = leading_brackets(ty.text, 0);
    if k + ty.base.len() <= ty.text.len() {
        ty.text.subrange(0, k) + input_base(model_types, object_types, ty.base) + ty.text.subrange(k + ty.base.len(), ty.text.len() as int)
    } else {
        ty.text
    }
}

/// Writes the type that stands for a type in an input.
pub fn to_input_type(model_types: &Vec<String>, object_types: &Vec<String>, ty: &TypeRef) -> (r: String)
    ensures
        r@ == input_type_text(views(model_types@), views(object_types@), ty@),
{
    let text = chars_of(ty.text.as_str());
    let base = chars_of(ty.base.as_str());
    let mut k: usize = 0;
    while k < text.len() && text[k] == '['
        invariant
            k <= text.len(),
            leading_brackets(text@, 0) == leading_brackets(text@, k as int),
        decreases text.len() - k,
    {
        k = k + 1;
    }
    if base.len() > text.len() - k {
        return ty.text.clone();
    }
    let new_base = if contains_text(model_types, ty.base.as_str()) {
        "ID".to_owned()
    } else if contains_text(object_types, ty.base.as_str()) {
        concat2(ty.base.as_str(), "Input")
    } else {
        ty.base.clone()
    };
    let head = text_between(&text, 0, k);
    let rest = text_between(&text, k + base.len(), text.len());
    concat3(head.as_str(), new_base.as_str(), rest.as_str())
}

/// The name of the input type of a type.
pub open spec fn input_type_name(camel: Seq<char>) -> Seq<char> {
    camel + "Input"@
}

/// The fields of an input type after the first `n` fields of an object have
/// been turned into input fields.
pub open spec fn input_fields_from(model_types: Seq<Seq<char>>, object_types: Seq<Seq<char>>, fields: Seq<FieldModel>, n: nat) -> Seq<
    (Seq<char>, MetaInputValueModel),
>
    decreases n,
{
    if n == 0 {
        Seq::empty()
    } else {
        crate::assoc::put(
            input_fields_from(model_types, object_types, fields, (n - 1) as nat),
            fields[n - 1].name,
            MetaInputValueModel {
                name: fields[n - 1].name,
                description: None,
                ty: input_type_text(model_types, object_types, fields[n - 1].ty),
                is_secret: false,
            },
        )
    }
}

/// The input type of an object type that is no model.
pub open spec fn input_type_of(
    model_types: Seq<Seq<char>>,
    object_types: Seq<Seq<char>>,
    object: TypeModel,
    ty: Seq<char>,
    camel: Seq<char>,
) -> MetaTypeModel {
    MetaTypeModel::InputObject {
        name: input_type_name(camel),
        description: Some(ty + " input type."@),
        input_fields: input_fields_from(model_types, object_types, object.fields, object.fields.len()),
        rust_typename: ty,
        oneof: false,
    }
}

/// Creates the input type of an object type that is no model, and returns its name.
pub fn add_input_type_non_primitive(ctx: &mut GenerationContext, object: &TypeDefinition, ty_name: &str) -> (r: String)
    ensures
        r@ == input_type_name(camel_text(ty_name@)),
        final(ctx).registry.types@ == with_type(
            old(ctx).registry.types@,
            input_type_name(camel_text(ty_name@)),
            input_type_of(views(old(ctx).model_types@), views(old(ctx).object_types@), object@, ty_name@, camel_text(ty_name@)),
        ),
        final(ctx).queries == old(ctx).queries,
        final(ctx).mutations == old(ctx).mutations,
        final(ctx).model_types == old(ctx).model_types,
        final(ctx).object_types == old(ctx).object_types,
{
    let camel_name = camel(ty_name);
    add_input_type_named(ctx, object, ty_name, camel_name.as_str())
}

/// Creates the input type of an object type that is no model under the name
/// made of the given camel-case form of the type's name, and returns that name.
pub fn add_input_type_named(ctx: &mut GenerationContext, object: &TypeDefinition, ty_name: &str, camel_name: &str) -> (r: String)
    ensures
        r@ == input_type_name(camel_name@),
        final(ctx).registry.types@ == with_type(
            old(ctx).registry.types@,
            input_type_name(camel_name@),
            input_type_of(views(old(ctx).model_types@), views(old(ctx).object_types@), object@, ty_name@, camel_name@),
        ),
        final(ctx).queries == old(ctx).queries,
        final(ctx).mutations == old(ctx).mutations,
        final(ctx).model_types == old(ctx).model_types,
        final(ctx).object_types == old(ctx).object_types,
{
    let input_type = concat2(camel_name, "Input");
    let mut input_fields: OrderedMap<MetaInputValue> = OrderedMap::new();
    let mut i: usize = 0;
    while i < object.fields.len()
        invariant
            i <= object.fields.len(),
            *ctx == *old(ctx),
            input_fields@ == input_fields_from(views(ctx.model_types@), views(ctx.object_types@), object@.fields, i as nat),
        decreases object.fields.len() - i,
    {
        let field = &object.fields[i];
        assert(object@.fields[i as int] == field@);
        input_fields.insert(
            field.name.clone(),
            MetaInputValue {
                name: field.name.clone(),
                description: None,
                ty: to_input_type(&ctx.model_types, &ctx.object_types, &field.ty),
                is_secret: false,
            },
        );
        i = i + 1;
    }
    ctx.registry.create_type(
        MetaType::InputObject {
            name: input_type.clone(),
            description: Some(concat2(ty_name, " input type.")),
            input_fields,
            rust_typename: ty_name.to_owned(),
            oneof: false,
        },
        input_type.as_str(),
    );
    input_type
}

/// The relation through which a nested input type is reached: the relation,
/// and the model type that has it.
#[derive(Debug)]
pub struct ParentRelation<'a> {
    pub model_type_definition: &'a TypeDefinition,
    pub meta: &'a MetaRelation,
}

impl<'a> ParentRelation<'a> {
    /// How the relation is shown: its name, and the model that it is a relation of.
    pub fn to_string(&self) -> (r: String)
        ensures
            r@ == self.meta.name@ + " relation of "@ + self.model_type_definition.name@,
    {
        concat3(self.meta.name.as_str(), " relation of ", self.model_type_definition.name.as_str())
    }
}

} // verus!
