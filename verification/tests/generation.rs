use graph_gateway::document::parse_schema;
use graph_gateway::generation::{
    add_input_type_named, add_input_type_non_primitive, add_list_query_paginated, add_list_query_paginated_named, add_remove_mutation,
    add_remove_mutation_named, pagination_arguments, to_input_type, type_names, TypeNames,
};
use graph_gateway::registry::{
    AuthConfig, CacheControl, ContextDataResolver, Deprecation, DynamoResolver, GenerationContext, MetaField, MetaType, Operations, Registry,
    ResolverType, Transformer,
};
use graph_gateway::resolver::{DynamoMutationResolver, VariableResolveDefinition};
use graph_gateway::text::to_lower_camelcase;

fn context() -> GenerationContext {
    GenerationContext {
        registry: Registry::new(),
        queries: vec![],
        mutations: vec![],
        model_types: vec!["Product".to_string()],
        object_types: vec!["Address".to_string()],
    }
}

fn fields_of<'a>(ctx: &'a GenerationContext, name: &str) -> Vec<&'a MetaField> {
    match ctx.registry.types.get(name) {
        Some(MetaType::Object { name: own, fields, cache_control, extends, is_subscription, is_node, rust_typename, description }) => {
            assert_eq!(own, name);
            assert_eq!(rust_typename, name);
            assert_eq!(*cache_control, CacheControl { public: true, max_age: 0 });
            assert!(!extends && !is_subscription && !is_node);
            assert!(description.is_none());
            (0..fields.len()).map(|i| fields.value_at(i)).collect()
        }
        other => panic!("{name} is {other:?}"),
    }
}

fn assert_plain(field: &MetaField, operation: Operations) {
    assert_eq!(field.deprecation, Deprecation::NoDeprecated);
    assert_eq!(field.cache_control, CacheControl { public: true, max_age: 0 });
    assert!(!field.external);
    assert!(field.required_fields.is_none() && field.provides.is_none());
    assert_eq!(field.required_operation, Some(operation));
}

#[test]
fn names_are_cased() {
    assert_eq!(to_lower_camelcase("Product"), "product");
    assert_eq!(to_lower_camelcase("BlogPost"), "blogPost");
    assert_eq!(to_lower_camelcase("blog_post"), "blogPost");
}

#[test]
fn the_delete_mutation_of_a_model() {
    let mut ctx = context();
    let auth = AuthConfig { rules: vec!["owner".to_string()] };
    add_remove_mutation(&mut ctx, "blog_post", Some(&auth));

    let payload = fields_of(&ctx, "BlogPostDeletePayload");
    assert_eq!(payload.len(), 1);
    assert_eq!(payload[0].name, "deletedId");
    assert_eq!(payload[0].ty, "ID!");
    assert!(matches!(&payload[0].transformer, Some(Transformer::JSONSelect { property }) if property == "id"));
    assert!(payload[0].resolve.is_none());
    assert_eq!(payload[0].auth.as_ref().unwrap().rules, vec!["owner"]);
    assert_plain(payload[0], Operations::Delete);

    assert!(ctx.queries.is_empty());
    assert_eq!(ctx.mutations.len(), 1);
    let mutation = &ctx.mutations[0];
    assert_eq!(mutation.name, "blogPostDelete");
    assert_eq!(mutation.description.as_deref(), Some("Delete a blog_post by ID or unique field"));
    assert_eq!(mutation.ty, "BlogPostDeletePayload");
    assert_eq!(mutation.args.len(), 1);
    let by = mutation.args.get("by").unwrap();
    assert_eq!((by.name.as_str(), by.ty.as_str(), by.is_secret), ("by", "blog_postByInput!", false));
    let resolver = mutation.resolve.as_ref().unwrap();
    assert_eq!(resolver.id.as_deref(), Some("blog_post_delete_resolver"));
    assert!(matches!(
        &resolver.ty,
        ResolverType::DynamoMutationResolver(DynamoMutationResolver::DeleteNode { id: VariableResolveDefinition::InputTypeName(name) }) if name == "by"
    ));
    assert!(mutation.transformer.is_none());
    assert!(mutation.edges.is_empty());
    assert_plain(mutation, Operations::Delete);
}

#[test]
fn the_collection_query_of_a_model() {
    let mut ctx = context();
    add_list_query_paginated(&mut ctx, "Product", vec!["reviews".to_string()], None);
    add_list_query_paginated(&mut ctx, "Category", vec![], None);

    let names: Vec<String> = (0..ctx.registry.types.len()).map(|i| ctx.registry.types.key_at(i).to_string()).collect();
    assert_eq!(names, vec!["ProductEdge", "PageInfo", "ProductConnection", "CategoryEdge", "CategoryConnection"]);

    let edge = fields_of(&ctx, "ProductEdge");
    assert_eq!(edge.iter().map(|f| (f.name.as_str(), f.ty.as_str())).collect::<Vec<_>>(), vec![("node", "Product!"), ("cursor", "String!")]);
    assert!(edge[0].resolve.is_none() && edge[0].transformer.is_none());
    assert!(matches!(
        &edge[1].resolve.as_ref().unwrap().ty,
        ResolverType::ContextDataResolver(ContextDataResolver::LocalKey { key }) if key == "Product"
    ));
    assert!(edge[1].resolve.as_ref().unwrap().id.is_none());
    match &edge[1].transformer {
        Some(Transformer::Pipeline(stages)) => {
            assert_eq!(stages.len(), 2);
            assert!(matches!(&stages[0], Transformer::DynamoSelect { property } if property == "__sk"));
            assert!(matches!(stages[1], Transformer::ConvertSkToCursor));
        }
        other => panic!("a pipeline was expected, not {other:?}"),
    }

    let page_info = fields_of(&ctx, "PageInfo");
    assert_eq!(
        page_info
            .iter()
            .map(|f| {
                let property = match &f.transformer {
                    Some(Transformer::JSONSelect { property }) => property.as_str(),
                    other => panic!("{other:?}"),
                };
                assert!(matches!(
                    f.resolve.as_ref().unwrap().ty,
                    ResolverType::ContextDataResolver(ContextDataResolver::PaginationData)
                ));
                (f.name.as_str(), f.ty.as_str(), property)
            })
            .collect::<Vec<_>>(),
        vec![
            ("hasPreviousPage", "Boolean!", "has_previous_page"),
            ("hasNextPage", "Boolean!", "has_next_page"),
            ("startCursor", "String", "start_cursor"),
            ("endCursor", "String", "end_cursor"),
        ]
    );

    let connection = fields_of(&ctx, "ProductConnection");
    assert_eq!(
        connection.iter().map(|f| (f.name.as_str(), f.ty.as_str())).collect::<Vec<_>>(),
        vec![("pageInfo", "PageInfo!"), ("edges", "[ProductEdge]")]
    );
    assert_eq!(connection[0].description.as_deref(), Some("Information to aid in pagination"));
    assert_eq!(connection[1].edges, vec!["reviews"]);
    for field in edge.iter().chain(page_info.iter()).chain(connection.iter()) {
        assert_plain(field, Operations::List);
        assert!(field.auth.is_none());
    }

    assert!(ctx.mutations.is_empty());
    assert_eq!(ctx.queries.len(), 2);
    let query = &ctx.queries[0];
    assert_eq!(query.name, "productCollection");
    assert_eq!(query.description.as_deref(), Some("Paginated query to fetch the whole list of `Product`."));
    assert_eq!(query.ty, "ProductConnection");
    assert_eq!(
        (0..query.args.len()).map(|i| (query.args.key_at(i), query.args.value_at(i).ty.as_str())).collect::<Vec<_>>(),
        vec![("after", "String"), ("before", "String"), ("first", "Int"), ("last", "Int")]
    );
    let relation = query.relation.as_ref().unwrap();
    assert_eq!((relation.name.as_str(), relation.to.as_str()), ("productCollection", "Product"));
    let resolver = query.resolve.as_ref().unwrap();
    assert_eq!(resolver.id.as_deref(), Some("product_resolver"));
    match &resolver.ty {
        ResolverType::DynamoResolver(DynamoResolver::ListResultByTypePaginated { ty, first, after, before, last, nested }) => {
            assert!(matches!(ty, VariableResolveDefinition::DebugString(t) if t == "Product"));
            assert!(matches!(first, VariableResolveDefinition::InputTypeName(n) if n == "first"));
            assert!(matches!(after, VariableResolveDefinition::InputTypeName(n) if n == "after"));
            assert!(matches!(before, VariableResolveDefinition::InputTypeName(n) if n == "before"));
            assert!(matches!(last, VariableResolveDefinition::InputTypeName(n) if n == "last"));
            assert!(nested.is_none());
        }
        other => panic!("a paginated list was expected, not {other:?}"),
    }
    assert_plain(query, Operations::List);
    assert_eq!(ctx.queries[1].name, "categoryCollection");
    assert_eq!(pagination_arguments().len(), 4);
}

#[test]
fn the_input_type_of_an_object() {
    let doc = parse_schema("type Address { street: String! owner: Product tags: [Address!]! kind: Kind }").unwrap();
    let mut ctx = context();
    let name = add_input_type_non_primitive(&mut ctx, &doc.types[0], "address");
    assert_eq!(name, "AddressInput");
    match ctx.registry.types.get("AddressInput") {
        Some(MetaType::InputObject { name, description, input_fields, rust_typename, oneof }) => {
            assert_eq!(name, "AddressInput");
            assert_eq!(description.as_deref(), Some("address input type."));
            assert_eq!(rust_typename, "address");
            assert!(!oneof);
            assert_eq!(
                (0..input_fields.len())
                    .map(|i| (input_fields.key_at(i), input_fields.value_at(i).ty.as_str()))
                    .collect::<Vec<_>>(),
                vec![("street", "String!"), ("owner", "ID"), ("tags", "[AddressInput!]!"), ("kind", "Kind")]
            );
        }
        other => panic!("an input object was expected, not {other:?}"),
    }
    assert_eq!(to_input_type(&ctx.model_types, &ctx.object_types, &doc.types[0].fields[2].ty), "[AddressInput!]!");
}

#[test]
fn the_forms_of_a_name() {
    let names = type_names("blog_post");
    assert_eq!((names.camel.as_str(), names.lower_camel.as_str(), names.lowered.as_str()), ("BlogPost", "blogPost", "blog_post"));
    let names = type_names("Product");
    assert_eq!((names.camel.as_str(), names.lower_camel.as_str(), names.lowered.as_str()), ("Product", "product", "product"));
}

fn given_names() -> TypeNames {
    TypeNames { camel: "Camel".to_string(), lower_camel: "lowerCamel".to_string(), lowered: "lowered".to_string() }
}

#[test]
fn generated_names_are_made_of_the_given_forms() {
    let mut ctx = context();
    add_remove_mutation_named(&mut ctx, "Thing", &given_names(), None);
    assert_eq!(fields_of(&ctx, "CamelDeletePayload").len(), 1);
    let mutation = &ctx.mutations[0];
    assert_eq!(mutation.name, "lowerCamelDelete");
    assert_eq!(mutation.ty, "CamelDeletePayload");
    assert_eq!(mutation.description.as_deref(), Some("Delete a Thing by ID or unique field"));
    assert_eq!(mutation.args.get("by").unwrap().ty, "ThingByInput!");
    assert_eq!(mutation.resolve.as_ref().unwrap().id.as_deref(), Some("lowered_delete_resolver"));

    let mut ctx = context();
    add_list_query_paginated_named(&mut ctx, "Thing", &given_names(), vec![], None);
    let edge = fields_of(&ctx, "CamelEdge");
    assert_eq!(edge[0].ty, "Camel!");
    let connection = fields_of(&ctx, "CamelConnection");
    assert_eq!(connection[1].ty, "[CamelEdge]");
    let query = &ctx.queries[0];
    assert_eq!(query.name, "lowerCamelCollection");
    assert_eq!(query.ty, "CamelConnection");
    assert_eq!(query.relation.as_ref().map(|r| (r.name.as_str(), r.to.as_str())), Some(("lowerCamelCollection", "Thing")));
    assert_eq!(query.resolve.as_ref().unwrap().id.as_deref(), Some("lowered_resolver"));

    let mut ctx = context();
    let document = parse_schema("type Thing { a: String }").unwrap();
    let name = add_input_type_named(&mut ctx, &document.types[0], "Thing", "Camel");
    assert_eq!(name, "CamelInput");
    assert!(matches!(ctx.registry.types.get("CamelInput"), Some(MetaType::InputObject { rust_typename, .. }) if rust_typename == "Thing"));
}

#[test]
fn names_are_cased_letter_by_letter() {
    // Words between underscores start with a capital; underscores at the start are passed over.
    assert_eq!(type_names("a_string_and_a_miss").camel, "AStringAndAMiss");
    assert_eq!(type_names("fooby").camel, "Fooby");
    assert_eq!(type_names("_wild__underscore_s_").camel, "WildUnderscoreS");
    assert_eq!(type_names("Already").camel, "Already");
    assert_eq!(type_names("x9_y").camel, "X9Y");
    // Lower camel case goes through snake case: capitals become small letters behind underscores.
    assert_eq!(to_lower_camelcase("martinLutherStringJr"), "martinLutherStringJr");
    assert_eq!(to_lower_camelcase("WildUnderscoreS"), "wildUnderscoreS");
    assert_eq!(to_lower_camelcase("string_henry_iii"), "stringHenryIii");
    assert_eq!(to_lower_camelcase("ABc"), "aBc");
    assert_eq!(to_lower_camelcase("_x"), "x");
    assert_eq!(to_lower_camelcase(""), "");
}
