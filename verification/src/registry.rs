//! The registry of the types and fields that a schema is generated into.

use crate::ordered::OrderedMap;
use crate::resolver::{DynamoMutationResolver, ResolverModel, VariableModel, VariableResolveDefinition};
use crate::text::{clone_strings, views};
use vstd::prelude::*;

verus! {

/// How long and for whom a result may be cached.
#[derive(Clone, Copy, Debug, PartialEq, Eq, Structural)]
pub struct CacheControl {
    pub public: bool,
    pub max_age: usize,
}

/// Whether a field is deprecated.
#[derive(Clone, Copy, Debug, PartialEq, Eq, Structural)]
pub enum Deprecation {
    NoDeprecated,
    Deprecated,
}

/// What a request does with a model.
#[derive(Clone, Copy, Debug, PartialEq, Eq, Structural)]
pub enum Operations {
    Create,
    Get,
    List,
    Update,
    Delete,
}

/// Who may do what.
#[derive(Debug)]
pub struct AuthConfig {
    pub rules: Vec<String>,
}

impl AuthConfig {
    /// An equal configuration of its own.
    pub fn duplicate(&self) -> (r: AuthConfig)
        ensures
            views(r.rules@) == views(self.rules@),
    {
        AuthConfig { rules: clone_strings(&self.rules) }
    }
}

/// The model of an optional configuration: its rules.
pub open spec fn auth_model(auth: Option<AuthConfig>) -> Option<Seq<Seq<char>>> {
    match auth {
        Some(config) => Some(views(config.rules@)),
        None => None,
    }
}

/// An argument of a field or a field of an input type.
#[derive(Debug)]
pub struct MetaInputValue {
    pub name: String,
    pub description: Option<String>,
    pub ty: String,
    pub is_secret: bool,
}

/// The mathematical model of an argument.
pub struct MetaInputValueModel {
    pub name: Seq<char>,
    pub description: Option<Seq<char>>,
    pub ty: Seq<char>,
    pub is_secret: bool,
}

impl DeepView for MetaInputValue {
    type V = MetaInputValueModel;

    open spec fn deep_view(&self) -> MetaInputValueModel {
        MetaInputValueModel { name: self.name@, description: self.description.deep_view(), ty: self.ty@, is_secret: self.is_secret }
    }
}

/// A resolver that reads from what a resolver before it has found.
#[derive(Debug)]
pub enum ContextDataResolver {
    LocalKey { key: String },
    PaginationData,
}

/// A resolver that reads from the store.
#[derive(Debug)]
pub enum DynamoResolver {
    ListResultByTypePaginated {
        ty: VariableResolveDefinition,
        first: VariableResolveDefinition,
        after: VariableResolveDefinition,
        before: VariableResolveDefinition,
        last: VariableResolveDefinition,
        nested: Option<(String, String)>,
    },
}

/// What resolves a field.
#[derive(Debug)]
pub enum ResolverType {
    ContextDataResolver(ContextDataResolver),
    DynamoResolver(DynamoResolver),
    DynamoMutationResolver(DynamoMutationResolver),
}

/// The mathematical model of what resolves a field.
pub enum ResolverTypeModel {
    LocalKey { key: Seq<char> },
    PaginationData,
    ListResultByTypePaginated { ty: VariableModel, first: VariableModel, after: VariableModel, before: VariableModel, last: VariableModel, nested: Option<(Seq<char>, Seq<char>)> },
    DynamoMutationResolver(ResolverModel),
}

impl DeepView for ResolverType {
    type V = ResolverTypeModel;

    open spec fn deep_view(&self) -> ResolverTypeModel {
        match self {
            ResolverType::ContextDataResolver(ContextDataResolver::LocalKey { key }) => ResolverTypeModel::LocalKey { key: key@ },
            ResolverType::ContextDataResolver(ContextDataResolver::PaginationData) => ResolverTypeModel::PaginationData,
            ResolverType::DynamoResolver(DynamoResolver::ListResultByTypePaginated { ty, first, after, before, last, nested }) => ResolverTypeModel::ListResultByTypePaginated {
                ty: ty@,
                first: first@,
                after: after@,
                before: before@,
                last: last@,
                nested: nested.deep_view(),
            },
            ResolverType::DynamoMutationResolver(resolver) => ResolverTypeModel::DynamoMutationResolver(resolver@),
        }
    }
}

/// A resolver of a field.
#[derive(Debug)]
pub struct Resolver {
    pub id: Option<String>,
    pub ty: ResolverType,
}

/// The mathematical model of a resolver.
pub struct ResolverOfFieldModel {
    pub id: Option<Seq<char>>,
    pub ty: ResolverTypeModel,
}

impl DeepView for Resolver {
    type V = ResolverOfFieldModel;

    open spec fn deep_view(&self) -> ResolverOfFieldModel {
        ResolverOfFieldModel { id: self.id.deep_view(), ty: self.ty.deep_view() }
    }
}

/// What is done to a resolved value before it is handed on.
#[derive(Debug)]
pub enum Transformer {
    /// One transformer after the other.
    Pipeline(Vec<Transformer>),
    /// The attribute of a row.
    DynamoSelect { property: String },
    /// The sort key of a row, turned into a cursor.
    ConvertSkToCursor,
    /// The field of a JSON object.
    JSONSelect { property: String },
}

/// The mathematical model of a transformer.
pub enum TransformerModel {
    Pipeline(Seq<TransformerModel>),
    DynamoSelect { property: Seq<char> },
    ConvertSkToCursor,
    JSONSelect { property: Seq<char> },
}

impl DeepView for Transformer {
    type V = TransformerModel;

    open spec fn deep_view(&self) -> TransformerModel
        decreases self,
    {
        match self {
            Transformer::Pipeline(stages) => TransformerModel::Pipeline(
                Seq::new(
                    stages.len() as nat,
                    |i: int|
                        if 0 <= i < stages.len() {
                            stages[i].deep_view()
                        } else {
                            TransformerModel::ConvertSkToCursor
                        },
                ),
            ),
            Transformer::DynamoSelect { property } => TransformerModel::DynamoSelect { property: property@ },
            Transformer::ConvertSkToCursor => TransformerModel::ConvertSkToCursor,
            Transformer::JSONSelect { property } => TransformerModel::JSONSelect { property: property@ },
        }
    }
}

/// The relation that a field stands for.
#[derive(Debug)]
pub struct MetaRelation {
    pub name: String,
    /// The type on the other side.
    pub to: String,
}

impl DeepView for MetaRelation {
    type V = (Seq<char>, Seq<char>);

    open spec fn deep_view(&self) -> (Seq<char>, Seq<char>) {
        (self.name@, self.to@)
    }
}

/// A field of an object type.
#[derive(Debug)]
pub struct MetaField {
    pub name: String,
    pub description: Option<String>,
    pub args: OrderedMap<MetaInputValue>,
    pub ty: String,
    pub deprecation: Deprecation,
    pub cache_control: CacheControl,
    pub external: bool,
    pub required_fields: Option<String>,
    pub provides: Option<String>,
    pub edges: Vec<String>,
    pub relation: Option<MetaRelation>,
    pub resolve: Option<Resolver>,
    pub transformer: Option<Transformer>,
    pub required_operation: Option<Operations>,
    pub auth: Option<AuthConfig>,
}

/// The mathematical model of a field.
pub struct MetaFieldModel {
    pub name: Seq<char>,
    pub description: Option<Seq<char>>,
    pub args: Seq<(Seq<char>, MetaInputValueModel)>,
    pub ty: Seq<char>,
    pub deprecation: Deprecation,
    pub cache_control: CacheControl,
    pub external: bool,
    pub required_fields: Option<Seq<char>>,
    pub provides: Option<Seq<char>>,
    pub edges: Seq<Seq<char>>,
    pub relation: Option<(Seq<char>, Seq<char>)>,
    pub resolve: Option<ResolverOfFieldModel>,
    pub transformer: Option<TransformerModel>,
    pub required_operation: Option<Operations>,
    pub auth: Option<Seq<Seq<char>>>,
}

impl DeepView for MetaField {
    type V = MetaFieldModel;

    open spec fn deep_view(&self) -> MetaFieldModel {
        MetaFieldModel {
            name: self.name@,
            description: self.description.deep_view(),
            args: self.args.deep_view(),
            ty: self.ty@,
            deprecation: self.deprecation,
            cache_control: self.cache_control,
            external: self.external,
            required_fields: self.required_fields.deep_view(),
            provides: self.provides.deep_view(),
            edges: views(self.edges@),
            relation: self.relation.deep_view(),
            resolve: self.resolve.deep_view(),
            transformer: self.transformer.deep_view(),
            required_operation: self.required_operation,
            auth: auth_model(self.auth),
        }
    }
}

/// A type of the registry.
#[derive(Debug)]
pub enum MetaType {
    Object {
        name: String,
        description: Option<String>,
        fields: OrderedMap<MetaField>,
        cache_control: CacheControl,
        extends: bool,
        is_subscription: bool,
        is_node: bool,
        rust_typename: String,
    },
    InputObject { name: String, description: Option<String>, input_fields: OrderedMap<MetaInputValue>, rust_typename: String, oneof: bool },
}

/// The mathematical model of a type of the registry.
pub enum MetaTypeModel {
    Object {
        name: Seq<char>,
        description: Option<Seq<char>>,
        fields: Seq<(Seq<char>, MetaFieldModel)>,
        cache_control: CacheControl,
        extends: bool,
        is_subscription: bool,
        is_node: bool,
        rust_typename: Seq<char>,
    },
    InputObject { name: Seq<char>, description: Option<Seq<char>>, input_fields: Seq<(Seq<char>, MetaInputValueModel)>, rust_typename: Seq<char>, oneof: bool },
}

impl DeepView for MetaType {
    type V = MetaTypeModel;

    open spec fn deep_view(&self) -> MetaTypeModel {
        match self {
            MetaType::Object { name, description, fields, cache_control, extends, is_subscription, is_node, rust_typename } => MetaTypeModel::Object {
                name: name@,
                description: description.deep_view(),
                fields: fields.deep_view(),
                cache_control: *cache_control,
                extends: *extends,
                is_subscription: *is_subscription,
                is_node: *is_node,
                rust_typename: rust_typename@,
            },
            MetaType::InputObject { name, description, input_fields, rust_typename, oneof } => MetaTypeModel::InputObject {
                name: name@,
                description: description.deep_view(),
                input_fields: input_fields.deep_view(),
                rust_typename: rust_typename@,
                oneof: *oneof,
            },
        }
    }
}

/// The types of a schema, by name, in the order in which they were created.
#[derive(Debug)]
pub struct Registry {
    pub types: OrderedMap<MetaType>,
}

/// The types of a registry after a type has been created: a name that is
/// there keeps its type; a new name comes last.
pub open spec fn with_type(types: Seq<(Seq<char>, MetaTypeModel)>, name: Seq<char>, ty: MetaTypeModel) -> Seq<(Seq<char>, MetaTypeModel)> {
    if crate::assoc::has_key(types, name) {
        types
    } else {
        types.push((name, ty))
    }
}

impl Registry {
    /// A registry without types.
    pub fn new() -> (r: Registry)
        ensures
            r.types@ == Seq::<(Seq<char>, MetaTypeModel)>::empty(),
    {
        Registry { types: OrderedMap::new() }
    }

    /// Creates a type under a name, unless the registry has a type of that name.
    pub fn create_type(&mut self, ty: MetaType, name: &str)
        ensures
            final(self).types@ == with_type(old(self).types@, name@, ty.deep_view()),
    {
        if !self.types.contains_key(name) {
            self.types.push(name.to_owned(), ty);
        }
    }
}

/// What the generation of a schema has come to: the registry and the fields
/// of the two root types.
#[derive(Debug)]
pub struct GenerationContext {
    pub registry: Registry,
    pub queries: Vec<MetaField>,
    pub mutations: Vec<MetaField>,
    /// The names of the object types of the document that are models.
    pub model_types: Vec<String>,
    /// The names of the object types of the document that are no models.
    pub object_types: Vec<String>,
}

} // verus!
