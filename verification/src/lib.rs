//! The execution core of a federated GraphQL gateway: cursor pagination and
//! graph mutations over a single-table key-value store, the arena of operation
//! input values, required field sets, operation validation and the schema
//! registry that these work on.

pub mod text;
pub mod project_ref;
pub mod assoc;
pub mod item;
pub mod ordered;
pub mod cursor;
pub mod row;
pub mod paginated;
pub mod query_plan;
pub mod paging_laws;
pub mod input;
pub mod node_types;
pub mod writes;
pub mod ids;
pub mod update;
pub mod delete;
pub mod mutation;
pub mod planner;
pub mod execute;
pub mod resolver;
pub mod mutation_laws;
pub mod input_values;
pub mod arena;
pub mod required;
pub mod schema;
pub mod required_builder;
pub mod postgres;
pub mod operation;
pub mod validation;
pub mod sdl;
pub mod document;
pub mod directives;
pub mod connectors;
pub mod rules;
pub mod federated;
pub mod registry;
pub mod generation;
pub mod gateway;
pub mod relation_laws;
pub mod resolved_values;
pub mod subscription;
pub mod length;
