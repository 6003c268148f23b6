//! The mutation resolvers of the schema: create, update and delete a node.

use crate::delete::MutationError;
use crate::ids::{make_node_id, node_id, utc_now_text};
use crate::input::{field_of, get_field, lemma_variants, InputModel, InputValue};
use crate::mutation::{node_created, node_updated, CreationModel, MutationPlan, PlanModel, RecursiveCreation};
use crate::node_types::{catalog_closed, find_type, type_index_from, NodeType, NodeTypeModel};
use crate::planner::{node_create, node_update};
use vstd::prelude::*;

verus! {

/// The node types of a schema. Every relation of every type refers to a type
/// of the catalog.
#[derive(Debug)]
pub struct TypeCatalog {
    types: Vec<NodeType>,
}

impl DeepView for TypeCatalog {
    type V = Seq<NodeTypeModel>;

    closed spec fn deep_view(&self) -> Seq<NodeTypeModel> {
        self.types.deep_view()
    }
}

impl View for TypeCatalog {
    type V = Seq<NodeTypeModel>;

    open spec fn view(&self) -> Seq<NodeTypeModel> {
        self.deep_view()
    }
}

/// Whether the relations of the first `n` types all refer to types of the catalog.
fn relations_resolve(types: &Vec<NodeType>, n: usize) -> (r: bool)
    requires
        n <= types.len(),
    ensures
        r == forall|t: int, k: int|
            0 <= t < n && 0 <= k < types.deep_view()[t].relations.len() ==> type_index_from(
                types.deep_view(),
                #[trigger] types.deep_view()[t].relations[k].target,
                0,
            ) < types.len(),
{
    let mut t: usize = 0;
    while t < n
        invariant
            t <= n <= types.len(),
            forall|a: int, k: int|
                0 <= a < t && 0 <= k < types.deep_view()[a].relations.len() ==> type_index_from(
                    types.deep_view(),
                    #[trigger] types.deep_view()[a].relations[k].target,
                    0,
                ) < types.len(),
        decreases n - t,
    {
        let ty = &types[t];
        assert(types.deep_view()[t as int] == ty@);
        let mut k: usize = 0;
        while k < ty.relations.len()
            invariant
                k <= ty.relations.len(),
                t < n <= types.len(),
                types.deep_view()[t as int] == ty@,
                forall|b: int| 0 <= b < k ==> type_index_from(types.deep_view(), #[trigger] ty@.relations[b].target, 0) < types.len(),
            decreases ty.relations.len() - k,
        {
            assert(ty@.relations[k as int] == ty.relations[k as int]@);
            if find_type(types, ty.relations[k].target.as_str()) >= types.len() {
                assert(!(type_index_from(types.deep_view(), types.deep_view()[t as int].relations[k as int].target, 0) < types.len()));
                return false;
            }
            k = k + 1;
        }
        t = t + 1;
    }
    true
}

impl TypeCatalog {
    #[verifier::type_invariant]
    closed spec fn closed(&self) -> bool {
        catalog_closed(self.types.deep_view())
    }

    /// The catalog of these types; `None` where a relation refers to a type
    /// that is not among them.
    pub fn new(types: Vec<NodeType>) -> (r: Option<TypeCatalog>)
        ensures
            r is Some == catalog_closed(types.deep_view()),
            r is Some ==> r->Some_0@ == types.deep_view(),
    {
        if relations_resolve(&types, types.len()) {
            Some(TypeCatalog { types })
        } else {
            None
        }
    }

    /// The types of the catalog.
    pub fn types(&self) -> (r: &Vec<NodeType>)
        ensures
            r.deep_view() == self@,
            catalog_closed(r.deep_view()),
    {
        proof {
            use_type_invariant(self);
        }
        &self.types
    }
}

/// Where a resolver takes a value from.
#[derive(Debug)]
pub enum VariableResolveDefinition {
    /// The argument of this name.
    InputTypeName(String),
    /// This text itself.
    DebugString(String),
}

/// The mathematical model of a value's source.
pub enum VariableModel {
    InputTypeName(Seq<char>),
    DebugString(Seq<char>),
}

impl DeepView for VariableResolveDefinition {
    type V = VariableModel;

    open spec fn deep_view(&self) -> VariableModel {
        match self {
            VariableResolveDefinition::InputTypeName(name) => VariableModel::InputTypeName(name@),
            VariableResolveDefinition::DebugString(text) => VariableModel::DebugString(text@),
        }
    }
}

impl View for VariableResolveDefinition {
    type V = VariableModel;

    open spec fn view(&self) -> VariableModel {
        self.deep_view()
    }
}

/// The value that a source gives among these arguments.
pub open spec fn param_of(source: VariableModel, arguments: Seq<(Seq<char>, InputModel)>) -> Option<InputModel> {
    match source {
        VariableModel::InputTypeName(name) => field_of(arguments, name),
        VariableModel::DebugString(text) => Some(InputModel::Text(text)),
    }
}

impl VariableResolveDefinition {
    /// The value that the source gives among these arguments.
    pub fn param(&self, arguments: &Vec<(String, InputValue)>) -> (r: Option<InputValue>)
        ensures
            r.deep_view() == param_of(self@, arguments.deep_view()),
    {
        match self {
            VariableResolveDefinition::InputTypeName(name) => match get_field(arguments, name.as_str()) {
                Some(value) => Some(value.duplicate()),
                None => None,
            },
            VariableResolveDefinition::DebugString(text) => Some(InputValue::Text(text.clone())),
        }
    }
}

/// A resolver that changes the graph of nodes.
#[non_exhaustive]
#[derive(Debug)]
pub enum DynamoMutationResolver {
    /// Creates a node of a type, with the nodes and relations that its input
    /// asks for. Results in the identifier of the new node.
    CreateNode { input: VariableResolveDefinition, ty: String },
    /// Deletes a node and every row that relates it to another node; the
    /// other nodes stay. Results in the deleted identifier.
    DeleteNode { id: VariableResolveDefinition },
    /// Updates the plain fields of a node on the node and on each of its
    /// copies, and changes its relations. Results in the identifier.
    UpdateNode { id: VariableResolveDefinition, input: VariableResolveDefinition, ty: String },
}

/// The mathematical model of a mutation resolver.
pub enum ResolverModel {
    CreateNode { input: VariableModel, ty: Seq<char> },
    DeleteNode { id: VariableModel },
    UpdateNode { id: VariableModel, input: VariableModel, ty: Seq<char> },
}

impl DeepView for DynamoMutationResolver {
    type V = ResolverModel;

    open spec fn deep_view(&self) -> ResolverModel {
        match self {
            DynamoMutationResolver::CreateNode { input, ty } => ResolverModel::CreateNode { input: input@, ty: ty@ },
            DynamoMutationResolver::DeleteNode { id } => ResolverModel::DeleteNode { id: id@ },
            DynamoMutationResolver::UpdateNode { id, input, ty } => ResolverModel::UpdateNode { id: id@, input: input@, ty: ty@ },
        }
    }
}

impl View for DynamoMutationResolver {
    type V = ResolverModel;

    open spec fn view(&self) -> ResolverModel {
        self.deep_view()
    }
}

/// What the store has to do for a mutation.
#[derive(Debug)]
pub enum MutationStep {
    /// Work out the selections of the plan, then make the writes of `root`.
    /// The mutation results in `id`.
    Write { plan: MutationPlan, root: RecursiveCreation, id: String },
    /// Look up the rows that have `id` as partition key or as sort key and delete them.
    Delete { id: String },
}

/// The mathematical model of a mutation's step.
pub enum StepModel {
    Write { plan: PlanModel, root: CreationModel, id: Seq<char> },
    Delete { id: Seq<char> },
}

impl DeepView for MutationStep {
    type V = StepModel;

    open spec fn deep_view(&self) -> StepModel {
        match self {
            MutationStep::Write { plan, root, id } => StepModel::Write { plan: plan@, root: root@, id: id@ },
            MutationStep::Delete { id } => StepModel::Delete { id: id@ },
        }
    }
}

impl View for MutationStep {
    type V = StepModel;

    open spec fn view(&self) -> StepModel {
        self.deep_view()
    }
}

/// A plan without selections whose first new node takes the execution's ULID.
pub open spec fn fresh_plan(execution_id: u128) -> PlanModel {
    PlanModel { selections: Seq::empty(), next_ulid: Some(execution_id), errors: Seq::empty() }
}

/// The step that a resolver comes to. A creation or an update needs its type
/// in the schema and an object as its input; an update and a deletion need a
/// text as the identifier. The identifier of a new node is made of its type
/// and the ULID of the execution.
pub open spec fn resolved(
    resolver: ResolverModel,
    types: Seq<NodeTypeModel>,
    arguments: Seq<(Seq<char>, InputModel)>,
    execution_id: u128,
    now: Seq<char>,
) -> Result<StepModel, MutationError> {
    match resolver {
        ResolverModel::CreateNode { input, ty } => {
            let t = type_index_from(types, ty, 0);
            if t >= types.len() {
                Err(MutationError::UnknownType)
            } else {
                match param_of(input, arguments) {
                    Some(InputModel::Object(fields)) => match node_created(types, t, now, fields, fresh_plan(execution_id)) {
                        Ok((plan, root)) => Ok(StepModel::Write { plan, root, id: node_id(ty, execution_id) }),
                        Err(e) => Err(e),
                    },
                    _ => Err(MutationError::KeyNotInferred),
                }
            }
        },
        ResolverModel::UpdateNode { id, input, ty } => {
            let t = type_index_from(types, ty, 0);
            if t >= types.len() {
                Err(MutationError::UnknownType)
            } else {
                match (param_of(id, arguments), param_of(input, arguments)) {
                    (Some(InputModel::Text(id)), Some(InputModel::Object(fields))) => match node_updated(
                        types,
                        t,
                        now,
                        fields,
                        id,
                        fresh_plan(execution_id),
                    ) {
                        Ok((plan, root)) => Ok(StepModel::Write { plan, root, id }),
                        Err(e) => Err(e),
                    },
                    _ => Err(MutationError::KeyNotInferred),
                }
            }
        },
        ResolverModel::DeleteNode { id } => match param_of(id, arguments) {
            Some(InputModel::Text(id)) => Ok(StepModel::Delete { id }),
            _ => Err(MutationError::KeyNotInferred),
        },
    }
}

impl DynamoMutationResolver {
    /// Resolves the mutation to the step that the store has to take, at a
    /// given time.
    pub fn resolve_at(&self, catalog: &TypeCatalog, arguments: &Vec<(String, InputValue)>, execution_id: u128, now: &str) -> (r: Result<
        MutationStep,
        MutationError,
    >)
        ensures
            match r {
                Ok(step) => resolved(self@, catalog@, arguments.deep_view(), execution_id, now@) == Ok::<StepModel, MutationError>(step@),
                Err(e) => resolved(self@, catalog@, arguments.deep_view(), execution_id, now@) == Err::<StepModel, MutationError>(e),
            },
    {
        let types = catalog.types();
        match self {
            DynamoMutationResolver::CreateNode { input, ty } => {
                let t = find_type(types, ty.as_str());
                if t >= types.len() {
                    return Err(MutationError::UnknownType);
                }
                let value = input.param(arguments);
                proof {
                    if value is Some {
                        lemma_variants(value->Some_0);
                    }
                }
                match value {
                    Some(InputValue::Object(fields)) => {
                        let mut plan = MutationPlan::new(execution_id);
                        match node_create(&mut plan, types, t, now, &fields) {
                            Ok(root) => Ok(MutationStep::Write { plan, root, id: make_node_id(ty.as_str(), execution_id) }),
                            Err(e) => Err(e),
                        }
                    },
                    _ => Err(MutationError::KeyNotInferred),
                }
            },
            DynamoMutationResolver::UpdateNode { id, input, ty } => {
                let t = find_type(types, ty.as_str());
                if t >= types.len() {
                    return Err(MutationError::UnknownType);
                }
                let id_value = id.param(arguments);
                let input_value = input.param(arguments);
                proof {
                    if id_value is Some {
                        lemma_variants(id_value->Some_0);
                    }
                    if input_value is Some {
                        lemma_variants(input_value->Some_0);
                    }
                }
                match (id_value, input_value) {
                    (Some(InputValue::Text(id)), Some(InputValue::Object(fields))) => {
                        let mut plan = MutationPlan::new(execution_id);
                        match node_update(&mut plan, types, t, now, &fields, id.as_str()) {
                            Ok(root) => Ok(MutationStep::Write { plan, root, id }),
                            Err(e) => Err(e),
                        }
                    },
                    _ => Err(MutationError::KeyNotInferred),
                }
            },
            DynamoMutationResolver::DeleteNode { id } => {
                let value = id.param(arguments);
                proof {
                    if value is Some {
                        lemma_variants(value->Some_0);
                    }
                }
                match value {
                    Some(InputValue::Text(id)) => Ok(MutationStep::Delete { id }),
                    _ => Err(MutationError::KeyNotInferred),
                }
            },
        }
    }

    /// Resolves the mutation to the step that the store has to take. New
    /// rows are stamped with the time of the call, so nothing is promised of
    /// the step but that it is the step of some time.
    pub fn resolve(&self, catalog: &TypeCatalog, arguments: &Vec<(String, InputValue)>, execution_id: u128) -> (r: Result<
        MutationStep,
        MutationError,
    >)
        ensures
            exists|now: Seq<char>|
                match r {
                    Ok(step) => #[trigger] resolved(self@, catalog@, arguments.deep_view(), execution_id, now) == Ok::<
                        StepModel,
                        MutationError,
                    >(step@),
                    Err(e) => resolved(self@, catalog@, arguments.deep_view(), execution_id, now) == Err::<StepModel, MutationError>(e),
                },
    {
        let now = utc_now_text();
        let r = self.resolve_at(catalog, arguments, execution_id, now.as_str());
        proof {
            if r is Ok {
                assert(resolved(self@, catalog@, arguments.deep_view(), execution_id, now@) == Ok::<StepModel, MutationError>(r->Ok_0@));
            } else {
                assert(resolved(self@, catalog@, arguments.deep_view(), execution_id, now@) == Err::<StepModel, MutationError>(r->Err_0));
            }
        }
        r
    }
}

} // verus!
