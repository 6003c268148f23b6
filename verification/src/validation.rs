//! Validation of an operation before it is executed: the limits that the
//! schema sets, and the rule on introspection.

use crate::arena::FieldId;
use crate::operation::{Location, Operation, OperationType};
use crate::schema::{OperationLimits, Schema};
use crate::text::same_text;
use vstd::prelude::*;

verus! {

/// The limit that an operation exceeds.
#[derive(Clone, Copy, Debug, PartialEq, Eq, Structural)]
pub enum OperationLimitExceededError {
    QueryTooDeep,
    QueryContainsTooManyAliases,
    QueryContainsTooManyRootFields,
    QueryTooComplex,
}

/// Why an operation is not executed.
#[derive(Clone, Copy, Debug, PartialEq, Eq, Structural)]
pub enum ValidationError {
    OperationLimitExceeded(OperationLimitExceededError),
    IntrospectionWhenDisabled { location: Location },
}

/// The code of an error in a response.
#[derive(Clone, Copy, Debug, PartialEq, Eq, Structural)]
pub enum ErrorCode {
    BadRequest,
    Unauthenticated,
    RateLimited,
    GatewayTimeout,
    OperationValidationError,
}

/// An error as a response shows it.
#[derive(Debug)]
pub struct GraphqlError {
    pub message: String,
    pub code: ErrorCode,
    pub locations: Vec<Location>,
}

impl OperationLimitExceededError {
    pub open spec fn message_text(self) -> Seq<char> {
        match self {
            OperationLimitExceededError::QueryTooDeep => "Query is nested too deep."@,
            OperationLimitExceededError::QueryContainsTooManyAliases => "Query contains too many aliases."@,
            OperationLimitExceededError::QueryContainsTooManyRootFields => "Query contains too many root fields."@,
            OperationLimitExceededError::QueryTooComplex => "Query is too complex."@,
        }
    }

    pub fn message(self) -> (r: &'static str)
        ensures
            r@ == self.message_text(),
    {
        match self {
            OperationLimitExceededError::QueryTooDeep => "Query is nested too deep.",
            OperationLimitExceededError::QueryContainsTooManyAliases => "Query contains too many aliases.",
            OperationLimitExceededError::QueryContainsTooManyRootFields => "Query contains too many root fields.",
            OperationLimitExceededError::QueryTooComplex => "Query is too complex.",
        }
    }
}

impl ValidationError {
    pub open spec fn message_text(self) -> Seq<char> {
        match self {
            ValidationError::OperationLimitExceeded(limit) => limit.message_text(),
            ValidationError::IntrospectionWhenDisabled { .. } => "GraphQL introspection is not allowed, but the query contained __schema or __type"@,
        }
    }

    /// The message of the error.
    pub fn to_string(self) -> (r: String)
        ensures
            r@ == self.message_text(),
    {
        match self {
            ValidationError::OperationLimitExceeded(limit) => limit.message().to_owned(),
            ValidationError::IntrospectionWhenDisabled { .. } => "GraphQL introspection is not allowed, but the query contained __schema or __type".to_owned(),
        }
    }

    /// The error as a response shows it: always with the code of a failed
    /// validation; with the place of the field for introspection, and
    /// without a place for a limit.
    pub fn to_graphql_error(self) -> (r: GraphqlError)
        ensures
            r.message@ == self.message_text(),
            r.code == ErrorCode::OperationValidationError,
            r.locations@ == (match self {
                ValidationError::IntrospectionWhenDisabled { location } => seq![location],
                ValidationError::OperationLimitExceeded(_) => Seq::empty(),
            }),
    {
        let mut locations: Vec<Location> = Vec::new();
        match self {
            ValidationError::IntrospectionWhenDisabled { location } => {
                locations.push(location);
            },
            ValidationError::OperationLimitExceeded(_) => {},
        }
        GraphqlError { message: self.to_string(), code: ErrorCode::OperationValidationError, locations }
    }
}

/// A count that stops at the largest machine word.
pub open spec fn capped(n: nat) -> nat {
    if n > usize::MAX {
        usize::MAX as nat
    } else {
        n as nat
    }
}

/// The selection set below a field, if the operation holds the field and it has one.
pub open spec fn set_below(op: Operation, field: FieldId) -> Option<nat> {
    if field.position() < op.fields.len() && op.fields[field.position() as int].selection_set is Some {
        Some(op.fields[field.position() as int].selection_set->Some_0.position())
    } else {
        None
    }
}

/// How deep a selection set nests: one more than the deepest selection set
/// below its fields. A selection set that the operation does not hold, or
/// that lies deeper than `fuel`, counts as empty.
pub open spec fn set_depth(op: Operation, set: nat, fuel: nat) -> nat
    decreases fuel, 0nat,
{
    if fuel == 0 || set >= op.selection_sets.len() {
        0
    } else {
        capped(1 + deepest_below(op, op.selection_sets[set as int].fields@, op.selection_sets[set as int].fields@.len(), (fuel - 1) as nat))
    }
}

/// The depth of the deepest selection set below the first `n` fields.
pub open spec fn deepest_below(op: Operation, fields: Seq<FieldId>, n: nat, fuel: nat) -> nat
    decreases fuel, n + 1,
{
    if n == 0 || n > fields.len() {
        0
    } else {
        let before = deepest_below(op, fields, (n - 1) as nat, fuel);
        let here = match set_below(op, fields[n - 1]) {
            Some(set) => set_depth(op, set, fuel),
            None => 0,
        };
        if here > before {
            here
        } else {
            before
        }
    }
}

/// How many fields of a selection set, and of the selection sets below it,
/// have an alias.
pub open spec fn set_aliases(op: Operation, set: nat, fuel: nat) -> nat
    decreases fuel, 0nat,
{
    if fuel == 0 || set >= op.selection_sets.len() {
        0
    } else {
        aliases_among(op, op.selection_sets[set as int].fields@, op.selection_sets[set as int].fields@.len(), (fuel - 1) as nat)
    }
}

/// How many of the first `n` fields, and of the fields below them, have an alias.
pub open spec fn aliases_among(op: Operation, fields: Seq<FieldId>, n: nat, fuel: nat) -> nat
    decreases fuel, n + 1,
{
    if n == 0 || n > fields.len() {
        0
    } else {
        let field = fields[n - 1];
        let own: nat = if field.position() < op.fields.len() && op.fields[field.position() as int].has_alias {
            1
        } else {
            0
        };
        let below = match set_below(op, field) {
            Some(set) => set_aliases(op, set, fuel),
            None => 0,
        };
        capped(aliases_among(op, fields, (n - 1) as nat, fuel) + capped(own + below))
    }
}

/// The complexity of a selection set: one for each of its fields, and the
/// complexity of what is selected below each.
pub open spec fn set_complexity(op: Operation, set: nat, fuel: nat) -> nat
    decreases fuel, 0nat,
{
    if fuel == 0 || set >= op.selection_sets.len() {
        0
    } else {
        complexity_among(op, op.selection_sets[set as int].fields@, op.selection_sets[set as int].fields@.len(), (fuel - 1) as nat)
    }
}

/// The complexity of the first `n` fields.
pub open spec fn complexity_among(op: Operation, fields: Seq<FieldId>, n: nat, fuel: nat) -> nat
    decreases fuel, n + 1,
{
    if n == 0 || n > fields.len() {
        0
    } else {
        let below = match set_below(op, fields[n - 1]) {
            Some(set) => set_complexity(op, set, fuel),
            None => 0,
        };
        capped(complexity_among(op, fields, (n - 1) as nat, fuel) + capped(1 + below))
    }
}

/// How deep selection sets are followed: operations nest no deeper than
/// they have selection sets.
pub open spec fn walk_fuel(op: Operation) -> nat {
    capped((op.selection_sets.len() + 1) as nat)
}

/// The number of fields of the root selection set.
pub open spec fn root_fields(op: Operation) -> nat {
    if op.root_selection_set_id.position() < op.selection_sets.len() {
        op.selection_sets[op.root_selection_set_id.position() as int].fields@.len()
    } else {
        0
    }
}

/// The first limit that an operation exceeds, if it exceeds one: depth,
/// aliases, root fields and complexity are held against their ceilings in
/// this order, and a limit without a ceiling is not exceeded.
pub open spec fn exceeded_limit(limits: OperationLimits, op: Operation) -> Option<OperationLimitExceededError> {
    let root = op.root_selection_set_id.position();
    if limits.depth is Some && set_depth(op, root, walk_fuel(op)) > limits.depth->Some_0 {
        Some(OperationLimitExceededError::QueryTooDeep)
    } else if limits.aliases is Some && set_aliases(op, root, walk_fuel(op)) > limits.aliases->Some_0 {
        Some(OperationLimitExceededError::QueryContainsTooManyAliases)
    } else if limits.root_fields is Some && root_fields(op) > limits.root_fields->Some_0 {
        Some(OperationLimitExceededError::QueryContainsTooManyRootFields)
    } else if limits.complexity is Some && set_complexity(op, root, walk_fuel(op)) > limits.complexity->Some_0 {
        Some(OperationLimitExceededError::QueryTooComplex)
    } else {
        None
    }
}

/// Whether a field asks for the schema itself.
pub open spec fn is_introspection(name: Seq<char>) -> bool {
    name == "__schema"@ || name == "__type"@
}

/// The position of the first of the first `n` root fields that asks for the
/// schema itself; `n` if there is none.
pub open spec fn introspection_from(op: Operation, fields: Seq<FieldId>, from: int) -> int
    decreases fields.len() - from,
{
    if from < 0 || from >= fields.len() {
        fields.len() as int
    } else if fields[from].position() < op.fields.len() && is_introspection(op.fields[fields[from].position() as int].name@) {
        from
    } else {
        introspection_from(op, fields, from + 1)
    }
}

/// The place of the first root field of a query that asks for the schema
/// itself, where the schema does not allow that.
pub open spec fn refused_introspection(disabled: bool, op: Operation) -> Option<Location> {
    if disabled && op.ty == OperationType::Query && op.root_selection_set_id.position() < op.selection_sets.len() {
        let fields = op.selection_sets[op.root_selection_set_id.position() as int].fields@;
        let i = introspection_from(op, fields, 0);
        if i < fields.len() {
            Some(op.fields[fields[i].position() as int].location)
        } else {
            None
        }
    } else {
        None
    }
}

/// What validation says of an operation: the limits are looked at first,
/// then introspection.
pub open spec fn validated(limits: OperationLimits, disable_introspection: bool, op: Operation) -> Result<(), ValidationError> {
    match exceeded_limit(limits, op) {
        Some(limit) => Err(ValidationError::OperationLimitExceeded(limit)),
        None => match refused_introspection(disable_introspection, op) {
            Some(location) => Err(ValidationError::IntrospectionWhenDisabled { location }),
            None => Ok(()),
        },
    }
}

fn add_capped(a: usize, b: usize) -> (r: usize)
    ensures
        r == capped((a + b) as nat),
{
    a.saturating_add(b)
}

fn below(op: &Operation, field: FieldId) -> (r: Option<usize>)
    ensures
        match r {
            Some(set) => set_below(*op, field) == Some(set as nat),
            None => set_below(*op, field) is None,
        },
{
    let i = field.index();
    if i < op.fields.len() {
        match op.fields[i].selection_set {
            Some(set) => Some(set.index()),
            None => None,
        }
    } else {
        None
    }
}

/// Measures how deep a selection set nests.
#[verifier::loop_isolation(false)]
pub fn max_depth(op: &Operation, set: usize, fuel: usize) -> (r: usize)
    ensures
        r == set_depth(*op, set as nat, fuel as nat),
    decreases fuel, 0nat,
{
    if fuel == 0 || set >= op.selection_sets.len() {
        return 0;
    }
    let fields = &op.selection_sets[set].fields;
    let mut deepest: usize = 0;
    let mut i: usize = 0;
    while i < fields.len()
        invariant
            i <= fields.len(),
            deepest == deepest_below(*op, fields@, i as nat, (fuel - 1) as nat),
        decreases fields.len() - i,
    {
        let here = match below(op, fields[i]) {
            Some(inner) => max_depth(op, inner, fuel - 1),
            None => 0,
        };
        if here > deepest {
            deepest = here;
        }
        i = i + 1;
    }
    add_capped(1, deepest)
}

/// Counts the aliases of a selection set and of what lies below it.
#[verifier::loop_isolation(false)]
pub fn alias_count(op: &Operation, set: usize, fuel: usize) -> (r: usize)
    ensures
        r == set_aliases(*op, set as nat, fuel as nat),
    decreases fuel, 0nat,
{
    if fuel == 0 || set >= op.selection_sets.len() {
        return 0;
    }
    let fields = &op.selection_sets[set].fields;
    let mut total: usize = 0;
    let mut i: usize = 0;
    while i < fields.len()
        invariant
            i <= fields.len(),
            total == aliases_among(*op, fields@, i as nat, (fuel - 1) as nat),
        decreases fields.len() - i,
    {
        let f = fields[i].index();
        let own: usize = if f < op.fields.len() && op.fields[f].has_alias {
            1
        } else {
            0
        };
        let nested = match below(op, fields[i]) {
            Some(inner) => alias_count(op, inner, fuel - 1),
            None => 0,
        };
        total = add_capped(total, add_capped(own, nested));
        i = i + 1;
    }
    total
}

/// Measures the complexity of a selection set.
#[verifier::loop_isolation(false)]
pub fn complexity(op: &Operation, set: usize, fuel: usize) -> (r: usize)
    ensures
        r == set_complexity(*op, set as nat, fuel as nat),
    decreases fuel, 0nat,
{
    if fuel == 0 || set >= op.selection_sets.len() {
        return 0;
    }
    let fields = &op.selection_sets[set].fields;
    let mut total: usize = 0;
    let mut i: usize = 0;
    while i < fields.len()
        invariant
            i <= fields.len(),
            total == complexity_among(*op, fields@, i as nat, (fuel - 1) as nat),
        decreases fields.len() - i,
    {
        let nested = match below(op, fields[i]) {
            Some(inner) => complexity(op, inner, fuel - 1),
            None => 0,
        };
        total = add_capped(total, add_capped(1, nested));
        i = i + 1;
    }
    total
}

/// Holds an operation against the limits of a schema.
pub fn enforce_operation_limits(limits: &OperationLimits, operation: &Operation) -> (r: Result<(), OperationLimitExceededError>)
    ensures
        match r {
            Ok(()) => exceeded_limit(*limits, *operation) is None,
            Err(e) => exceeded_limit(*limits, *operation) == Some(e),
        },
{
    let root = operation.root_selection_set_id.index();
    let fuel = add_capped(operation.selection_sets.len(), 1);
    match limits.depth {
        Some(limit) => {
            if max_depth(operation, root, fuel) > limit as usize {
                return Err(OperationLimitExceededError::QueryTooDeep);
            }
        },
        None => {},
    }
    match limits.aliases {
        Some(limit) => {
            if alias_count(operation, root, fuel) > limit as usize {
                return Err(OperationLimitExceededError::QueryContainsTooManyAliases);
            }
        },
        None => {},
    }
    match limits.root_fields {
        Some(limit) => {
            let count = if root < operation.selection_sets.len() {
                operation.selection_sets[root].fields.len()
            } else {
                0
            };
            if count > limit as usize {
                return Err(OperationLimitExceededError::QueryContainsTooManyRootFields);
            }
        },
        None => {},
    }
    match limits.complexity {
        Some(limit) => {
            if complexity(operation, root, fuel) > limit as usize {
                return Err(OperationLimitExceededError::QueryTooComplex);
            }
        },
        None => {},
    }
    Ok(())
}

/// Refuses a query that asks for the schema itself where the schema does
/// not allow that.
#[verifier::loop_isolation(false)]
pub fn ensure_introspection_is_accepted(disabled: bool, operation: &Operation) -> (r: Result<(), Location>)
    ensures
        match r {
            Ok(()) => refused_introspection(disabled, *operation) is None,
            Err(location) => refused_introspection(disabled, *operation) == Some(location),
        },
{
    let is_query = match operation.ty {
        OperationType::Query => true,
        _ => false,
    };
    let root = operation.root_selection_set_id.index();
    if !disabled || !is_query || root >= operation.selection_sets.len() {
        return Ok(());
    }
    let fields = &operation.selection_sets[root].fields;
    let mut i: usize = 0;
    while i < fields.len()
        invariant
            i <= fields.len(),
            introspection_from(*operation, fields@, 0) == introspection_from(*operation, fields@, i as int),
        decreases fields.len() - i,
    {
        let f = fields[i].index();
        if f < operation.fields.len() {
            let name = operation.fields[f].name.as_str();
            if same_text(name, "__schema") || same_text(name, "__type") {
                assert(introspection_from(*operation, fields@, i as int) == i);
                return Err(operation.fields[f].location);
            }
        }
        i = i + 1;
    }
    Ok(())
}

/// Validates an operation against a schema. Both checks have to pass.
pub fn validate_operation(schema: &Schema, operation: &Operation) -> (r: Result<(), ValidationError>)
    ensures
        r == validated(schema.graph_spec().settings.operation_limits, schema.graph_spec().settings.disable_introspection, *operation),
{
    let settings = &schema.graph().settings;
    match enforce_operation_limits(&settings.operation_limits, operation) {
        Ok(()) => {},
        Err(limit) => {
            return Err(ValidationError::OperationLimitExceeded(limit));
        },
    }
    match ensure_introspection_is_accepted(settings.disable_introspection, operation) {
        Ok(()) => Ok(()),
        Err(location) => Err(ValidationError::IntrospectionWhenDisabled { location }),
    }
}

} // verus!
