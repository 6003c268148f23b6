//! Planning a mutation: which rows a node and its relations will be, which
//! rows have to be loaded first, and which writes follow.

use crate::assoc::put;
use crate::delete::MutationError;
use crate::ids::{next_ulid, node_id};
use crate::input::{attribute_of, field_index_from, InputModel, InputValue};
use crate::item::{AttrModel, Item};
use crate::node_types::{is_relation_field, type_index_from, NodeTypeModel, RelationModel};
use crate::row::{PK, SK, TYPE};
use crate::update::{CREATED_AT, UPDATED_AT};
use crate::writes::{SelectedModel, SelectedRow};
use vstd::prelude::*;

verus! {

/// Rows that a mutation looks at before it writes: what a node will be once
/// the mutation is through. A selection is worked out once, however many
/// writes look at it.
#[derive(Debug)]
pub enum Selection {
    /// The row of a node that the mutation creates.
    Projected { row: SelectedRow },
    /// The rows with these keys, loaded from the store.
    Load { keys: Vec<(String, String)> },
    /// The row of a node, loaded from the store, with these fields updated.
    Updated { id: String, fields: Vec<(String, InputValue)> },
    /// The rows of another selection, once the copies of the node have been looked up too.
    Joined { updated: usize, id: String },
    /// No rows.
    Empty,
}

/// The mathematical model of a selection.
pub enum SelectionModel {
    Projected { row: SelectedModel },
    Load { keys: Seq<(Seq<char>, Seq<char>)> },
    Updated { id: Seq<char>, fields: Seq<(Seq<char>, InputModel)> },
    Joined { updated: usize, id: Seq<char> },
    Empty,
}

impl DeepView for Selection {
    type V = SelectionModel;

    open spec fn deep_view(&self) -> SelectionModel {
        match self {
            Selection::Projected { row } => SelectionModel::Projected { row: row@ },
            Selection::Load { keys } => SelectionModel::Load { keys: keys.deep_view() },
            Selection::Updated { id, fields } => SelectionModel::Updated { id: id@, fields: fields.deep_view() },
            Selection::Joined { updated, id } => SelectionModel::Joined { updated: *updated, id: id@ },
            Selection::Empty => SelectionModel::Empty,
        }
    }
}

impl View for Selection {
    type V = SelectionModel;

    open spec fn view(&self) -> SelectionModel {
        self.deep_view()
    }
}

/// A write that a mutation makes once its selections are there. Selections
/// are named by their position in the plan.
#[derive(Debug)]
pub enum Transaction {
    /// The row of a new node.
    PutNode { id: String, item: Item },
    /// One side of a relation: the first row of `described`, copied into the
    /// partition of the first row of `owner`, under the relation of type `to_ty`.
    RelationNode { to_ty: String, described: usize, owner: usize, relation_name: String },
    /// Both sides of the relation between the rows of `from` and the node `to` leave.
    RelationRemove { from: usize, to: String, relation_name: String },
    /// The plain fields of a node change, on the node and on each of its copies.
    UpdateNode { id: String, basic: Vec<(String, InputValue)> },
}

/// The mathematical model of a planned write.
pub enum TransactionModel {
    PutNode { id: Seq<char>, item: Seq<(Seq<char>, AttrModel)> },
    RelationNode { to_ty: Seq<char>, described: usize, owner: usize, relation_name: Seq<char> },
    RelationRemove { from: usize, to: Seq<char>, relation_name: Seq<char> },
    UpdateNode { id: Seq<char>, basic: Seq<(Seq<char>, InputModel)> },
}

impl DeepView for Transaction {
    type V = TransactionModel;

    open spec fn deep_view(&self) -> TransactionModel {
        match self {
            Transaction::PutNode { id, item } => TransactionModel::PutNode { id: id@, item: item@ },
            Transaction::RelationNode { to_ty, described, owner, relation_name } => TransactionModel::RelationNode {
                to_ty: to_ty@,
                described: *described,
                owner: *owner,
                relation_name: relation_name@,
            },
            Transaction::RelationRemove { from, to, relation_name } => TransactionModel::RelationRemove {
                from: *from,
                to: to@,
                relation_name: relation_name@,
            },
            Transaction::UpdateNode { id, basic } => TransactionModel::UpdateNode { id: id@, basic: basic.deep_view() },
        }
    }
}

impl View for Transaction {
    type V = TransactionModel;

    open spec fn view(&self) -> TransactionModel {
        self.deep_view()
    }
}

/// What the handling of one node or relation comes to: the selection that
/// shows the node, and the writes, in the order in which they were planned.
#[derive(Debug)]
pub struct RecursiveCreation {
    pub selection: usize,
    pub transaction: Vec<Transaction>,
}

/// The mathematical model of a node's or relation's handling.
pub struct CreationModel {
    pub selection: usize,
    pub transaction: Seq<TransactionModel>,
}

impl DeepView for RecursiveCreation {
    type V = CreationModel;

    open spec fn deep_view(&self) -> CreationModel {
        CreationModel { selection: self.selection, transaction: self.transaction.deep_view() }
    }
}

impl View for RecursiveCreation {
    type V = CreationModel;

    open spec fn view(&self) -> CreationModel {
        self.deep_view()
    }
}

/// The state of a plan while it is made: the selections so far, the ULID of
/// the next node to create, if there is room for one, and what the user has
/// to be told.
#[derive(Debug)]
pub struct MutationPlan {
    pub selections: Vec<Selection>,
    pub next_ulid: Option<u128>,
    pub errors: Vec<String>,
}

/// The mathematical model of a plan.
pub struct PlanModel {
    pub selections: Seq<SelectionModel>,
    pub next_ulid: Option<u128>,
    pub errors: Seq<Seq<char>>,
}

impl DeepView for MutationPlan {
    type V = PlanModel;

    open spec fn deep_view(&self) -> PlanModel {
        PlanModel { selections: self.selections.deep_view(), next_ulid: self.next_ulid, errors: self.errors.deep_view() }
    }
}

impl View for MutationPlan {
    type V = PlanModel;

    open spec fn view(&self) -> PlanModel {
        self.deep_view()
    }
}

/// The message for an `unlink` that names no node.
pub const UNLINK_NULL: &'static str = "If you fill an unlink value it shouldn't be null";

/// An item with the first `n` fields of an input that are no relation fields.
pub open spec fn with_plain_fields(
    item: Seq<(Seq<char>, AttrModel)>,
    relations: Seq<RelationModel>,
    input: Seq<(Seq<char>, InputModel)>,
    n: nat,
) -> Seq<(Seq<char>, AttrModel)>
    decreases n,
{
    if n == 0 {
        item
    } else if is_relation_field(relations, input[n - 1].0) {
        with_plain_fields(item, relations, input, (n - 1) as nat)
    } else {
        put(with_plain_fields(item, relations, input, (n - 1) as nat), input[n - 1].0, attribute_of(input[n - 1].1))
    }
}

/// The first `n` fields of an input that are no relation fields.
pub open spec fn plain_fields(relations: Seq<RelationModel>, input: Seq<(Seq<char>, InputModel)>, n: nat) -> Seq<(Seq<char>, InputModel)>
    decreases n,
{
    if n == 0 {
        Seq::empty()
    } else if is_relation_field(relations, input[n - 1].0) {
        plain_fields(relations, input, (n - 1) as nat)
    } else {
        plain_fields(relations, input, (n - 1) as nat).push(input[n - 1])
    }
}

/// The row of a new node: the plain fields of the input, then the keys, the
/// type, the two times and the keys of the two indexes.
pub open spec fn created_item(ty: NodeTypeModel, id: Seq<char>, now: Seq<char>, input: Seq<(Seq<char>, InputModel)>) -> Seq<(Seq<char>, AttrModel)> {
    let plain = with_plain_fields(Seq::empty(), ty.relations, input, input.len());
    let keyed = put(put(put(plain, PK@, AttrModel::S(id)), SK@, AttrModel::S(id)), TYPE@, AttrModel::S(ty.name));
    let timed = put(put(keyed, CREATED_AT@, AttrModel::S(now)), UPDATED_AT@, AttrModel::S(now));
    put(
        put(put(put(timed, "__gsi1pk"@, AttrModel::S(ty.name)), "__gsi1sk"@, AttrModel::S(id)), "__gsi2pk"@, AttrModel::S(id)),
        "__gsi2sk"@,
        AttrModel::S(id),
    )
}

/// The keys that name the nodes to link or unlink: a text names one node, a
/// list of texts names each of them; anything else names none. A list with an
/// element that is no text is an error.
pub open spec fn named_keys(value: InputModel) -> Result<Option<Seq<(Seq<char>, Seq<char>)>>, MutationError> {
    match value {
        InputModel::Text(id) => Ok(Some(seq![(id, id)])),
        InputModel::List(items) => if forall|i: int| 0 <= i < items.len() ==> (#[trigger] items[i]) is Text {
            Ok(Some(Seq::new(items.len(), |i: int| (items[i]->Text_0, items[i]->Text_0))))
        } else {
            Err(MutationError::NotAnIdentifier)
        },
        _ => Ok(None),
    }
}

/// The writes that unlink each of the named nodes from the rows of a selection.
pub open spec fn unlink_writes(keys: Seq<(Seq<char>, Seq<char>)>, from: usize, relation_name: Seq<char>) -> Seq<TransactionModel> {
    Seq::new(keys.len(), |i: int| TransactionModel::RelationRemove { from, to: keys[i].0, relation_name })
}

/// The two writes that store a relation between two selections: the side of
/// the parent's type, which describes the child in the parent's partition,
/// and the side of the child's type, which describes the parent in the child's.
pub open spec fn link_writes(parent_ty: Seq<char>, child_ty: Seq<char>, parent: usize, child: usize, relation_name: Seq<char>) -> Seq<TransactionModel> {
    seq![
        TransactionModel::RelationNode { to_ty: parent_ty, described: child, owner: parent, relation_name },
        TransactionModel::RelationNode { to_ty: child_ty, described: parent, owner: child, relation_name },
    ]
}

/// A plan with one more selection.
pub open spec fn with_selection(plan: PlanModel, selection: SelectionModel) -> PlanModel {
    PlanModel { selections: plan.selections.push(selection), ..plan }
}

/// The plan for the creation of a node of type `types[t]` from an input:
/// the node takes the next ULID of the plan, its projection becomes a
/// selection, its relation fields are handled in the order of their
/// declaration, and the write of the node's own row comes last.
pub open spec fn node_created(
    types: Seq<NodeTypeModel>,
    t: int,
    now: Seq<char>,
    input: Seq<(Seq<char>, InputModel)>,
    plan: PlanModel,
) -> Result<(PlanModel, CreationModel), MutationError>
    decreases input, 3nat, 0nat,
{
    match plan.next_ulid {
        None => Err(MutationError::IdentifiersExhausted),
        Some(ulid) => {
            let id = node_id(types[t].name, ulid);
            let item = created_item(types[t], id, now, input);
            let selection = plan.selections.len() as usize;
            let started = PlanModel {
                selections: plan.selections.push(SelectionModel::Projected { row: SelectedModel { pk: id, sk: id, item } }),
                next_ulid: next_ulid(ulid),
                errors: plan.errors,
            };
            match relations_handled(types, t, selection, now, input, started, types[t].relations.len()) {
                Err(e) => Err(e),
                Ok((done, writes)) => Ok(
                    (done, CreationModel { selection, transaction: writes.push(TransactionModel::PutNode { id, item }) }),
                ),
            }
        },
    }
}

/// The plan for the first `n` relation fields of a type: the writes of all
/// of them, field by field.
pub open spec fn relations_handled(
    types: Seq<NodeTypeModel>,
    t: int,
    parent: usize,
    now: Seq<char>,
    input: Seq<(Seq<char>, InputModel)>,
    plan: PlanModel,
    n: nat,
) -> Result<(PlanModel, Seq<TransactionModel>), MutationError>
    decreases input, 2nat, n,
{
    if n == 0 {
        Ok((plan, Seq::empty()))
    } else {
        match relations_handled(types, t, parent, now, input, plan, (n - 1) as nat) {
            Err(e) => Err(e),
            Ok((before, writes)) => match relation_handled(types, t, parent, types[t].relations[n - 1], now, input, before) {
                Err(e) => Err(e),
                Ok((after, creations)) => Ok((after, writes + all_transactions(creations, creations.len()))),
            },
        }
    }
}

/// The writes of the first `n` handlings, one after the other.
pub open spec fn all_transactions(creations: Seq<CreationModel>, n: nat) -> Seq<TransactionModel>
    decreases n,
{
    if n == 0 {
        Seq::empty()
    } else {
        all_transactions(creations, (n - 1) as nat) + creations[n - 1].transaction
    }
}

/// The plan for one relation field: what the input says under the field's
/// name is handled object by object; without such an input nothing is planned.
pub open spec fn relation_handled(
    types: Seq<NodeTypeModel>,
    t: int,
    parent: usize,
    relation: RelationModel,
    now: Seq<char>,
    input: Seq<(Seq<char>, InputModel)>,
    plan: PlanModel,
) -> Result<(PlanModel, Seq<CreationModel>), MutationError>
    decreases input, 1nat, 0nat,
{
    let i = field_index_from(input, relation.field, 0);
    if 0 <= i < input.len() {
        value_handled(types, t, parent, relation, now, input[i].1, plan)
    } else {
        Ok((plan, Seq::empty()))
    }
}

/// The plan for a value under a relation field: an object is one child, a
/// list holds the children of its elements in their order, and any other
/// value holds none.
pub open spec fn value_handled(
    types: Seq<NodeTypeModel>,
    t: int,
    parent: usize,
    relation: RelationModel,
    now: Seq<char>,
    value: InputModel,
    plan: PlanModel,
) -> Result<(PlanModel, Seq<CreationModel>), MutationError>
    decreases value, 1nat, 0nat,
{
    match value {
        InputModel::Object(child) => match child_handled(types, t, parent, relation, now, child, plan) {
            Err(e) => Err(e),
            Ok((after, creation)) => Ok((after, seq![creation])),
        },
        InputModel::List(items) => items_handled(types, t, parent, relation, now, items, plan, items.len()),
        _ => Ok((plan, Seq::empty())),
    }
}

/// The plan for the first `n` elements of a list under a relation field.
pub open spec fn items_handled(
    types: Seq<NodeTypeModel>,
    t: int,
    parent: usize,
    relation: RelationModel,
    now: Seq<char>,
    items: Seq<InputModel>,
    plan: PlanModel,
    n: nat,
) -> Result<(PlanModel, Seq<CreationModel>), MutationError>
    decreases items, 0nat, n,
{
    if n == 0 || n > items.len() {
        Ok((plan, Seq::empty()))
    } else {
        match items_handled(types, t, parent, relation, now, items, plan, (n - 1) as nat) {
            Err(e) => Err(e),
            Ok((before, creations)) => match value_handled(types, t, parent, relation, now, items[n - 1], before) {
                Err(e) => Err(e),
                Ok((after, more)) => Ok((after, creations + more)),
            },
        }
    }
}

/// The plan for one child of a relation. With `create` alone the child is
/// created and linked on both sides. With `link` alone the named nodes are
/// loaded and linked on both sides. With `unlink` alone the named nodes are
/// loaded and each is unlinked on both sides; an `unlink` that names no node
/// is reported and plans nothing. Anything else plans nothing.
pub open spec fn child_handled(
    types: Seq<NodeTypeModel>,
    t: int,
    parent: usize,
    relation: RelationModel,
    now: Seq<char>,
    child: Seq<(Seq<char>, InputModel)>,
    plan: PlanModel,
) -> Result<(PlanModel, CreationModel), MutationError>
    decreases child, 0nat, 0nat,
{
    let create = field_index_from(child, "create"@, 0);
    let link = field_index_from(child, "link"@, 0);
    let unlink = field_index_from(child, "unlink"@, 0);
    let c = type_index_from(types, relation.target, 0);
    let fresh = plan.selections.len() as usize;
    if 0 <= create < child.len() && child[create].1 is Object && link >= child.len() && unlink >= child.len() {
        match node_created(types, c, now, child[create].1->Object_0, plan) {
            Err(e) => Err(e),
            Ok((after, creation)) => Ok(
                (
                    after,
                    CreationModel {
                        selection: creation.selection,
                        transaction: creation.transaction + link_writes(types[t].name, types[c].name, parent, creation.selection, relation.name),
                    },
                ),
            ),
        }
    } else if create >= child.len() && 0 <= link < child.len() && unlink >= child.len() {
        match named_keys(child[link].1) {
            Err(e) => Err(e),
            Ok(Some(keys)) => Ok(
                (
                    with_selection(plan, SelectionModel::Load { keys }),
                    CreationModel { selection: fresh, transaction: link_writes(types[t].name, types[c].name, parent, fresh, relation.name) },
                ),
            ),
            Ok(None) => Ok(
                (
                    with_selection(plan, SelectionModel::Empty),
                    CreationModel { selection: fresh, transaction: link_writes(types[t].name, types[c].name, parent, fresh, relation.name) },
                ),
            ),
        }
    } else if create >= child.len() && link >= child.len() && 0 <= unlink < child.len() {
        match named_keys(child[unlink].1) {
            Err(e) => Err(e),
            Ok(Some(keys)) => Ok(
                (
                    with_selection(plan, SelectionModel::Load { keys }),
                    CreationModel { selection: fresh, transaction: unlink_writes(keys, parent, relation.name) },
                ),
            ),
            Ok(None) => Ok(
                (
                    PlanModel {
                        selections: plan.selections.push(SelectionModel::Empty),
                        next_ulid: plan.next_ulid,
                        errors: plan.errors.push(UNLINK_NULL@),
                    },
                    CreationModel { selection: fresh, transaction: Seq::empty() },
                ),
            ),
        }
    } else {
        Ok((with_selection(plan, SelectionModel::Empty), CreationModel { selection: fresh, transaction: Seq::empty() }))
    }
}

/// The plan for the update of the node `id` of type `types[t]`: the
/// projection of the updated row becomes a selection, the relation fields
/// are handled as in a creation, the write of the plain fields comes last,
/// and the selection of the whole update waits for the node's copies too.
pub open spec fn node_updated(
    types: Seq<NodeTypeModel>,
    t: int,
    now: Seq<char>,
    input: Seq<(Seq<char>, InputModel)>,
    id: Seq<char>,
    plan: PlanModel,
) -> Result<(PlanModel, CreationModel), MutationError> {
    let basic = plain_fields(types[t].relations, input, input.len());
    let updated = plan.selections.len() as usize;
    let started = with_selection(plan, SelectionModel::Updated { id, fields: basic });
    match relations_handled(types, t, updated, now, input, started, types[t].relations.len()) {
        Err(e) => Err(e),
        Ok((done, writes)) => Ok(
            (
                with_selection(done, SelectionModel::Joined { updated, id }),
                CreationModel {
                    selection: done.selections.len() as usize,
                    transaction: writes.push(TransactionModel::UpdateNode { id, basic }),
                },
            ),
        ),
    }
}

} // verus!
