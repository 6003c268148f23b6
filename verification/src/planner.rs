//! The planner: makes the plan of a creation or an update from its input.

use crate::delete::MutationError;
use crate::ids::{make_node_id, ulid_increment};
use crate::input::{field_index_from, get_field, lemma_variants, InputModel, InputValue};
use crate::item::{AttrValue, Item};
use crate::mutation::{
    all_transactions, child_handled, created_item, link_writes, named_keys, node_created, node_updated, plain_fields, relation_handled,
    relations_handled, unlink_writes, with_plain_fields, with_selection, CreationModel, MutationPlan, PlanModel, RecursiveCreation, Selection,
    Transaction, TransactionModel, UNLINK_NULL,
};
use crate::node_types::{catalog_closed, find_type, NodeType, NodeTypeModel};
use crate::row::{PK, SK, TYPE};
use crate::text::reversed;
use crate::update::{CREATED_AT, UPDATED_AT};
use crate::writes::SelectedRow;
use vstd::prelude::*;

verus! {

pub(crate) proof fn lemma_field_index(fields: Seq<(Seq<char>, InputModel)>, key: Seq<char>, from: int)
    requires
        0 <= from <= fields.len(),
    ensures
        from <= field_index_from(fields, key, from) <= fields.len(),
        field_index_from(fields, key, from) < fields.len() ==> fields[field_index_from(fields, key, from)].0 == key,
    decreases fields.len() - from,
{
    if from < fields.len() && fields[from].0 != key {
        lemma_field_index(fields, key, from + 1);
    }
}

/// Once the handling of a relation field fails, the handling of all fields fails the same way.
pub proof fn lemma_relations_error(
    types: Seq<NodeTypeModel>,
    t: int,
    parent: usize,
    now: Seq<char>,
    input: Seq<(Seq<char>, InputModel)>,
    plan: PlanModel,
    k: nat,
    n: nat,
)
    requires
        k <= n,
        relations_handled(types, t, parent, now, input, plan, k) is Err,
    ensures
        relations_handled(types, t, parent, now, input, plan, n) == relations_handled(types, t, parent, now, input, plan, k),
    decreases n,
{
    if k < n {
        lemma_relations_error(types, t, parent, now, input, plan, k, (n - 1) as nat);
    }
}

impl MutationPlan {
    /// An empty plan whose first new node takes the execution's own ULID.
    pub fn new(execution_id: u128) -> (r: MutationPlan)
        ensures
            r@ == (PlanModel { selections: Seq::empty(), next_ulid: Some(execution_id), errors: Seq::empty() }),
    {
        let selections: Vec<Selection> = Vec::new();
        let errors: Vec<String> = Vec::new();
        assert(selections.deep_view() =~= Seq::empty());
        assert(errors.deep_view() =~= Seq::empty());
        MutationPlan { selections, next_ulid: Some(execution_id), errors }
    }

    /// Adds a selection and returns its position.
    pub fn add_selection(&mut self, selection: Selection) -> (position: usize)
        ensures
            final(self)@ == with_selection(old(self)@, selection@),
            position == old(self)@.selections.len(),
    {
        let position = self.selections.len();
        let ghost before = self.selections.deep_view();
        let ghost model = selection@;
        self.selections.push(selection);
        assert(self.selections.deep_view() =~= before.push(model));
        position
    }
}

/// Stores the plain fields of an input in an item, each under its name.
fn store_plain_fields(item: &mut Item, ty: &NodeType, input: &Vec<(String, InputValue)>)
    ensures
        final(item)@ == with_plain_fields(old(item)@, ty@.relations, input.deep_view(), input.len() as nat),
{
    let mut i: usize = 0;
    while i < input.len()
        invariant
            i <= input.len(),
            item@ == with_plain_fields(old(item)@, ty@.relations, input.deep_view(), i as nat),
        decreases input.len() - i,
    {
        assert(input.deep_view()[i as int] == (input[i as int].0@, input[i as int].1@));
        if !ty.is_relation_field(input[i].0.as_str()) {
            item.insert(input[i].0.clone(), input[i].1.to_attribute());
        }
        i = i + 1;
    }
}

/// The plain fields of an input, in their order.
fn copy_plain_fields(ty: &NodeType, input: &Vec<(String, InputValue)>) -> (r: Vec<(String, InputValue)>)
    ensures
        r.deep_view() == plain_fields(ty@.relations, input.deep_view(), input.len() as nat),
{
    let mut out: Vec<(String, InputValue)> = Vec::new();
    assert(out.deep_view() =~= Seq::empty());
    let mut i: usize = 0;
    while i < input.len()
        invariant
            i <= input.len(),
            out.deep_view() == plain_fields(ty@.relations, input.deep_view(), i as nat),
        decreases input.len() - i,
    {
        assert(input.deep_view()[i as int] == (input[i as int].0@, input[i as int].1@));
        if !ty.is_relation_field(input[i].0.as_str()) {
            let ghost before = out.deep_view();
            out.push((input[i].0.clone(), input[i].1.duplicate()));
            assert(out.deep_view() =~= before.push(input.deep_view()[i as int]));
        }
        i = i + 1;
    }
    out
}

/// Builds the row of a new node.
pub fn build_created_item(ty: &NodeType, id: &str, now: &str, input: &Vec<(String, InputValue)>) -> (r: Item)
    ensures
        r@ == created_item(ty@, id@, now@, input.deep_view()),
{
    let mut item = Item::new();
    store_plain_fields(&mut item, ty, input);
    item.insert(PK.to_owned(), AttrValue::string(id));
    item.insert(SK.to_owned(), AttrValue::string(id));
    item.insert(TYPE.to_owned(), AttrValue::S(ty.name.clone()));
    item.insert(CREATED_AT.to_owned(), AttrValue::string(now));
    item.insert(UPDATED_AT.to_owned(), AttrValue::string(now));
    item.insert("__gsi1pk".to_owned(), AttrValue::S(ty.name.clone()));
    item.insert("__gsi1sk".to_owned(), AttrValue::string(id));
    item.insert("__gsi2pk".to_owned(), AttrValue::string(id));
    item.insert("__gsi2sk".to_owned(), AttrValue::string(id));
    item
}

/// Reads the keys that name the nodes to link or unlink.
pub fn link_keys(value: &InputValue) -> (r: Result<Option<Vec<(String, String)>>, MutationError>)
    ensures
        match r {
            Ok(keys) => named_keys(value@) == Ok::<Option<Seq<(Seq<char>, Seq<char>)>>, MutationError>(keys.deep_view()),
            Err(e) => named_keys(value@) == Err::<Option<Seq<(Seq<char>, Seq<char>)>>, MutationError>(e),
        },
{
    match value {
        InputValue::Text(id) => {
            let mut keys: Vec<(String, String)> = Vec::new();
            keys.push((id.clone(), id.clone()));
            assert(keys.deep_view() =~= seq![(id@, id@)]);
            proof {
                lemma_variants(*value);
            }
            Ok(Some(keys))
        },
        InputValue::List(items) => {
            let mut keys: Vec<(String, String)> = Vec::new();
            let mut i: usize = 0;
            while i < items.len()
                invariant
                    i <= items.len(),
                    *value == InputValue::List(*items),
                    keys.len() == i,
                    forall|j: int| 0 <= j < i ==> (#[trigger] items[j]@) is Text && keys[j].0@ == items[j]@->Text_0 && keys[j].1@ == items[j]@->Text_0,
                decreases items.len() - i,
            {
                proof {
                    lemma_variants(items[i as int]);
                    lemma_variants(*value);
                }
                match &items[i] {
                    InputValue::Text(id) => {
                        keys.push((id.clone(), id.clone()));
                    },
                    _ => {
                        assert(value@->List_0[i as int] == items[i as int]@);
                        return Err(MutationError::NotAnIdentifier);
                    },
                }
                i = i + 1;
            }
            proof {
                lemma_variants(*value);
                let models = value@->List_0;
                assert forall|j: int| 0 <= j < models.len() implies (#[trigger] models[j]) is Text by {
                    assert(items[j]@ is Text);
                    assert(models[j] == items[j]@);
                }
                assert(keys.deep_view() =~= Seq::new(models.len(), |j: int| (models[j]->Text_0, models[j]->Text_0))) by {
                    assert forall|j: int| 0 <= j < models.len() implies keys.deep_view()[j] == (models[j]->Text_0, models[j]->Text_0) by {
                        assert(items[j]@ is Text);
                        assert(models[j] == items[j]@);
                    }
                }
            }
            Ok(Some(keys))
        },
        _ => {
            proof {
                lemma_variants(*value);
            }
            Ok(None)
        },
    }
}

/// The two writes that store a relation between two selections.
fn push_link_writes(transactions: &mut Vec<Transaction>, parent_ty: &str, child_ty: &str, parent: usize, child: usize, relation_name: &str)
    ensures
        final(transactions).deep_view() == old(transactions).deep_view() + link_writes(parent_ty@, child_ty@, parent, child, relation_name@),
{
    let ghost before = transactions.deep_view();
    transactions.push(
        Transaction::RelationNode { to_ty: parent_ty.to_owned(), described: child, owner: parent, relation_name: relation_name.to_owned() },
    );
    transactions.push(
        Transaction::RelationNode { to_ty: child_ty.to_owned(), described: parent, owner: child, relation_name: relation_name.to_owned() },
    );
    assert(transactions.deep_view() =~= before + link_writes(parent_ty@, child_ty@, parent, child, relation_name@));
}

/// Moves the writes of some handlings behind the writes that are there.
fn append_transactions(transactions: &mut Vec<Transaction>, creations: Vec<RecursiveCreation>)
    ensures
        final(transactions).deep_view() == old(transactions).deep_view() + all_transactions(creations.deep_view(), creations.len() as nat),
{
    let ghost start = transactions.deep_view();
    let ghost all = creations.deep_view();
    assert(all.len() == creations.len());
    let mut pending = reversed(creations);
    let mut taken: usize = 0;
    assert(transactions.deep_view() =~= start + all_transactions(all, 0));
    while pending.len() > 0
        invariant
            all.len() <= usize::MAX,
            taken + pending.len() == all.len(),
            forall|j: int| 0 <= j < pending.len() ==> pending[j]@ == all[all.len() - 1 - j],
            transactions.deep_view() == start + all_transactions(all, taken as nat),
        decreases pending.len(),
    {
        let creation = pending.pop().unwrap();
        assert(creation@ == all[taken as int]);
        let RecursiveCreation { selection, transaction } = creation;
        let mut transaction = transaction;
        let ghost before = transactions.deep_view();
        let ghost added = transaction.deep_view();
        transactions.append(&mut transaction);
        assert(transactions.deep_view() =~= before + added);
        assert(start + all_transactions(all, (taken + 1) as nat) =~= before + added);
        taken = taken + 1;
    }
}

/// Plans the creation of a node of type `types[t]` and of what its input
/// says of its relations.
#[verifier::loop_isolation(false)]
pub fn node_create(plan: &mut MutationPlan, types: &Vec<NodeType>, t: usize, now: &str, input: &Vec<(String, InputValue)>) -> (r: Result<
    RecursiveCreation,
    MutationError,
>)
    requires
        t < types.len(),
        catalog_closed(types.deep_view()),
    ensures
        match r {
            Ok(creation) => node_created(types.deep_view(), t as int, now@, input.deep_view(), old(plan)@) == Ok::<
                (PlanModel, CreationModel),
                MutationError,
            >((final(plan)@, creation@)),
            Err(e) => node_created(types.deep_view(), t as int, now@, input.deep_view(), old(plan)@) == Err::<
                (PlanModel, CreationModel),
                MutationError,
            >(e),
        },
    decreases input, 3nat, 0nat,
{
    let ulid = match plan.next_ulid {
        Some(ulid) => ulid,
        None => {
            return Err(MutationError::IdentifiersExhausted);
        },
    };
    let ty = &types[t];
    assert(types.deep_view()[t as int] == ty@);
    let id = make_node_id(ty.name.as_str(), ulid);
    let item = build_created_item(ty, id.as_str(), now, input);
    let selection = plan.add_selection(Selection::Projected { row: SelectedRow { pk: id.clone(), sk: id.clone(), item: item.duplicate() } });
    plan.next_ulid = ulid_increment(ulid);
    let ghost started = plan@;
    let mut transactions: Vec<Transaction> = Vec::new();
    assert(transactions.deep_view() =~= Seq::empty());
    let mut k: usize = 0;
    while k < ty.relations.len()
        invariant
            k <= ty.relations.len(),
            relations_handled(types.deep_view(), t as int, selection, now@, input.deep_view(), started, k as nat) == Ok::<
                (PlanModel, Seq<TransactionModel>),
                MutationError,
            >((plan@, transactions.deep_view())),
        decreases ty.relations.len() - k,
    {
        match relation_handle(plan, types, t, selection, k, now, input) {
            Ok(creations) => {
                append_transactions(&mut transactions, creations);
            },
            Err(e) => {
                proof {
                    lemma_relations_error(
                        types.deep_view(),
                        t as int,
                        selection,
                        now@,
                        input.deep_view(),
                        started,
                        (k + 1) as nat,
                        ty.relations.len() as nat,
                    );
                }
                return Err(e);
            },
        }
        k = k + 1;
    }
    let ghost before = transactions.deep_view();
    transactions.push(Transaction::PutNode { id, item });
    assert(transactions.deep_view() =~= before.push(TransactionModel::PutNode { id: id@, item: item@ }));
    Ok(RecursiveCreation { selection, transaction: transactions })
}

/// Plans what an input says of one relation field of a node: the relation
/// `types[t].relations[k]` of the node whose projection is the selection
/// `parent`. The objects that the input holds under the field are handled
/// one after the other.
#[verifier::loop_isolation(false)]
pub fn relation_handle(
    plan: &mut MutationPlan,
    types: &Vec<NodeType>,
    t: usize,
    parent: usize,
    k: usize,
    now: &str,
    input: &Vec<(String, InputValue)>,
) -> (r: Result<Vec<RecursiveCreation>, MutationError>)
    requires
        t < types.len(),
        k < types[t as int].relations.len(),
        catalog_closed(types.deep_view()),
    ensures
        match r {
            Ok(creations) => relation_handled(
                types.deep_view(),
                t as int,
                parent,
                types.deep_view()[t as int].relations[k as int],
                now@,
                input.deep_view(),
                old(plan)@,
            ) == Ok::<(PlanModel, Seq<CreationModel>), MutationError>((final(plan)@, creations.deep_view())),
            Err(e) => relation_handled(
                types.deep_view(),
                t as int,
                parent,
                types.deep_view()[t as int].relations[k as int],
                now@,
                input.deep_view(),
                old(plan)@,
            ) == Err::<(PlanModel, Seq<CreationModel>), MutationError>(e),
        },
    decreases input, 1nat, 0nat,
{
    let relation = &types[t].relations[k];
    let ghost model = types.deep_view()[t as int].relations[k as int];
    assert(model == relation@);
    let ghost start = plan@;
    proof {
        lemma_field_index(input.deep_view(), relation.field@, 0);
    }
    let mut result: Vec<RecursiveCreation> = Vec::new();
    assert(result.deep_view() =~= Seq::empty());
    let value = match get_field(input, relation.field.as_str()) {
        Some(value) => value,
        None => {
            return Ok(result);
        },
    };
    proof {
        let i = choose|i: int| 0 <= i < input.len() && input[i].1 == *value;
        assert(decreases_to!(input => input[i]));
        assert(decreases_to!(input[i] => input[i].1));
        crate::relation_laws::lemma_value_is_its_objects(types.deep_view(), t as int, parent, model, now@, value@, start);
    }
    let child_input = match inputs(value) {
        Some(found) => found,
        None => {
            return Ok(result);
        },
    };
    let ghost children = child_input.deep_view();
    let mut i: usize = 0;
    while i < child_input.len()
        invariant
            i <= child_input.len(),
            crate::relation_laws::objects_handled(types.deep_view(), t as int, parent, model, now@, children, start, i as nat) == Ok::<
                (PlanModel, Seq<CreationModel>),
                MutationError,
            >((plan@, result.deep_view())),
        decreases child_input.len() - i,
    {
        assert(children[i as int] == child_input[i as int].deep_view());
        assert(decreases_to!(value => child_input[i as int]));
        match child_handle(plan, types, t, parent, k, now, child_input[i]) {
            Ok(creation) => {
                let ghost before = result.deep_view();
                let ghost added = creation@;
                result.push(creation);
                assert(result.deep_view() =~= before.push(added));
            },
            Err(e) => {
                proof {
                    crate::relation_laws::lemma_objects_error(
                        types.deep_view(),
                        t as int,
                        parent,
                        model,
                        now@,
                        children,
                        start,
                        (i + 1) as nat,
                        children.len(),
                    );
                }
                return Err(e);
            },
        }
        i = i + 1;
    }
    Ok(result)
}

/// Plans one child of a relation: its creation, its linking or its unlinking.
pub fn child_handle(
    plan: &mut MutationPlan,
    types: &Vec<NodeType>,
    t: usize,
    parent: usize,
    k: usize,
    now: &str,
    child: &Vec<(String, InputValue)>,
) -> (r: Result<RecursiveCreation, MutationError>)
    requires
        t < types.len(),
        k < types[t as int].relations.len(),
        catalog_closed(types.deep_view()),
    ensures
        match r {
            Ok(creation) => child_handled(
                types.deep_view(),
                t as int,
                parent,
                types.deep_view()[t as int].relations[k as int],
                now@,
                child.deep_view(),
                old(plan)@,
            ) == Ok::<(PlanModel, CreationModel), MutationError>((final(plan)@, creation@)),
            Err(e) => child_handled(
                types.deep_view(),
                t as int,
                parent,
                types.deep_view()[t as int].relations[k as int],
                now@,
                child.deep_view(),
                old(plan)@,
            ) == Err::<(PlanModel, CreationModel), MutationError>(e),
        },
    decreases child, 0nat, 0nat,
{
    let parent_ty = &types[t];
    let relation = &parent_ty.relations[k];
    assert(types.deep_view()[t as int] == parent_ty@);
    assert(types.deep_view()[t as int].relations[k as int] == relation@);
    let c = find_type(types, relation.target.as_str());
    assert(c < types.len());
    let child_ty = &types[c];
    assert(types.deep_view()[c as int] == child_ty@);
    proof {
        lemma_field_index(child.deep_view(), "create"@, 0);
        lemma_field_index(child.deep_view(), "link"@, 0);
        lemma_field_index(child.deep_view(), "unlink"@, 0);
    }
    let create = get_field(child, "create");
    let link = get_field(child, "link");
    let unlink = get_field(child, "unlink");
    proof {
        if create is Some {
            lemma_variants(*create->Some_0);
        }
    }
    match (create, link, unlink) {
        (Some(InputValue::Object(creation_input)), None, None) => {
            proof {
                let value = create->Some_0;
                let i = choose|i: int| 0 <= i < child.len() && child[i].1 == *value;
                assert(decreases_to!(child => child[i]));
                assert(decreases_to!(child[i] => child[i].1));
                assert(decreases_to!(value => value->Object_0));
            }
            match node_create(plan, types, c, now, creation_input) {
                Ok(creation) => {
                    let RecursiveCreation { selection, transaction } = creation;
                    let mut transaction = transaction;
                    push_link_writes(&mut transaction, parent_ty.name.as_str(), child_ty.name.as_str(), parent, selection, relation.name.as_str());
                    Ok(RecursiveCreation { selection, transaction })
                },
                Err(e) => Err(e),
            }
        },
        (None, Some(linking_input), None) => {
            let keys = match link_keys(linking_input) {
                Ok(keys) => keys,
                Err(e) => {
                    return Err(e);
                },
            };
            let selection = match keys {
                Some(keys) => plan.add_selection(Selection::Load { keys }),
                None => plan.add_selection(Selection::Empty),
            };
            let mut transaction: Vec<Transaction> = Vec::new();
            assert(transaction.deep_view() =~= Seq::empty());
            push_link_writes(&mut transaction, parent_ty.name.as_str(), child_ty.name.as_str(), parent, selection, relation.name.as_str());
            assert(transaction.deep_view() =~= link_writes(parent_ty@.name, child_ty@.name, parent, selection, relation@.name));
            Ok(RecursiveCreation { selection, transaction })
        },
        (None, None, Some(unlinking_input)) => {
            let keys = match link_keys(unlinking_input) {
                Ok(keys) => keys,
                Err(e) => {
                    return Err(e);
                },
            };
            match keys {
                Some(keys) => {
                    let mut transaction: Vec<Transaction> = Vec::new();
                    let mut i: usize = 0;
                    while i < keys.len()
                        invariant
                            i <= keys.len(),
                            transaction.len() == i,
                            forall|j: int| 0 <= j < i ==> transaction[j]@ == unlink_writes(keys.deep_view(), parent, relation@.name)[j],
                        decreases keys.len() - i,
                    {
                        assert(keys.deep_view()[i as int] == (keys[i as int].0@, keys[i as int].1@));
                        transaction.push(Transaction::RelationRemove { from: parent, to: keys[i].0.clone(), relation_name: relation.name.clone() });
                        i = i + 1;
                    }
                    assert(transaction.deep_view() =~= unlink_writes(keys.deep_view(), parent, relation@.name));
                    let selection = plan.add_selection(Selection::Load { keys });
                    Ok(RecursiveCreation { selection, transaction })
                },
                None => {
                    let ghost before = plan.errors.deep_view();
                    plan.errors.push(UNLINK_NULL.to_owned());
                    assert(plan.errors.deep_view() =~= before.push(UNLINK_NULL@));
                    let selection = plan.add_selection(Selection::Empty);
                    let transaction: Vec<Transaction> = Vec::new();
                    assert(transaction.deep_view() =~= Seq::empty());
                    Ok(RecursiveCreation { selection, transaction })
                },
            }
        },
        _ => {
            let selection = plan.add_selection(Selection::Empty);
            let transaction: Vec<Transaction> = Vec::new();
            assert(transaction.deep_view() =~= Seq::empty());
            Ok(RecursiveCreation { selection, transaction })
        },
    }
}

/// Plans the update of the node `id` of type `types[t]` and of what its input
/// says of its relations.
#[verifier::loop_isolation(false)]
pub fn node_update(plan: &mut MutationPlan, types: &Vec<NodeType>, t: usize, now: &str, input: &Vec<(String, InputValue)>, id: &str) -> (r: Result<
    RecursiveCreation,
    MutationError,
>)
    requires
        t < types.len(),
        catalog_closed(types.deep_view()),
    ensures
        match r {
            Ok(creation) => node_updated(types.deep_view(), t as int, now@, input.deep_view(), id@, old(plan)@) == Ok::<
                (PlanModel, CreationModel),
                MutationError,
            >((final(plan)@, creation@)),
            Err(e) => node_updated(types.deep_view(), t as int, now@, input.deep_view(), id@, old(plan)@) == Err::<
                (PlanModel, CreationModel),
                MutationError,
            >(e),
        },
{
    let ty = &types[t];
    assert(types.deep_view()[t as int] == ty@);
    let basic = copy_plain_fields(ty, input);
    let updated = plan.add_selection(Selection::Updated { id: id.to_owned(), fields: crate::input::duplicate_fields(&basic) });
    let ghost started = plan@;
    let mut transactions: Vec<Transaction> = Vec::new();
    assert(transactions.deep_view() =~= Seq::empty());
    let mut k: usize = 0;
    while k < ty.relations.len()
        invariant
            k <= ty.relations.len(),
            relations_handled(types.deep_view(), t as int, updated, now@, input.deep_view(), started, k as nat) == Ok::<
                (PlanModel, Seq<TransactionModel>),
                MutationError,
            >((plan@, transactions.deep_view())),
        decreases ty.relations.len() - k,
    {
        match relation_handle(plan, types, t, updated, k, now, input) {
            Ok(creations) => {
                append_transactions(&mut transactions, creations);
            },
            Err(e) => {
                proof {
                    lemma_relations_error(
                        types.deep_view(),
                        t as int,
                        updated,
                        now@,
                        input.deep_view(),
                        started,
                        (k + 1) as nat,
                        ty.relations.len() as nat,
                    );
                }
                return Err(e);
            },
        }
        k = k + 1;
    }
    let ghost before = transactions.deep_view();
    let ghost fields = basic.deep_view();
    transactions.push(Transaction::UpdateNode { id: id.to_owned(), basic });
    assert(transactions.deep_view() =~= before.push(TransactionModel::UpdateNode { id: id@, basic: fields }));
    let selection = plan.add_selection(Selection::Joined { updated, id: id.to_owned() });
    Ok(RecursiveCreation { selection, transaction: transactions })
}

/// The objects that an input holds: an object itself, or those of a list's
/// elements in their order; `None` for any other value.
#[verifier::loop_isolation(false)]
pub fn inputs(parent_input: &InputValue) -> (r: Option<Vec<&Vec<(String, InputValue)>>>)
    ensures
        r.deep_view() == crate::input::objects_of(parent_input@),
        r is Some ==> forall|i: int| 0 <= i < r->Some_0.len() ==> decreases_to!(parent_input => #[trigger] r->Some_0[i]),
    decreases parent_input,
{
    proof {
        lemma_variants(*parent_input);
    }
    match parent_input {
        InputValue::Object(obj) => {
            let mut out: Vec<&Vec<(String, InputValue)>> = Vec::new();
            out.push(obj);
            assert(out.deep_view() =~= seq![obj.deep_view()]);
            assert(decreases_to!(parent_input => parent_input->Object_0));
            Some(out)
        },
        InputValue::List(list) => {
            let mut out: Vec<&Vec<(String, InputValue)>> = Vec::new();
            assert(out.deep_view() =~= Seq::empty());
            let mut i: usize = 0;
            while i < list.len()
                invariant
                    i <= list.len(),
                    out.deep_view() == crate::input::objects_of_items(list.deep_view(), i as nat),
                    forall|k: int| 0 <= k < out.len() ==> decreases_to!(parent_input => #[trigger] out[k]),
                decreases list.len() - i,
            {
                assert(decreases_to!(parent_input => parent_input->List_0));
                assert(decreases_to!(list => list[i as int]));
                assert(list.deep_view()[i as int] == list[i as int]@);
                match inputs(&list[i]) {
                    Some(found) => {
                        let mut found = found;
                        let ghost before = out.deep_view();
                        let ghost added = found.deep_view();
                        let ghost held = out@;
                        let ghost extra = found@;
                        assert forall|k: int| 0 <= k < extra.len() implies decreases_to!(parent_input => #[trigger] extra[k]) by {
                            assert(decreases_to!(&list[i as int] => extra[k]));
                        }
                        out.append(&mut found);
                        assert(out@ == held + extra);
                        assert(out.deep_view() =~= before + added);
                        assert forall|k: int| 0 <= k < out.len() implies decreases_to!(parent_input => #[trigger] out[k]) by {
                            if k < held.len() {
                                assert(out[k] == held[k]);
                            } else {
                                assert(out[k] == extra[k - held.len()]);
                            }
                        }
                    },
                    None => {
                        assert(out.deep_view() + Seq::<Seq<(Seq<char>, InputModel)>>::empty() =~= out.deep_view());
                    },
                }
                i = i + 1;
            }
            Some(out)
        },
        _ => None,
    }
}

} // verus!
