//! The children of a relation: handling the value under a relation field is
//! handling the objects that the value holds, one after the other.

use crate::delete::MutationError;
use crate::input::{objects_of, objects_of_items, InputModel};
use crate::mutation::{child_handled, items_handled, value_handled, CreationModel, PlanModel};
use crate::node_types::{NodeTypeModel, RelationModel};
use vstd::prelude::*;

verus! {

/// The plan for the first `n` of some children of a relation, each handled
/// on the plan that the one before has left.
pub open spec fn objects_handled(
    types: Seq<NodeTypeModel>,
    t: int,
    parent: usize,
    relation: RelationModel,
    now: Seq<char>,
    children: Seq<Seq<(Seq<char>, InputModel)>>,
    plan: PlanModel,
    n: nat,
) -> Result<(PlanModel, Seq<CreationModel>), MutationError>
    decreases n,
{
    if n == 0 {
        Ok((plan, Seq::empty()))
    } else {
        match objects_handled(types, t, parent, relation, now, children, plan, (n - 1) as nat) {
            Err(e) => Err(e),
            Ok((before, creations)) => match child_handled(types, t, parent, relation, now, children[n - 1], before) {
                Err(e) => Err(e),
                Ok((after, creation)) => Ok((after, creations.push(creation))),
            },
        }
    }
}

/// Once the handling of a child fails, the handling of all children fails the same way.
pub proof fn lemma_objects_error(
    types: Seq<NodeTypeModel>,
    t: int,
    parent: usize,
    relation: RelationModel,
    now: Seq<char>,
    children: Seq<Seq<(Seq<char>, InputModel)>>,
    plan: PlanModel,
    k: nat,
    n: nat,
)
    requires
        k <= n,
        objects_handled(types, t, parent, relation, now, children, plan, k) is Err,
    ensures
        objects_handled(types, t, parent, relation, now, children, plan, n) == objects_handled(types, t, parent, relation, now, children, plan, k),
    decreases n,
{
    if k < n {
        lemma_objects_error(types, t, parent, relation, now, children, plan, k, (n - 1) as nat);
    }
}

/// Handling children depends only on the children that are handled.
pub proof fn lemma_objects_handled_prefix(
    types: Seq<NodeTypeModel>,
    t: int,
    parent: usize,
    relation: RelationModel,
    now: Seq<char>,
    a: Seq<Seq<(Seq<char>, InputModel)>>,
    b: Seq<Seq<(Seq<char>, InputModel)>>,
    plan: PlanModel,
    n: nat,
)
    requires
        n <= a.len(),
    ensures
        objects_handled(types, t, parent, relation, now, a + b, plan, n) == objects_handled(types, t, parent, relation, now, a, plan, n),
    decreases n,
{
    if n > 0 {
        lemma_objects_handled_prefix(types, t, parent, relation, now, a, b, plan, (n - 1) as nat);
        assert((a + b)[n - 1] == a[n - 1]);
    }
}

/// Handling two runs of children, one behind the other, is handling the
/// first run and then the second on the plan that the first has left.
pub proof fn lemma_objects_handled_concat(
    types: Seq<NodeTypeModel>,
    t: int,
    parent: usize,
    relation: RelationModel,
    now: Seq<char>,
    a: Seq<Seq<(Seq<char>, InputModel)>>,
    b: Seq<Seq<(Seq<char>, InputModel)>>,
    plan: PlanModel,
    n: nat,
)
    requires
        n <= b.len(),
    ensures
        objects_handled(types, t, parent, relation, now, a + b, plan, a.len() + n) == (match objects_handled(
            types,
            t,
            parent,
            relation,
            now,
            a,
            plan,
            a.len(),
        ) {
            Err(e) => Err(e),
            Ok((middle, first)) => match objects_handled(types, t, parent, relation, now, b, middle, n) {
                Err(e) => Err(e),
                Ok((after, second)) => Ok((after, first + second)),
            },
        }),
    decreases n,
{
    if n == 0 {
        lemma_objects_handled_prefix(types, t, parent, relation, now, a, b, plan, a.len());
        match objects_handled(types, t, parent, relation, now, a, plan, a.len()) {
            Ok((middle, first)) => {
                assert(first + Seq::<CreationModel>::empty() =~= first);
            },
            Err(_) => {},
        }
    } else {
        lemma_objects_handled_concat(types, t, parent, relation, now, a, b, plan, (n - 1) as nat);
        assert((a + b)[a.len() + n - 1] == b[n - 1]);
        match objects_handled(types, t, parent, relation, now, a, plan, a.len()) {
            Ok((middle, first)) => {
                match objects_handled(types, t, parent, relation, now, b, middle, (n - 1) as nat) {
                    Ok((before, second)) => {
                        match child_handled(types, t, parent, relation, now, b[n - 1], before) {
                            Ok((after, creation)) => {
                                assert((first + second).push(creation) =~= first + second.push(creation));
                            },
                            Err(_) => {},
                        }
                    },
                    Err(_) => {},
                }
            },
            Err(_) => {},
        }
    }
}

/// The objects that a value holds, or none for a value that holds none.
pub open spec fn children_of(value: InputModel) -> Seq<Seq<(Seq<char>, InputModel)>> {
    match objects_of(value) {
        Some(children) => children,
        None => Seq::empty(),
    }
}

/// Handling the value under a relation field is handling the objects that
/// the value holds, in their order.
pub proof fn lemma_value_is_its_objects(
    types: Seq<NodeTypeModel>,
    t: int,
    parent: usize,
    relation: RelationModel,
    now: Seq<char>,
    value: InputModel,
    plan: PlanModel,
)
    ensures
        value_handled(types, t, parent, relation, now, value, plan) == objects_handled(
            types,
            t,
            parent,
            relation,
            now,
            children_of(value),
            plan,
            children_of(value).len(),
        ),
    decreases value, 1nat, 0nat,
{
    match value {
        InputModel::Object(child) => {
            let children = seq![child];
            assert(objects_handled(types, t, parent, relation, now, children, plan, 0) == Ok::<(PlanModel, Seq<CreationModel>), MutationError>(
                (plan, Seq::empty()),
            ));
            match child_handled(types, t, parent, relation, now, child, plan) {
                Ok((after, creation)) => {
                    assert(Seq::<CreationModel>::empty().push(creation) =~= seq![creation]);
                },
                Err(_) => {},
            }
        },
        InputModel::List(items) => {
            lemma_items_are_their_objects(types, t, parent, relation, now, items, plan, items.len());
        },
        _ => {},
    }
}

/// Handling the first `n` elements of a list is handling the objects that
/// they hold, in their order.
pub proof fn lemma_items_are_their_objects(
    types: Seq<NodeTypeModel>,
    t: int,
    parent: usize,
    relation: RelationModel,
    now: Seq<char>,
    items: Seq<InputModel>,
    plan: PlanModel,
    n: nat,
)
    requires
        n <= items.len(),
    ensures
        items_handled(types, t, parent, relation, now, items, plan, n) == objects_handled(
            types,
            t,
            parent,
            relation,
            now,
            objects_of_items(items, n),
            plan,
            objects_of_items(items, n).len(),
        ),
    decreases items, 0nat, n,
{
    if n > 0 {
        lemma_items_are_their_objects(types, t, parent, relation, now, items, plan, (n - 1) as nat);
        let a = objects_of_items(items, (n - 1) as nat);
        let b = children_of(items[n - 1]);
        assert(objects_of_items(items, n) == a + b);
        lemma_objects_handled_concat(types, t, parent, relation, now, a, b, plan, b.len());
        match items_handled(types, t, parent, relation, now, items, plan, (n - 1) as nat) {
            Ok((before, creations)) => {
                lemma_value_is_its_objects(types, t, parent, relation, now, items[n - 1], before);
            },
            Err(_) => {},
        }
    }
}

} // verus!
