//! What holds of the writes of a mutation: relations are stored and removed
//! on both sides, an update reaches every copy of a node, and a deletion
//! leaves no row of the node behind.

use crate::assoc::{distinct_keys, lemma_put, value_of};
use crate::delete::{deletion_of, deletions, has_both_keys};
use crate::execute::{all_writes, rows_of_selection, writes_of};
use crate::input::{attribute_of, InputModel};
use crate::item::AttrModel;
use crate::mutation::{child_handled, link_writes, node_created, PlanModel, SelectionModel};
use crate::input::field_index_from;
use crate::node_types::{type_index_from, NodeTypeModel, RelationModel};
use crate::paginated::{edge_rows, entity_rows, every_row_of, QueryResult, QueryValueModel};
use crate::update::{assigned_fields, every_result_row, found_rows, update_of, update_values, update_writes, with_fields, UPDATED_AT};
use crate::writes::{delete_of, relation_edge, relation_removals, value_placeholder, SelectedModel, TxModel, WriteModel};
use vstd::prelude::*;

verus! {

/// The rows of the store as far as relations go: for the keys of each row,
/// the names of the relations that the row stands for.
pub type EdgeStore = Map<(Seq<char>, Seq<char>), Set<Seq<char>>>;

/// The store after one write. A put stores a row that stands for no
/// relation. An update that names a relation adds the name to the row with
/// its keys, which comes into being where it was not there; any other update
/// leaves the relations as they are. A delete takes the row out.
pub open spec fn store_after_write(store: EdgeStore, write: TxModel) -> EdgeStore {
    let key = (write.pk, write.sk);
    match write.transaction {
        WriteModel::Put { .. } => store.insert(key, Set::empty()),
        WriteModel::Update { .. } => match write.relation_name {
            Some(name) => store.insert(
                key,
                if store.dom().contains(key) {
                    store[key].insert(name)
                } else {
                    Set::empty().insert(name)
                },
            ),
            None => store,
        },
        WriteModel::Delete { .. } => store.remove(key),
    }
}

/// The store after the first `n` of some writes, made in their order.
pub open spec fn store_after(store: EdgeStore, writes: Seq<TxModel>, n: nat) -> EdgeStore
    decreases n,
{
    if n == 0 {
        store
    } else {
        store_after_write(store_after(store, writes, (n - 1) as nat), writes[n - 1])
    }
}

/// Whether the store holds an edge under these keys that stands for a relation.
pub open spec fn has_edge(store: EdgeStore, pk: Seq<char>, sk: Seq<char>, relation_name: Seq<char>) -> bool {
    store.dom().contains((pk, sk)) && store[(pk, sk)].contains(relation_name)
}

/// A child that is created under a relation field is linked to its parent:
/// the plan of the child ends with the two writes of the relation, one for
/// each side, behind the writes of the child's own creation.
pub proof fn lemma_nested_create_plans_both_sides(
    types: Seq<NodeTypeModel>,
    t: int,
    parent: usize,
    relation: RelationModel,
    now: Seq<char>,
    child: Seq<(Seq<char>, InputModel)>,
    plan: PlanModel,
)
    requires
        0 <= field_index_from(child, "create"@, 0) < child.len(),
        child[field_index_from(child, "create"@, 0)].1 is Object,
        field_index_from(child, "link"@, 0) >= child.len(),
        field_index_from(child, "unlink"@, 0) >= child.len(),
        child_handled(types, t, parent, relation, now, child, plan) is Ok,
    ensures
        ({
            let c = type_index_from(types, relation.target, 0);
            let created = node_created(types, c, now, child[field_index_from(child, "create"@, 0)].1->Object_0, plan);
            let handled = child_handled(types, t, parent, relation, now, child, plan)->Ok_0;
            &&& created is Ok
            &&& handled.0 == created->Ok_0.0
            &&& handled.1.selection == created->Ok_0.1.selection
            &&& handled.1.transaction == created->Ok_0.1.transaction + link_writes(
                types[t].name,
                types[c].name,
                parent,
                created->Ok_0.1.selection,
                relation.name,
            )
        }),
{
}

/// The two writes of a relation store an edge in the partition of each of
/// the two nodes, under the key of the other node, and each edge stands for
/// the relation. So the relation is found from either side, whatever relations
/// the two types declare.
pub proof fn lemma_link_is_stored_on_both_sides(
    types: Seq<NodeTypeModel>,
    parent_ty: Seq<char>,
    child_ty: Seq<char>,
    parent: usize,
    child: usize,
    relation_name: Seq<char>,
    rows: Seq<Seq<SelectedModel>>,
    duplicates: Seq<Seq<char>>,
    now: Seq<char>,
    table: Seq<char>,
    store: EdgeStore,
)
    requires
        type_index_from(types, parent_ty, 0) < types.len(),
        type_index_from(types, child_ty, 0) < types.len(),
        parent < rows.len(),
        child < rows.len(),
        rows[parent as int].len() > 0,
        rows[child as int].len() > 0,
        rows[parent as int][0].pk == rows[parent as int][0].sk,
        rows[child as int][0].pk == rows[child as int][0].sk,
    ensures
        ({
            let writes = all_writes(types, link_writes(parent_ty, child_ty, parent, child, relation_name), rows, duplicates, now, table, 2);
            let after = store_after(store, writes, writes.len());
            let p = rows[parent as int][0].pk;
            let c = rows[child as int][0].pk;
            &&& writes.len() == 2
            &&& has_edge(after, p, c, relation_name)
            &&& has_edge(after, c, p, relation_name)
        }),
{
    let plan = link_writes(parent_ty, child_ty, parent, child, relation_name);
    let tp = type_index_from(types, parent_ty, 0);
    let tc = type_index_from(types, child_ty, 0);
    let first = relation_edge(types[tp], rows[child as int], rows[parent as int], relation_name, table);
    let second = relation_edge(types[tc], rows[parent as int], rows[child as int], relation_name, table);
    assert(first is Some && second is Some);
    assert(writes_of(types, plan[0], rows, duplicates, now, table) == seq![first->Some_0]);
    assert(writes_of(types, plan[1], rows, duplicates, now, table) == seq![second->Some_0]);
    assert(all_writes(types, plan, rows, duplicates, now, table, 0) =~= Seq::empty());
    assert(all_writes(types, plan, rows, duplicates, now, table, 1) =~= seq![first->Some_0]);
    let writes = all_writes(types, plan, rows, duplicates, now, table, 2);
    assert(writes =~= seq![first->Some_0, second->Some_0]);
    let s0 = store_after(store, writes, 0);
    let s1 = store_after(store, writes, 1);
    let s2 = store_after(store, writes, 2);
    assert(s1 == store_after_write(s0, writes[0]));
    assert(s2 == store_after_write(s1, writes[1]));
    let p = rows[parent as int][0].pk;
    let c = rows[child as int][0].pk;
    assert(has_edge(s1, p, c, relation_name));
    if (p, c) == (c, p) {
        assert(has_edge(s2, p, c, relation_name));
    } else {
        assert(s2[(p, c)] == s1[(p, c)]);
    }
}

/// Unlinking a node from another takes out both edges between them: the one
/// in the partition of each node under the key of the other. So the relation
/// is found from neither side.
pub proof fn lemma_unlink_removes_both_sides(from: Seq<SelectedModel>, to: Seq<char>, table: Seq<char>, store: EdgeStore)
    requires
        from.len() == 1,
        from[0].pk == from[0].sk,
        from[0].pk != to,
    ensures
        ({
            let writes = relation_removals(from, to, table, 1);
            let after = store_after(store, writes, writes.len());
            &&& writes == seq![delete_of(to, from[0].pk, table), delete_of(from[0].pk, to, table)]
            &&& !after.dom().contains((from[0].pk, to))
            &&& !after.dom().contains((to, from[0].pk))
        }),
{
    assert(relation_removals(from, to, table, 0) =~= Seq::empty());
    let writes = relation_removals(from, to, table, 1);
    assert(writes =~= seq![delete_of(to, from[0].pk, table), delete_of(from[0].pk, to, table)]);
    let s0 = store_after(store, writes, 0);
    let s1 = store_after(store, writes, 1);
    let s2 = store_after(store, writes, 2);
    assert(s1 == store_after_write(s0, writes[0]));
    assert(s2 == store_after_write(s1, writes[1]));
}

/// The values of an update are under names that occur once.
pub proof fn lemma_update_values_distinct(fields: Seq<(Seq<char>, InputModel)>, n: nat)
    ensures
        distinct_keys(update_values(fields, n)),
    decreases n,
{
    if n > 0 {
        lemma_update_values_distinct(fields, (n - 1) as nat);
        lemma_put(update_values(fields, (n - 1) as nat), value_placeholder(fields[n - 1].0), attribute_of(fields[n - 1].1));
    }
}

/// An update of plain fields makes one write for the node and one for each
/// of its copies: for a node with `N` copies that is `N + 1` writes. Each
/// write is for the row with the copy's partition key and the node's
/// identifier as sort key, all assign the same values, and among them is the
/// time of the update.
pub proof fn lemma_update_reaches_every_copy(
    id: Seq<char>,
    basic: Seq<(Seq<char>, InputModel)>,
    now: Seq<char>,
    duplicates: Seq<Seq<char>>,
    table: Seq<char>,
)
    requires
        basic.len() > 0,
    ensures
        ({
            let writes = update_writes(id, basic, now, duplicates, table);
            &&& writes.len() == duplicates.len() + 1
            &&& writes[0].pk == id
            &&& forall|i: int| 1 <= i < writes.len() ==> (#[trigger] writes[i]).pk == duplicates[i - 1]
            &&& forall|i: int|
                0 <= i < writes.len() ==> {
                    &&& (#[trigger] writes[i]).sk == id
                    &&& writes[i].transaction is Update
                    &&& writes[i].transaction->Update_update_expression == writes[0].transaction->Update_update_expression
                    &&& writes[i].transaction->Update_expression_attribute_values == writes[0].transaction->Update_expression_attribute_values
                    &&& value_of(writes[i].transaction->Update_expression_attribute_values, value_placeholder(UPDATED_AT@)) == Some(
                        AttrModel::S(now),
                    )
                }
        }),
{
    let fields = assigned_fields(basic, now);
    let n = fields.len();
    lemma_update_values_distinct(fields, (n - 1) as nat);
    lemma_put(update_values(fields, (n - 1) as nat), value_placeholder(fields[n - 1].0), attribute_of(fields[n - 1].1));
    assert(attribute_of(InputModel::Text(now)) == AttrModel::S(now));
    let writes = update_writes(id, basic, now, duplicates, table);
    assert forall|i: int| 0 <= i < writes.len() implies {
        &&& (#[trigger] writes[i]).sk == id
        &&& writes[i].transaction is Update
        &&& writes[i].transaction->Update_update_expression == writes[0].transaction->Update_update_expression
        &&& writes[i].transaction->Update_expression_attribute_values == writes[0].transaction->Update_expression_attribute_values
        &&& value_of(writes[i].transaction->Update_expression_attribute_values, value_placeholder(UPDATED_AT@)) == Some(AttrModel::S(now))
    } by {
        assert(writes[i] == update_of(
            if i == 0 {
                id
            } else {
                duplicates[i - 1]
            },
            id,
            basic,
            now,
            table,
        ));
    }
}

/// Storing fields in a row keeps its names distinct, and each field holds
/// the value that was stored for it last.
pub proof fn lemma_with_fields(item: Seq<(Seq<char>, AttrModel)>, fields: Seq<(Seq<char>, InputModel)>, n: nat, j: int)
    requires
        distinct_keys(item),
        0 <= j < n <= fields.len(),
        forall|k: int| j < k < n ==> (#[trigger] fields[k]).0 != fields[j].0,
    ensures
        distinct_keys(with_fields(item, fields, n)),
        value_of(with_fields(item, fields, n), fields[j].0) == Some(attribute_of(fields[j].1)),
    decreases n,
{
    lemma_fields_keep_names_distinct(item, fields, (n - 1) as nat);
    let before = with_fields(item, fields, (n - 1) as nat);
    lemma_put(before, fields[n - 1].0, attribute_of(fields[n - 1].1));
    if j < n - 1 {
        lemma_with_fields(item, fields, (n - 1) as nat, j);
        assert(fields[n - 1].0 != fields[j].0);
    }
}

/// Storing fields in a row keeps its names distinct.
pub proof fn lemma_fields_keep_names_distinct(item: Seq<(Seq<char>, AttrModel)>, fields: Seq<(Seq<char>, InputModel)>, n: nat)
    requires
        distinct_keys(item),
        n <= fields.len(),
    ensures
        distinct_keys(with_fields(item, fields, n)),
    decreases n,
{
    if n > 0 {
        lemma_fields_keep_names_distinct(item, fields, (n - 1) as nat);
        lemma_put(with_fields(item, fields, (n - 1) as nat), fields[n - 1].0, attribute_of(fields[n - 1].1));
    }
}

/// The selection of an update shows the node as it will be: every row that
/// was loaded for it keeps its keys, holds each new value under the name of
/// its field, and holds the time of the update.
pub proof fn lemma_updated_selection_holds_the_new_values(
    id: Seq<char>,
    fields: Seq<(Seq<char>, InputModel)>,
    earlier: Seq<Seq<SelectedModel>>,
    loaded: Seq<SelectedModel>,
    now: Seq<char>,
    r: int,
    j: int,
)
    requires
        0 <= r < loaded.len(),
        distinct_keys(loaded[r].item),
        0 <= j < fields.len(),
        forall|k: int| j < k < fields.len() ==> (#[trigger] fields[k]).0 != fields[j].0,
        fields[j].0 != UPDATED_AT@,
    ensures
        ({
            let rows = rows_of_selection(SelectionModel::Updated { id, fields }, earlier, loaded, now);
            &&& rows.len() == loaded.len()
            &&& rows[r].pk == loaded[r].pk
            &&& rows[r].sk == loaded[r].sk
            &&& distinct_keys(rows[r].item)
            &&& value_of(rows[r].item, fields[j].0) == Some(attribute_of(fields[j].1))
            &&& value_of(rows[r].item, UPDATED_AT@) == Some(AttrModel::S(now))
        }),
{
    let stored = with_fields(loaded[r].item, fields, fields.len());
    lemma_with_fields(loaded[r].item, fields, fields.len(), j);
    lemma_put(stored, UPDATED_AT@, AttrModel::S(now));
}

/// An update without plain fields writes nothing.
pub proof fn lemma_update_without_fields(id: Seq<char>, now: Seq<char>, duplicates: Seq<Seq<char>>, table: Seq<char>)
    ensures
        update_writes(id, Seq::empty(), now, duplicates, table).len() == 0,
{
}

/// A deletion takes out every row that was found with both of its keys: for
/// each such row there is a write that deletes the row with the row's keys.
pub proof fn lemma_every_found_row_is_deleted(rows: Seq<Seq<(Seq<char>, AttrModel)>>, table: Seq<char>, n: nat, j: int)
    requires
        0 <= j < n <= rows.len(),
        has_both_keys(rows[j]),
    ensures
        exists|k: int| 0 <= k < deletions(rows, table, n).len() && #[trigger] deletions(rows, table, n)[k] == deletion_of(rows[j], table),
    decreases n,
{
    if j == n - 1 {
        let k = deletions(rows, table, (n - 1) as nat).len() as int;
        assert(deletions(rows, table, n)[k] == deletion_of(rows[j], table));
    } else {
        lemma_every_found_row_is_deleted(rows, table, (n - 1) as nat, j);
        let k = choose|k: int|
            0 <= k < deletions(rows, table, (n - 1) as nat).len() && #[trigger] deletions(rows, table, (n - 1) as nat)[k] == deletion_of(
                rows[j],
                table,
            );
        assert(deletions(rows, table, n)[k] == deletion_of(rows[j], table));
    }
}

/// A deletion writes no more than it found: where no row is found, nothing
/// is written.
pub proof fn lemma_deletions_bound(rows: Seq<Seq<(Seq<char>, AttrModel)>>, table: Seq<char>, n: nat)
    ensures
        deletions(rows, table, n).len() <= n,
        forall|k: int| 0 <= k < deletions(rows, table, n).len() ==> (#[trigger] deletions(rows, table, n)[k]).transaction is Delete,
    decreases n,
{
    if n > 0 {
        lemma_deletions_bound(rows, table, (n - 1) as nat);
    }
}

/// Every row of a relation is among the rows of all relations.
pub proof fn lemma_edge_rows_hold(edges: Seq<(Seq<char>, Seq<Seq<(Seq<char>, AttrModel)>>)>, e: int, k: int)
    requires
        0 <= e < edges.len(),
        0 <= k < edges[e].1.len(),
    ensures
        edge_rows(edges).contains(edges[e].1[k]),
    decreases edges.len(),
{
    let head = edge_rows(edges.drop_last());
    if e == edges.len() - 1 {
        assert(edge_rows(edges)[head.len() + k] == edges[e].1[k]);
    } else {
        lemma_edge_rows_hold(edges.drop_last(), e, k);
        let j = choose|j: int| 0 <= j < head.len() && head[j] == edges[e].1[k];
        assert(edge_rows(edges)[j] == edges[e].1[k]);
    }
}

/// The rows of an entity are of three kinds, and each of them is among all
/// its rows: the node, every row of every relation, and every constraint.
pub proof fn lemma_every_kind_is_a_row(value: QueryValueModel)
    ensures
        value.node is Some ==> every_row_of(value).contains(value.node->Some_0),
        forall|e: int, k: int| 0 <= e < value.edges.len() && 0 <= k < value.edges[e].1.len() ==> every_row_of(value).contains(#[trigger] value.edges[e].1[k]),
        forall|c: int| 0 <= c < value.constraints.len() ==> every_row_of(value).contains(#[trigger] value.constraints[c]),
{
    let all = every_row_of(value);
    let plain = entity_rows(value);
    if value.node is Some {
        assert(all[0] == value.node->Some_0);
    }
    assert forall|e: int, k: int| 0 <= e < value.edges.len() && 0 <= k < value.edges[e].1.len() implies all.contains(
        #[trigger] value.edges[e].1[k],
    ) by {
        lemma_edge_rows_hold(value.edges, e, k);
        let j = choose|j: int| 0 <= j < edge_rows(value.edges).len() && edge_rows(value.edges)[j] == value.edges[e].1[k];
        if value.node is Some {
            assert(all[j + 1] == value.edges[e].1[k]);
        } else {
            assert(all[j] == value.edges[e].1[k]);
        }
    }
    assert forall|c: int| 0 <= c < value.constraints.len() implies all.contains(#[trigger] value.constraints[c]) by {
        assert(all[plain.len() + c] == value.constraints[c]);
    }
}

/// Every row of an entity of a result is among the rows of the result.
pub proof fn lemma_entity_rows_are_found(values: Seq<(Seq<char>, QueryValueModel)>, i: int, k: int)
    requires
        0 <= i < values.len(),
        0 <= k < every_row_of(values[i].1).len(),
    ensures
        every_result_row(values).contains(every_row_of(values[i].1)[k]),
    decreases values.len(),
{
    let head = every_result_row(values.drop_last());
    let row = every_row_of(values[i].1)[k];
    if i == values.len() - 1 {
        assert(every_result_row(values)[head.len() + k] == row);
    } else {
        lemma_entity_rows_are_found(values.drop_last(), i, k);
        let j = choose|j: int| 0 <= j < head.len() && head[j] == row;
        assert(every_result_row(values)[j] == row);
    }
}

/// A deletion is complete. Of every entity that the lookup by partition key
/// or the lookup by sort key found, every row that holds both keys gets a
/// write that deletes it under its own keys: the node, the rows of its
/// relations, and its constraints.
pub proof fn lemma_deletion_takes_every_kind(by_pk: Option<QueryResult>, by_sk: Option<QueryResult>, table: Seq<char>, found: QueryResult, i: int)
    requires
        by_pk == Some(found) || by_sk == Some(found),
        0 <= i < found@.values.len(),
    ensures
        ({
            let rows = found_rows(by_pk) + found_rows(by_sk);
            let writes = deletions(rows, table, rows.len());
            let entity = found@.values[i].1;
            &&& entity.node is Some && has_both_keys(entity.node->Some_0) ==> writes.contains(deletion_of(entity.node->Some_0, table))
            &&& forall|e: int, k: int|
                0 <= e < entity.edges.len() && 0 <= k < entity.edges[e].1.len() && has_both_keys(#[trigger] entity.edges[e].1[k])
                    ==> writes.contains(deletion_of(entity.edges[e].1[k], table))
            &&& forall|c: int|
                0 <= c < entity.constraints.len() && has_both_keys(#[trigger] entity.constraints[c]) ==> writes.contains(
                    deletion_of(entity.constraints[c], table),
                )
        }),
{
    let rows = found_rows(by_pk) + found_rows(by_sk);
    let writes = deletions(rows, table, rows.len());
    let entity = found@.values[i].1;
    let own = every_row_of(entity);
    lemma_every_kind_is_a_row(entity);
    assert forall|row: Seq<(Seq<char>, AttrModel)>| own.contains(row) && has_both_keys(row) implies writes.contains(deletion_of(row, table)) by {
        let k = choose|k: int| 0 <= k < own.len() && own[k] == row;
        lemma_entity_rows_are_found(found@.values, i, k);
        let all = every_result_row(found@.values);
        let j = choose|j: int| 0 <= j < all.len() && all[j] == row;
        let at = if by_pk == Some(found) {
            j
        } else {
            found_rows(by_pk).len() + j
        };
        assert(rows[at] == row);
        lemma_every_found_row_is_deleted(rows, table, rows.len(), at);
    }
}

} // verus!
