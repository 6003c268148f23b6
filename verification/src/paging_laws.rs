//! What holds of pages: how a page is cut, how the page behind a cursor
//! continues it, and that a query answered in several responses is one scan.
//! First for entities of any shape, below a parent or not; then, with their
//! exact contents, for collections of plain nodes.

use crate::assoc::{find_key, lemma_find_key, without};
use crate::paginated::{
    absorbed_row, absorbed_rows, absorbed_value, collected, empty_result, empty_value, group_key, trimmed, PageModel, QueryResultModel,
    QueryValueModel, ScopeModel,
};
use crate::row::{IdKindModel, RowModel};
use vstd::prelude::*;

verus! {

/// An entity that has its node and nothing else.
pub open spec fn node_value(row: RowModel) -> QueryValueModel {
    QueryValueModel { node: Some(row.item), edges: Seq::empty(), constraints: Seq::empty() }
}

/// One entity per row, under the row's partition key.
pub open spec fn node_entries(rows: Seq<RowModel>) -> Seq<(Seq<char>, QueryValueModel)> {
    Seq::new(rows.len(), |i: int| (rows[i].pk, node_value(rows[i])))
}

/// The rows are the nodes of a collection that is listed on its own: each row
/// is a node of the wanted type, and no two rows have the same partition key.
pub open spec fn is_node_collection(rows: Seq<RowModel>, scope: ScopeModel) -> bool {
    &&& scope.parent_pk is None
    &&& forall|i: int| 0 <= i < rows.len() ==> (#[trigger] rows[i]).pk_kind is Node && rows[i].sk_kind == (IdKindModel::Node { ty: scope.node_type })
    &&& forall|i: int, j: int| 0 <= i < j < rows.len() ==> (#[trigger] rows[i]).pk != (#[trigger] rows[j]).pk
}

/// The page that one response with these rows gives.
pub open spec fn page_of(rows: Seq<RowModel>, scope: ScopeModel) -> QueryResultModel {
    trimmed(absorbed_rows(empty_result(), rows, scope), scope.limit)
}

/// The rows that the store hands out behind a key: those that come after the
/// row with that partition key in the order of the scan.
pub open spec fn rows_after(rows: Seq<RowModel>, key: Seq<char>) -> Seq<RowModel> {
    let i = find_key(node_entries(rows), key);
    if i < rows.len() {
        rows.skip(i + 1)
    } else {
        Seq::empty()
    }
}

/// Taking nodes in one by one gathers them in their order, up to one more
/// than the page size; that one's key is the key to continue after.
pub proof fn lemma_absorbed_nodes(rows: Seq<RowModel>, scope: ScopeModel)
    requires
        is_node_collection(rows, scope),
    ensures
        absorbed_rows(empty_result(), rows, scope).values == (if rows.len() > scope.limit {
            node_entries(rows.take(scope.limit + 1))
        } else {
            node_entries(rows)
        }),
        absorbed_rows(empty_result(), rows, scope).last_evaluated_key == (if rows.len() > scope.limit {
            Some(rows[scope.limit as int].pk)
        } else {
            None
        }),
    decreases rows.len(),
{
    if rows.len() == 0 {
        assert(node_entries(rows) =~= Seq::empty());
    } else {
        let head = rows.drop_last();
        let row = rows.last();
        assert(is_node_collection(head, scope)) by {
            assert forall|i: int| 0 <= i < head.len() implies (#[trigger] head[i]).pk_kind is Node && head[i].sk_kind == (IdKindModel::Node {
                ty: scope.node_type,
            }) by {
                assert(head[i] == rows[i]);
            }
            assert forall|i: int, j: int| 0 <= i < j < head.len() implies (#[trigger] head[i]).pk != (#[trigger] head[j]).pk by {
                assert(head[i] == rows[i] && head[j] == rows[j]);
            }
        }
        lemma_absorbed_nodes(head, scope);
        let before = absorbed_rows(empty_result(), head, scope);
        let after = absorbed_row(before, row, scope);
        assert(absorbed_rows(empty_result(), rows, scope) == after);
        if head.len() > scope.limit {
            assert(before.values.len() == scope.limit + 1);
            assert(rows.take(scope.limit + 1) =~= head.take(scope.limit + 1));
            assert(rows[scope.limit as int] == head[scope.limit as int]);
        } else {
            assert(before.values == node_entries(head));
            lemma_find_key(before.values, row.pk);
            if find_key(before.values, row.pk) < before.values.len() {
                let f = find_key(before.values, row.pk);
                assert(before.values[f].0 == rows[f].pk);
                assert(rows[f].pk != rows[rows.len() - 1].pk);
            }
            assert(rows[rows.len() - 1] == row);
            assert(absorbed_value(empty_value(), row, scope) == node_value(row));
            assert(after.values =~= node_entries(rows));
            if rows.len() > scope.limit {
                assert(rows.take(scope.limit + 1) =~= rows);
            }
        }
    }
}

/// A page of a collection of nodes holds the first nodes, as many as the page
/// size allows; where there are more, the key to continue after is the
/// partition key of the first node that did not fit.
pub proof fn lemma_page_of_nodes(rows: Seq<RowModel>, scope: ScopeModel)
    requires
        is_node_collection(rows, scope),
    ensures
        rows.len() > scope.limit ==> page_of(rows, scope) == (QueryResultModel {
            values: node_entries(rows.take(scope.limit as int)),
            last_evaluated_key: Some(rows[scope.limit as int].pk),
        }),
        rows.len() <= scope.limit ==> page_of(rows, scope) == (QueryResultModel { values: node_entries(rows), last_evaluated_key: None }),
{
    lemma_absorbed_nodes(rows, scope);
    if rows.len() > scope.limit {
        let limit = scope.limit as int;
        let gathered = node_entries(rows.take(limit + 1));
        let key = rows[limit].pk;
        lemma_find_key(gathered, key);
        assert(gathered[limit].0 == key);
        if find_key(gathered, key) < limit {
            let f = find_key(gathered, key);
            assert(gathered[f].0 == rows[f].pk);
            assert(rows[f].pk != rows[limit].pk);
        }
        assert(find_key(gathered, key) == limit);
        assert(without(gathered, key) =~= node_entries(rows.take(limit)));
        assert(page_of(rows, scope).values =~= node_entries(rows.take(limit)));
    }
}

/// The rows behind the key of the `i`-th node of a collection are the nodes after it.
pub proof fn lemma_rows_after(rows: Seq<RowModel>, scope: ScopeModel, i: int)
    requires
        is_node_collection(rows, scope),
        0 <= i < rows.len(),
    ensures
        rows_after(rows, rows[i].pk) == rows.skip(i + 1),
        is_node_collection(rows.skip(i + 1), scope),
{
    let entries = node_entries(rows);
    lemma_find_key(entries, rows[i].pk);
    assert(entries[i].0 == rows[i].pk);
    let f = find_key(entries, rows[i].pk);
    if f < i {
        assert(entries[f].0 == rows[f].pk);
        assert(rows[f].pk != rows[i].pk);
    }
    let rest = rows.skip(i + 1);
    assert forall|a: int| 0 <= a < rest.len() implies (#[trigger] rest[a]).pk_kind is Node && rest[a].sk_kind == (IdKindModel::Node {
        ty: scope.node_type,
    }) by {
        assert(rest[a] == rows[a + i + 1]);
    }
    assert forall|a: int, b: int| 0 <= a < b < rest.len() implies (#[trigger] rest[a]).pk != (#[trigger] rest[b]).pk by {
        assert(rest[a] == rows[a + i + 1] && rest[b] == rows[b + i + 1]);
    }
}

/// Where a page hands out a key to continue after, the page that is read with
/// that key holds the nodes that follow the node of that key, in their order
/// and as many as the page size allows. So the two pages share no node, the
/// second goes on in the order of the first, and the one node between them is
/// the node whose key was handed out.
pub proof fn lemma_next_page_continues(rows: Seq<RowModel>, scope: ScopeModel)
    requires
        is_node_collection(rows, scope),
        page_of(rows, scope).last_evaluated_key is Some,
    ensures
        rows.len() > scope.limit,
        page_of(rows, scope).values == node_entries(rows.take(scope.limit as int)),
        page_of(rows, scope).last_evaluated_key == Some(rows[scope.limit as int].pk),
        page_of(rows_after(rows, page_of(rows, scope).last_evaluated_key->Some_0), scope).values == node_entries(
            rows.subrange(
                scope.limit + 1,
                if rows.len() > 2 * scope.limit + 1 {
                    2 * scope.limit + 1
                } else {
                    rows.len() as int
                },
            ),
        ),
{
    lemma_page_of_nodes(rows, scope);
    let limit = scope.limit as int;
    lemma_rows_after(rows, scope, limit);
    let rest = rows.skip(limit + 1);
    lemma_page_of_nodes(rest, scope);
    if rest.len() > limit {
        assert(rest.take(limit) =~= rows.subrange(limit + 1, 2 * limit + 1));
    } else {
        assert(rest =~= rows.subrange(limit + 1, rows.len() as int));
    }
}

/// Where the next page is read with the key of the last node of a full page,
/// it starts with the node that follows: the two pages together hold the first
/// nodes of the collection, each once and in their order.
pub proof fn lemma_page_after_last_node(rows: Seq<RowModel>, scope: ScopeModel)
    requires
        is_node_collection(rows, scope),
        0 < scope.limit <= rows.len(),
    ensures
        page_of(rows, scope).values + page_of(rows_after(rows, rows[scope.limit - 1].pk), scope).values == node_entries(
            rows.take(
                if rows.len() > 2 * scope.limit {
                    2 * scope.limit
                } else {
                    rows.len() as int
                },
            ),
        ),
{
    lemma_page_of_nodes(rows, scope);
    let limit = scope.limit as int;
    lemma_rows_after(rows, scope, limit - 1);
    let rest = rows.skip(limit);
    lemma_page_of_nodes(rest, scope);
    let end = if rows.len() > 2 * limit {
        2 * limit
    } else {
        rows.len() as int
    };
    let first = page_of(rows, scope).values;
    let second = page_of(rest, scope).values;
    if rows.len() > limit {
        assert(first == node_entries(rows.take(limit)));
    } else {
        assert(rows.take(limit) =~= rows);
    }
    if rest.len() > limit {
        assert(rest.take(limit) =~= rows.subrange(limit, 2 * limit));
    } else {
        assert(rest =~= rows.subrange(limit, rows.len() as int));
    }
    assert(first + second =~= node_entries(rows.take(end)));
}

/// A query that the store answers with one response gathers the page of
/// that response, whether or not the store has more.
pub proof fn lemma_one_response_is_a_page(rows: Seq<RowModel>, has_more: bool, scope: ScopeModel)
    ensures
        collected(empty_result(), seq![PageModel { rows, has_more }], 0, scope) == page_of(rows, scope),
{
    let pages = seq![PageModel { rows, has_more }];
    let taken = absorbed_rows(empty_result(), rows, scope);
    assert(pages[0].rows == rows);
    assert(collected(trimmed(taken, scope.limit), pages, 1, scope) == trimmed(taken, scope.limit));
}

/// A query stops at the first response that fills the page: no response
/// behind it changes the result.
pub proof fn lemma_full_page_ends_the_query(pages: Seq<PageModel>, more: Seq<PageModel>, scope: ScopeModel)
    requires
        pages.len() == 1,
        absorbed_rows(empty_result(), pages[0].rows, scope).values.len() > scope.limit,
    ensures
        collected(empty_result(), pages + more, 0, scope) == collected(empty_result(), pages, 0, scope),
{
    assert((pages + more)[0] == pages[0]);
}

/// The keys of the entities of a result, in their order.
pub open spec fn keys_of_entities(values: Seq<(Seq<char>, QueryValueModel)>) -> Seq<Seq<char>> {
    Seq::new(values.len(), |i: int| values[i].0)
}

/// The keys of the entities that some rows belong to, each once, in the
/// order in which their first rows come.
pub open spec fn entity_keys(rows: Seq<RowModel>, scope: ScopeModel) -> Seq<Seq<char>>
    decreases rows.len(),
{
    if rows.len() == 0 {
        Seq::empty()
    } else {
        let before = entity_keys(rows.drop_last(), scope);
        let key = group_key(rows.last(), scope);
        if before.contains(key) {
            before
        } else {
            before.push(key)
        }
    }
}

/// Whether some row belongs to the entity of a key.
pub open spec fn has_row(rows: Seq<RowModel>, scope: ScopeModel, key: Seq<char>) -> bool {
    exists|i: int| 0 <= i < rows.len() && group_key(#[trigger] rows[i], scope) == key
}

/// Whether a row of the entity `first` comes before every row of the entity `second`.
pub open spec fn comes_before(rows: Seq<RowModel>, scope: ScopeModel, first: Seq<char>, second: Seq<char>) -> bool {
    exists|i: int| 0 <= i < rows.len() && group_key(#[trigger] rows[i], scope) == first && no_row_up_to(rows, scope, second, i)
}

/// Whether none of the rows up to the `i`-th belongs to the entity of a key.
pub open spec fn no_row_up_to(rows: Seq<RowModel>, scope: ScopeModel, key: Seq<char>, i: int) -> bool {
    forall|j: int| 0 <= j <= i && j < rows.len() ==> group_key(#[trigger] rows[j], scope) != key
}

/// The store hands out the rows of an entity one behind the other: between
/// two rows of an entity there is no row of another.
pub open spec fn grouped(rows: Seq<RowModel>, scope: ScopeModel) -> bool {
    forall|i: int, j: int, k: int|
        #![trigger rows[i], rows[j], rows[k]]
        0 <= i < j < k < rows.len() && group_key(rows[i], scope) == group_key(rows[k], scope) ==> group_key(rows[j], scope) == group_key(
            rows[i],
            scope,
        )
}

/// The keys of the entities of some rows: no key comes twice, every key is
/// the key of a row and every row's key is among them, and an entity that
/// comes earlier among the keys has a row before every row of a later one.
pub proof fn lemma_entity_keys(rows: Seq<RowModel>, scope: ScopeModel)
    ensures
        forall|a: int, b: int| 0 <= a < b < entity_keys(rows, scope).len() ==> #[trigger] entity_keys(rows, scope)[a] != #[trigger] entity_keys(rows, scope)[b],
        forall|a: int| 0 <= a < entity_keys(rows, scope).len() ==> has_row(rows, scope, #[trigger] entity_keys(rows, scope)[a]),
        forall|i: int| 0 <= i < rows.len() ==> entity_keys(rows, scope).contains(group_key(#[trigger] rows[i], scope)),
        forall|a: int, b: int|
            0 <= a < b < entity_keys(rows, scope).len() ==> comes_before(rows, scope, #[trigger] entity_keys(rows, scope)[a], #[trigger] entity_keys(rows, scope)[b]),
    decreases rows.len(),
{
    let keys = entity_keys(rows, scope);
    if rows.len() > 0 {
        let head = rows.drop_last();
        let row = rows.last();
        let key = group_key(row, scope);
        let before = entity_keys(head, scope);
        lemma_entity_keys(head, scope);
        let fresh = !before.contains(key);
        assert forall|i: int| 0 <= i < head.len() implies head[i] == rows[i] by {}
        // No row of the head belongs to a key that is new.
        assert(fresh ==> forall|j: int| 0 <= j < head.len() ==> group_key(#[trigger] head[j], scope) != key) by {
            if fresh {
                assert forall|j: int| 0 <= j < head.len() implies group_key(#[trigger] head[j], scope) != key by {
                    assert(before.contains(group_key(head[j], scope)));
                }
            }
        }
        assert forall|a: int, b: int| 0 <= a < b < keys.len() implies #[trigger] keys[a] != #[trigger] keys[b] by {
            if b < before.len() {
                assert(before[a] != before[b]);
            } else {
                assert(keys[b] == key);
                assert(before[a] == keys[a]);
                if keys[a] == key {
                    assert(before.contains(key));
                }
            }
        }
        assert forall|a: int| 0 <= a < keys.len() implies has_row(rows, scope, #[trigger] keys[a]) by {
            if a < before.len() {
                assert(keys[a] == before[a]);
                assert(has_row(head, scope, before[a]));
                let i = choose|i: int| 0 <= i < head.len() && group_key(#[trigger] head[i], scope) == before[a];
                assert(group_key(rows[i], scope) == keys[a]);
            } else {
                assert(group_key(rows[rows.len() - 1], scope) == keys[a]);
            }
        }
        assert forall|i: int| 0 <= i < rows.len() implies keys.contains(group_key(#[trigger] rows[i], scope)) by {
            if i < head.len() {
                let x = group_key(head[i], scope);
                assert(before.contains(x));
                let a = choose|a: int| 0 <= a < before.len() && before[a] == x;
                assert(keys[a] == x);
            } else {
                if fresh {
                    assert(keys[keys.len() - 1] == key);
                } else {
                    let a = choose|a: int| 0 <= a < before.len() && before[a] == key;
                    assert(keys[a] == key);
                }
            }
        }
        assert forall|a: int, b: int| 0 <= a < b < keys.len() implies comes_before(rows, scope, #[trigger] keys[a], #[trigger] keys[b]) by {
            if b < before.len() {
                assert(comes_before(head, scope, before[a], before[b]));
                let i = choose|i: int| 0 <= i < head.len() && group_key(#[trigger] head[i], scope) == before[a] && no_row_up_to(head, scope, before[b], i);
                assert(no_row_up_to(rows, scope, keys[b], i)) by {
                    assert forall|j: int| 0 <= j <= i && j < rows.len() implies group_key(#[trigger] rows[j], scope) != keys[b] by {
                        assert(group_key(head[j], scope) != before[b]);
                    }
                }
                assert(group_key(rows[i], scope) == keys[a]);
            } else {
                assert(keys[b] == key && fresh);
                assert(keys[a] == before[a]);
                assert(has_row(head, scope, before[a]));
                let i = choose|i: int| 0 <= i < head.len() && group_key(#[trigger] head[i], scope) == before[a];
                assert(no_row_up_to(rows, scope, key, i)) by {
                    assert forall|j: int| 0 <= j <= i && j < rows.len() implies group_key(#[trigger] rows[j], scope) != key by {
                        assert(group_key(head[j], scope) != key);
                    }
                }
                assert(group_key(rows[i], scope) == keys[a]);
            }
        }
    }
}

/// Taking rows in gathers their entities in the order in which their first
/// rows come, up to one more than the page size; that one's key is the key
/// to continue after.
pub proof fn lemma_absorbed_keys(rows: Seq<RowModel>, scope: ScopeModel)
    ensures
        keys_of_entities(absorbed_rows(empty_result(), rows, scope).values) == (if entity_keys(rows, scope).len() > scope.limit {
            entity_keys(rows, scope).take(scope.limit + 1)
        } else {
            entity_keys(rows, scope)
        }),
        absorbed_rows(empty_result(), rows, scope).last_evaluated_key == (if entity_keys(rows, scope).len() > scope.limit {
            Some(entity_keys(rows, scope)[scope.limit as int])
        } else {
            None
        }),
    decreases rows.len(),
{
    let keys = entity_keys(rows, scope);
    if rows.len() == 0 {
        assert(keys_of_entities(empty_result().values) =~= Seq::empty());
    } else {
        let head = rows.drop_last();
        let row = rows.last();
        let key = group_key(row, scope);
        let known = entity_keys(head, scope);
        lemma_absorbed_keys(head, scope);
        let before = absorbed_rows(empty_result(), head, scope);
        let after = absorbed_row(before, row, scope);
        assert(absorbed_rows(empty_result(), rows, scope) == after);
        if known.len() > scope.limit {
            assert(before.values.len() == keys_of_entities(before.values).len());
            assert(after == before);
            assert(keys.take(scope.limit + 1) =~= known.take(scope.limit + 1));
        } else {
            assert(keys_of_entities(before.values) == known);
            assert(before.values.len() == known.len());
            lemma_find_key(before.values, key);
            let f = find_key(before.values, key);
            if f < before.values.len() {
                assert(known[f] == key);
                assert(known.contains(key));
                assert(keys_of_entities(after.values) =~= known);
            } else {
                if known.contains(key) {
                    let a = choose|a: int| 0 <= a < known.len() && known[a] == key;
                    assert(before.values[a].0 == known[a]);
                }
                assert(keys_of_entities(after.values) =~= known.push(key));
                if keys.len() > scope.limit {
                    assert(keys.take(scope.limit + 1) =~= keys);
                }
            }
        }
    }
}

/// A page holds the first entities of the scan, as many as the page size
/// allows; where there are more, the key to continue after is the key of
/// the first entity that did not fit, and that entity is not on the page.
pub proof fn lemma_page_keys(rows: Seq<RowModel>, scope: ScopeModel)
    ensures
        keys_of_entities(page_of(rows, scope).values) == (if entity_keys(rows, scope).len() > scope.limit {
            entity_keys(rows, scope).take(scope.limit as int)
        } else {
            entity_keys(rows, scope)
        }),
        page_of(rows, scope).last_evaluated_key == (if entity_keys(rows, scope).len() > scope.limit {
            Some(entity_keys(rows, scope)[scope.limit as int])
        } else {
            None
        }),
{
    let keys = entity_keys(rows, scope);
    let state = absorbed_rows(empty_result(), rows, scope);
    lemma_absorbed_keys(rows, scope);
    lemma_entity_keys(rows, scope);
    assert(state.values.len() == keys_of_entities(state.values).len());
    if keys.len() > scope.limit {
        let limit = scope.limit as int;
        let key = keys[limit];
        assert(state.values.len() == limit + 1);
        assert(state.values[limit].0 == keys_of_entities(state.values)[limit]);
        lemma_find_key(state.values, key);
        let f = find_key(state.values, key);
        if f < limit {
            assert(state.values[f].0 == keys_of_entities(state.values)[f]);
            assert(keys[f] != keys[limit]);
        }
        assert(f == limit);
        let kept = without(state.values, key);
        assert(kept =~= state.values.take(limit));
        assert(page_of(rows, scope).values == kept);
        assert(keys_of_entities(kept) =~= keys.take(limit));
    }
}

/// Two pages share no entity. Where a page hands out a key to continue
/// after, and the next page is made of the rows behind the last row of the
/// entity of that key, then no entity of the first page is on the second,
/// the entity of the key is on neither, the first page is full, every entity
/// of the first page has a row before the entity of the key, and every
/// entity of the second page has its rows behind it. This holds for entities
/// with edges and constraints, below a parent or not.
pub proof fn lemma_pages_share_no_entity(rows: Seq<RowModel>, scope: ScopeModel, last: int)
    requires
        grouped(rows, scope),
        page_of(rows, scope).last_evaluated_key is Some,
        0 <= last < rows.len(),
        group_key(rows[last], scope) == page_of(rows, scope).last_evaluated_key->Some_0,
        forall|n: int| last < n < rows.len() ==> group_key(#[trigger] rows[n], scope) != page_of(rows, scope).last_evaluated_key->Some_0,
    ensures
        ({
            let first = page_of(rows, scope);
            let second = page_of(rows.skip(last + 1), scope);
            let key = first.last_evaluated_key->Some_0;
            &&& first.values.len() == scope.limit
            &&& forall|a: int, b: int| 0 <= a < first.values.len() && 0 <= b < second.values.len() ==> (#[trigger] first.values[a]).0 != (#[trigger] second.values[b]).0
            &&& forall|a: int| 0 <= a < first.values.len() ==> (#[trigger] first.values[a]).0 != key && comes_before(rows, scope, first.values[a].0, key)
            &&& forall|b: int| 0 <= b < second.values.len() ==> (#[trigger] second.values[b]).0 != key && has_row(rows.skip(last + 1), scope, second.values[b].0)
        }),
{
    let first = page_of(rows, scope);
    let rest = rows.skip(last + 1);
    let second = page_of(rest, scope);
    let key = first.last_evaluated_key->Some_0;
    let keys = entity_keys(rows, scope);
    let later = entity_keys(rest, scope);
    let limit = scope.limit as int;
    lemma_page_keys(rows, scope);
    lemma_page_keys(rest, scope);
    lemma_entity_keys(rows, scope);
    lemma_entity_keys(rest, scope);
    assert(keys.len() > limit && key == keys[limit]);
    assert(first.values.len() == keys_of_entities(first.values).len());
    assert(second.values.len() == keys_of_entities(second.values).len());
    assert forall|a: int| 0 <= a < first.values.len() implies (#[trigger] first.values[a]).0 != key && comes_before(rows, scope, first.values[a].0, key) by {
        assert(first.values[a].0 == keys_of_entities(first.values)[a]);
        assert(first.values[a].0 == keys[a]);
        assert(keys[a] != keys[limit]);
        assert(comes_before(rows, scope, keys[a], keys[limit]));
    }
    assert forall|b: int| 0 <= b < second.values.len() implies (#[trigger] second.values[b]).0 != key && has_row(rest, scope, second.values[b].0) by {
        assert(second.values[b].0 == keys_of_entities(second.values)[b]);
        assert(second.values[b].0 == later[b]);
        assert(has_row(rest, scope, later[b]));
        let n = choose|n: int| 0 <= n < rest.len() && group_key(#[trigger] rest[n], scope) == later[b];
        assert(rest[n] == rows[n + last + 1]);
    }
    assert forall|a: int, b: int| 0 <= a < first.values.len() && 0 <= b < second.values.len() implies (#[trigger] first.values[a]).0 != (
    #[trigger] second.values[b]).0 by {
        let x = first.values[a].0;
        assert(comes_before(rows, scope, x, key));
        let i = choose|i: int| 0 <= i < rows.len() && group_key(#[trigger] rows[i], scope) == x && no_row_up_to(rows, scope, key, i);
        if last <= i {
            assert(group_key(rows[last], scope) != key);
        }
        assert(has_row(rest, scope, second.values[b].0));
        let n = choose|n: int| 0 <= n < rest.len() && group_key(#[trigger] rest[n], scope) == second.values[b].0;
        let m = n + last + 1;
        assert(rest[n] == rows[m]);
        if second.values[b].0 == x {
            assert(i < last < m);
            assert(group_key(rows[i], scope) == group_key(rows[m], scope));
            assert(group_key(rows[last], scope) == group_key(rows[i], scope));
        }
    }
}

/// Every key among the keys of some rows is the key of one of the rows.
proof fn lemma_key_has_row(rows: Seq<RowModel>, scope: ScopeModel, a: int)
    requires
        0 <= a < entity_keys(rows, scope).len(),
    ensures
        has_row(rows, scope, entity_keys(rows, scope)[a]),
{
    lemma_entity_keys(rows, scope);
}

/// Once an entity has a row, no row behind it belongs to an entity that
/// comes earlier among the keys.
proof fn lemma_no_way_back(rows: Seq<RowModel>, scope: ScopeModel, a: int, b: int, u: int, v: int)
    requires
        grouped(rows, scope),
        0 <= a < b < entity_keys(rows, scope).len(),
        0 <= u < v < rows.len(),
        group_key(rows[u], scope) == entity_keys(rows, scope)[b],
    ensures
        group_key(rows[v], scope) != entity_keys(rows, scope)[a],
{
    let keys = entity_keys(rows, scope);
    lemma_entity_keys(rows, scope);
    assert(keys[a] != keys[b]);
    assert(comes_before(rows, scope, keys[a], keys[b]));
    let i = choose|i: int| 0 <= i < rows.len() && group_key(#[trigger] rows[i], scope) == keys[a] && no_row_up_to(rows, scope, keys[b], i);
    if u <= i {
        assert(group_key(rows[u], scope) != keys[b]);
    }
    if group_key(rows[v], scope) == keys[a] {
        assert(i < u < v);
        assert(group_key(rows[i], scope) == group_key(rows[v], scope));
        assert(group_key(rows[u], scope) == group_key(rows[i], scope));
    }
}

/// Rows without their last are handed out entity by entity if all are.
proof fn lemma_grouped_head(rows: Seq<RowModel>, scope: ScopeModel)
    requires
        grouped(rows, scope),
        rows.len() > 0,
    ensures
        grouped(rows.drop_last(), scope),
{
    let head = rows.drop_last();
    assert forall|i: int, j: int, k: int|
        #![trigger head[i], head[j], head[k]]
        0 <= i < j < k < head.len() && group_key(head[i], scope) == group_key(head[k], scope) implies group_key(head[j], scope) == group_key(
        head[i],
        scope,
    ) by {
        assert(head[i] == rows[i] && head[j] == rows[j] && head[k] == rows[k]);
        assert(group_key(rows[i], scope) == group_key(rows[k], scope));
    }
}

/// The entity of the last row is the last among the keys.
proof fn lemma_last_row_last_key(rows: Seq<RowModel>, scope: ScopeModel, p: int)
    requires
        grouped(rows, scope),
        rows.len() > 0,
        0 <= p < entity_keys(rows, scope).len(),
        entity_keys(rows, scope)[p] == group_key(rows.last(), scope),
    ensures
        p == entity_keys(rows, scope).len() - 1,
{
    let keys = entity_keys(rows, scope);
    if p < keys.len() - 1 {
        let q = p + 1;
        lemma_key_has_row(rows, scope, q);
        let j = choose|j: int| 0 <= j < rows.len() && group_key(#[trigger] rows[j], scope) == keys[q];
        if j < rows.len() - 1 {
            lemma_no_way_back(rows, scope, p, q, j, rows.len() - 1);
        } else {
            lemma_entity_keys(rows, scope);
            assert(keys[p] != keys[q]);
        }
    }
}

/// The entities behind an entity: where the rows of an entity end at the
/// `last`-th row, the entities of the rows behind it are the entities that
/// come after it among all, in the same order.
pub proof fn lemma_entities_behind(rows: Seq<RowModel>, scope: ScopeModel, last: int, p: int)
    requires
        grouped(rows, scope),
        0 <= last < rows.len(),
        forall|n: int| last < n < rows.len() ==> group_key(#[trigger] rows[n], scope) != group_key(rows[last], scope),
        0 <= p < entity_keys(rows, scope).len(),
        entity_keys(rows, scope)[p] == group_key(rows[last], scope),
    ensures
        entity_keys(rows.skip(last + 1), scope) == entity_keys(rows, scope).skip(p + 1),
    decreases rows.len(),
{
    let keys = entity_keys(rows, scope);
    let key = group_key(rows[last], scope);
    let head = rows.drop_last();
    let row = rows.last();
    let before = entity_keys(head, scope);
    if last == rows.len() - 1 {
        assert(rows.skip(last + 1) =~= Seq::empty());
        lemma_last_row_last_key(rows, scope, p);
        assert(keys.skip(p + 1) =~= Seq::empty());
    } else {
        let other = group_key(row, scope);
        assert(rows[rows.len() - 1] == row);
        assert(other != key);
        lemma_grouped_head(rows, scope);
        assert(head[last] == rows[last]);
        assert forall|n: int| last < n < head.len() implies group_key(#[trigger] head[n], scope) != group_key(head[last], scope) by {
            assert(head[n] == rows[n]);
        }
        assert(p < before.len() && before[p] == key) by {
            if p >= before.len() {
                assert(keys[p] == other);
            }
        }
        lemma_entities_behind(head, scope, last, p);
        let rest = rows.skip(last + 1);
        let behind = entity_keys(head.skip(last + 1), scope);
        assert(rest.drop_last() =~= head.skip(last + 1));
        assert(rest.last() == row);
        assert(behind == before.skip(p + 1));
        if before.contains(other) {
            let q = choose|q: int| 0 <= q < before.len() && before[q] == other;
            assert(keys == before);
            if q < p {
                lemma_no_way_back(rows, scope, q, p, last, rows.len() - 1);
            }
            assert(q > p);
            assert(behind[q - p - 1] == other);
            assert(behind.contains(other));
        } else {
            if behind.contains(other) {
                let q = choose|q: int| 0 <= q < behind.len() && behind[q] == other;
                assert(before[q + p + 1] == other);
            }
            assert(behind.push(other) =~= before.push(other).skip(p + 1));
        }
    }
}

/// The page behind a page. Where a page hands out a key to continue after,
/// and the next page is made of the rows behind the last row of the entity
/// of that key, the first page holds the first entities of the scan, as
/// many as the page size, and the next page holds the entities behind the
/// entity of the key, in their order and as many as the page size allows.
/// So both pages are as long as the page size where the scan has that many
/// entities, and the one entity between them is the entity of the key.
pub proof fn lemma_next_page_holds_the_next_entities(rows: Seq<RowModel>, scope: ScopeModel, last: int)
    requires
        grouped(rows, scope),
        page_of(rows, scope).last_evaluated_key is Some,
        0 <= last < rows.len(),
        group_key(rows[last], scope) == page_of(rows, scope).last_evaluated_key->Some_0,
        forall|n: int| last < n < rows.len() ==> group_key(#[trigger] rows[n], scope) != page_of(rows, scope).last_evaluated_key->Some_0,
    ensures
        entity_keys(rows, scope).len() > scope.limit,
        keys_of_entities(page_of(rows, scope).values) == entity_keys(rows, scope).take(scope.limit as int),
        page_of(rows, scope).last_evaluated_key == Some(entity_keys(rows, scope)[scope.limit as int]),
        keys_of_entities(page_of(rows.skip(last + 1), scope).values) == entity_keys(rows, scope).subrange(
            scope.limit + 1,
            if entity_keys(rows, scope).len() > 2 * scope.limit + 1 {
                2 * scope.limit + 1
            } else {
                entity_keys(rows, scope).len() as int
            },
        ),
{
    let keys = entity_keys(rows, scope);
    let limit = scope.limit as int;
    let rest = rows.skip(last + 1);
    lemma_page_keys(rows, scope);
    lemma_page_keys(rest, scope);
    lemma_entities_behind(rows, scope, last, limit);
    let later = entity_keys(rest, scope);
    assert(later == keys.skip(limit + 1));
    if later.len() > limit {
        assert(later.take(limit) =~= keys.subrange(limit + 1, 2 * limit + 1));
    } else {
        assert(later =~= keys.subrange(limit + 1, keys.len() as int));
    }
}

/// Taking in two runs of rows, one behind the other, is taking in the first
/// and then the second.
pub proof fn lemma_absorbed_rows_concat(state: QueryResultModel, a: Seq<RowModel>, b: Seq<RowModel>, scope: ScopeModel)
    ensures
        absorbed_rows(state, a + b, scope) == absorbed_rows(absorbed_rows(state, a, scope), b, scope),
    decreases b.len(),
{
    if b.len() == 0 {
        assert(a + b =~= a);
    } else {
        lemma_absorbed_rows_concat(state, a, b.drop_last(), scope);
        assert((a + b).drop_last() =~= a + b.drop_last());
        assert((a + b).last() == b.last());
    }
}

/// A result that holds more entities than the page size takes no more rows in.
pub proof fn lemma_full_result_takes_nothing(state: QueryResultModel, rows: Seq<RowModel>, scope: ScopeModel)
    requires
        state.values.len() > scope.limit,
    ensures
        absorbed_rows(state, rows, scope) == state,
    decreases rows.len(),
{
    if rows.len() > 0 {
        lemma_full_result_takes_nothing(state, rows.drop_last(), scope);
    }
}

/// A result has a key to continue after only once it holds more entities
/// than the page size.
pub open spec fn is_open(state: QueryResultModel, scope: ScopeModel) -> bool {
    state.values.len() <= scope.limit ==> state.last_evaluated_key is None
}

/// Taking rows in keeps a result without a key to continue after until it
/// holds more entities than the page size.
pub proof fn lemma_absorbed_rows_open(state: QueryResultModel, rows: Seq<RowModel>, scope: ScopeModel)
    requires
        is_open(state, scope),
    ensures
        is_open(absorbed_rows(state, rows, scope), scope),
    decreases rows.len(),
{
    if rows.len() > 0 {
        lemma_absorbed_rows_open(state, rows.drop_last(), scope);
    }
}

/// The rows that a query reads from the responses `pages[from..]`, starting
/// from `state`: those of each response up to the one that ends the query.
pub open spec fn rows_read(state: QueryResultModel, pages: Seq<PageModel>, from: int, scope: ScopeModel) -> Seq<RowModel>
    decreases pages.len() - from,
{
    if from < 0 || from >= pages.len() {
        Seq::empty()
    } else {
        let taken = absorbed_rows(state, pages[from].rows, scope);
        if taken.values.len() > scope.limit || !pages[from].has_more {
            pages[from].rows
        } else {
            pages[from].rows + rows_read(trimmed(taken, scope.limit), pages, from + 1, scope)
        }
    }
}

/// A query that is answered in several responses gathers what one response
/// with all the rows that it read would give. It starts from a result that
/// is no full page yet.
pub proof fn lemma_responses_are_one_scan(state: QueryResultModel, pages: Seq<PageModel>, from: int, scope: ScopeModel)
    requires
        state.values.len() <= scope.limit,
        state.last_evaluated_key is None,
        0 <= from,
    ensures
        collected(state, pages, from, scope) == trimmed(absorbed_rows(state, rows_read(state, pages, from, scope), scope), scope.limit),
    decreases pages.len() - from,
{
    if from < pages.len() {
        let taken = absorbed_rows(state, pages[from].rows, scope);
        lemma_absorbed_rows_open(state, pages[from].rows, scope);
        if taken.values.len() > scope.limit || !pages[from].has_more {
        } else {
            assert(trimmed(taken, scope.limit) == taken);
            lemma_responses_are_one_scan(taken, pages, from + 1, scope);
            lemma_absorbed_rows_concat(state, pages[from].rows, rows_read(taken, pages, from + 1, scope), scope);
        }
    }
}

/// A query over a scan of the store gathers the page of the scan, however
/// many responses the store answers in: the responses hand out the rows of
/// the scan in their order, and the query ends when its page is full or the
/// scan has no more rows.
pub proof fn lemma_query_is_the_page_of_the_scan(rows: Seq<RowModel>, pages: Seq<PageModel>, scope: ScopeModel)
    requires
        ({
            let read = rows_read(empty_result(), pages, 0, scope);
            &&& read.len() <= rows.len()
            &&& rows.take(read.len() as int) == read
            &&& absorbed_rows(empty_result(), read, scope).values.len() > scope.limit || read.len() == rows.len()
        }),
    ensures
        collected(empty_result(), pages, 0, scope) == page_of(rows, scope),
{
    let read = rows_read(empty_result(), pages, 0, scope);
    lemma_responses_are_one_scan(empty_result(), pages, 0, scope);
    let more = rows.skip(read.len() as int);
    assert(rows =~= read + more);
    lemma_absorbed_rows_concat(empty_result(), read, more, scope);
    if absorbed_rows(empty_result(), read, scope).values.len() > scope.limit {
        lemma_full_result_takes_nothing(absorbed_rows(empty_result(), read, scope), more, scope);
    } else {
        assert(more =~= Seq::empty());
    }
}

} // verus!
