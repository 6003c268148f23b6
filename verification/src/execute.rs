//! From a plan to the writes: the rows of each selection, once the store has
//! been asked, and the writes of each planned transaction.

use crate::item::AttrModel;
use crate::mutation::{MutationPlan, Selection, SelectionModel, Transaction, TransactionModel};
use crate::node_types::{find_type, type_index_from, NodeType, NodeTypeModel};
use crate::text::views;
use crate::update::{apply_update, update_transactions, update_writes, updated_rows};
use crate::writes::{create_relation_node, relation_edge, relation_remove, relation_removals, SelectedModel, SelectedRow, TxItem, TxModel, WriteModel, WriteOp};
use vstd::prelude::*;

verus! {

/// The keys that a selection needs loaded from the store.
pub open spec fn keys_to_load(selection: SelectionModel) -> Seq<(Seq<char>, Seq<char>)> {
    match selection {
        SelectionModel::Load { keys } => keys,
        SelectionModel::Updated { id, .. } => seq![(id, id)],
        _ => Seq::empty(),
    }
}

/// The keys that a selection needs loaded from the store.
pub fn selection_keys(selection: &Selection) -> (r: Vec<(String, String)>)
    ensures
        r.deep_view() == keys_to_load(selection@),
{
    let mut out: Vec<(String, String)> = Vec::new();
    match selection {
        Selection::Load { keys } => {
            let mut i: usize = 0;
            while i < keys.len()
                invariant
                    i <= keys.len(),
                    out.len() == i,
                    forall|j: int| 0 <= j < i ==> out[j].0@ == keys[j].0@ && out[j].1@ == keys[j].1@,
                decreases keys.len() - i,
            {
                out.push((keys[i].0.clone(), keys[i].1.clone()));
                i = i + 1;
            }
            assert(out.deep_view() =~= keys.deep_view());
        },
        Selection::Updated { id, .. } => {
            out.push((id.clone(), id.clone()));
            assert(out.deep_view() =~= seq![(id@, id@)]);
        },
        _ => {
            assert(out.deep_view() =~= Seq::empty());
        },
    }
    out
}

/// The rows of the selection at position `i`, given the rows of the
/// selections before it and what the store returned for this one: a
/// projection is its own row, loaded rows are what the store returned, an
/// update is what the store returned with the update applied, and a joined
/// selection has the rows of the selection that it waits for.
pub open spec fn rows_of_selection(
    selection: SelectionModel,
    earlier: Seq<Seq<SelectedModel>>,
    loaded: Seq<SelectedModel>,
    now: Seq<char>,
) -> Seq<SelectedModel> {
    match selection {
        SelectionModel::Projected { row } => seq![row],
        SelectionModel::Load { .. } => loaded,
        SelectionModel::Updated { fields, .. } => updated_rows(loaded, fields, now),
        SelectionModel::Joined { updated, .. } => if updated < earlier.len() {
            earlier[updated as int]
        } else {
            Seq::empty()
        },
        SelectionModel::Empty => Seq::empty(),
    }
}

/// The rows of the first `n` selections of a plan, given what the store
/// returned for each of them.
pub open spec fn rows_of_selections(
    selections: Seq<SelectionModel>,
    loaded: Seq<Seq<SelectedModel>>,
    now: Seq<char>,
    n: nat,
) -> Seq<Seq<SelectedModel>>
    decreases n,
{
    if n == 0 {
        Seq::empty()
    } else {
        let earlier = rows_of_selections(selections, loaded, now, (n - 1) as nat);
        earlier.push(rows_of_selection(selections[n - 1], earlier, loaded[n - 1], now))
    }
}

fn copy_rows(rows: &Vec<SelectedRow>) -> (r: Vec<SelectedRow>)
    ensures
        r.deep_view() == rows.deep_view(),
{
    let mut out: Vec<SelectedRow> = Vec::new();
    let mut i: usize = 0;
    while i < rows.len()
        invariant
            i <= rows.len(),
            out.len() == i,
            forall|j: int| 0 <= j < i ==> out[j]@ == rows[j]@,
        decreases rows.len() - i,
    {
        out.push(rows[i].duplicate());
        i = i + 1;
    }
    assert(out.deep_view() =~= rows.deep_view());
    out
}

/// Works out the rows of every selection of a plan. `loaded[i]` holds what
/// the store returned for the keys of selection `i`.
pub fn selected_rows(plan: &MutationPlan, loaded: &Vec<Vec<SelectedRow>>, now: &str) -> (r: Vec<Vec<SelectedRow>>)
    requires
        loaded.len() == plan.selections.len(),
    ensures
        r.deep_view() == rows_of_selections(plan@.selections, loaded.deep_view(), now@, plan.selections.len() as nat),
{
    let mut out: Vec<Vec<SelectedRow>> = Vec::new();
    assert(out.deep_view() =~= Seq::empty());
    let mut i: usize = 0;
    while i < plan.selections.len()
        invariant
            i <= plan.selections.len(),
            loaded.len() == plan.selections.len(),
            out.deep_view() == rows_of_selections(plan@.selections, loaded.deep_view(), now@, i as nat),
        decreases plan.selections.len() - i,
    {
        assert(plan@.selections[i as int] == plan.selections[i as int]@);
        assert(loaded.deep_view()[i as int] == loaded[i as int].deep_view());
        let ghost earlier = out.deep_view();
        assert(earlier.len() == out.len());
        let rows = match &plan.selections[i] {
            Selection::Projected { row } => {
                let mut rows: Vec<SelectedRow> = Vec::new();
                rows.push(row.duplicate());
                assert(rows.deep_view() =~= seq![row@]);
                rows
            },
            Selection::Load { .. } => copy_rows(&loaded[i]),
            Selection::Updated { fields, .. } => apply_update(&loaded[i], fields, now),
            Selection::Joined { updated, .. } => {
                if *updated < out.len() {
                    assert(earlier[*updated as int] == out[*updated as int].deep_view());
                    copy_rows(&out[*updated])
                } else {
                    let rows: Vec<SelectedRow> = Vec::new();
                    assert(rows.deep_view() =~= Seq::empty());
                    rows
                }
            },
            Selection::Empty => {
                let rows: Vec<SelectedRow> = Vec::new();
                assert(rows.deep_view() =~= Seq::empty());
                rows
            },
        };
        let ghost model = rows.deep_view();
        out.push(rows);
        assert(out.deep_view() =~= earlier.push(model));
        i = i + 1;
    }
    out
}

/// The write that stores the row of a new node.
pub open spec fn put_of(id: Seq<char>, item: Seq<(Seq<char>, AttrModel)>, table: Seq<char>) -> TxModel {
    TxModel { pk: id, sk: id, relation_name: None, transaction: WriteModel::Put { table_name: table, item } }
}

/// The writes of one planned transaction, given the rows of the selections
/// and the partition keys of the copies of the node that is updated.
pub open spec fn writes_of(
    types: Seq<NodeTypeModel>,
    transaction: TransactionModel,
    rows: Seq<Seq<SelectedModel>>,
    duplicates: Seq<Seq<char>>,
    now: Seq<char>,
    table: Seq<char>,
) -> Seq<TxModel> {
    match transaction {
        TransactionModel::PutNode { id, item } => seq![put_of(id, item, table)],
        TransactionModel::RelationNode { to_ty, described, owner, relation_name } => {
            let t = type_index_from(types, to_ty, 0);
            if t < types.len() && described < rows.len() && owner < rows.len() {
                match relation_edge(types[t], rows[described as int], rows[owner as int], relation_name, table) {
                    Some(write) => seq![write],
                    None => Seq::empty(),
                }
            } else {
                Seq::empty()
            }
        },
        TransactionModel::RelationRemove { from, to, relation_name } => if from < rows.len() {
            relation_removals(rows[from as int], to, table, rows[from as int].len())
        } else {
            Seq::empty()
        },
        TransactionModel::UpdateNode { id, basic } => update_writes(id, basic, now, duplicates, table),
    }
}

/// The writes of the first `n` planned transactions, in their order.
pub open spec fn all_writes(
    types: Seq<NodeTypeModel>,
    transactions: Seq<TransactionModel>,
    rows: Seq<Seq<SelectedModel>>,
    duplicates: Seq<Seq<char>>,
    now: Seq<char>,
    table: Seq<char>,
    n: nat,
) -> Seq<TxModel>
    decreases n,
{
    if n == 0 {
        Seq::empty()
    } else {
        all_writes(types, transactions, rows, duplicates, now, table, (n - 1) as nat) + writes_of(
            types,
            transactions[n - 1],
            rows,
            duplicates,
            now,
            table,
        )
    }
}

/// Builds the writes of one planned transaction.
pub fn transaction_items(
    types: &Vec<NodeType>,
    transaction: &Transaction,
    rows: &Vec<Vec<SelectedRow>>,
    duplicates: &Vec<String>,
    now: &str,
    table: &str,
) -> (r: Vec<TxItem>)
    requires
        duplicates.len() < usize::MAX,
    ensures
        r.deep_view() == writes_of(types.deep_view(), transaction@, rows.deep_view(), views(duplicates@), now@, table@),
{
    match transaction {
        Transaction::PutNode { id, item } => {
            let mut out: Vec<TxItem> = Vec::new();
            out.push(
                TxItem {
                    pk: id.clone(),
                    sk: id.clone(),
                    relation_name: None,
                    transaction: WriteOp::Put { table_name: table.to_owned(), item: item.duplicate() },
                },
            );
            assert(out.deep_view() =~= seq![put_of(id@, item@, table@)]);
            out
        },
        Transaction::RelationNode { to_ty, described, owner, relation_name } => {
            let mut out: Vec<TxItem> = Vec::new();
            assert(out.deep_view() =~= Seq::empty());
            let t = find_type(types, to_ty.as_str());
            if t < types.len() && *described < rows.len() && *owner < rows.len() {
                assert(types.deep_view()[t as int] == types[t as int]@);
                assert(rows.deep_view()[*described as int] == rows[*described as int].deep_view());
                assert(rows.deep_view()[*owner as int] == rows[*owner as int].deep_view());
                match create_relation_node(&types[t], &rows[*described], &rows[*owner], relation_name.as_str(), table) {
                    Some(write) => {
                        let ghost model = write@;
                        out.push(write);
                        assert(out.deep_view() =~= seq![model]);
                    },
                    None => {},
                }
            }
            out
        },
        Transaction::RelationRemove { from, to, relation_name } => {
            if *from < rows.len() {
                assert(rows.deep_view()[*from as int] == rows[*from as int].deep_view());
                relation_remove(&rows[*from], to.as_str(), table)
            } else {
                let out: Vec<TxItem> = Vec::new();
                assert(out.deep_view() =~= Seq::empty());
                out
            }
        },
        Transaction::UpdateNode { id, basic } => update_transactions(id.as_str(), basic, now, duplicates, table),
    }
}

/// Builds the writes of the planned transactions, in their order.
pub fn write_items(
    types: &Vec<NodeType>,
    transactions: &Vec<Transaction>,
    rows: &Vec<Vec<SelectedRow>>,
    duplicates: &Vec<String>,
    now: &str,
    table: &str,
) -> (r: Vec<TxItem>)
    requires
        duplicates.len() < usize::MAX,
    ensures
        r.deep_view() == all_writes(
            types.deep_view(),
            transactions.deep_view(),
            rows.deep_view(),
            views(duplicates@),
            now@,
            table@,
            transactions.len() as nat,
        ),
{
    let mut out: Vec<TxItem> = Vec::new();
    assert(out.deep_view() =~= Seq::empty());
    let mut i: usize = 0;
    while i < transactions.len()
        invariant
            i <= transactions.len(),
            duplicates.len() < usize::MAX,
            out.deep_view() == all_writes(types.deep_view(), transactions.deep_view(), rows.deep_view(), views(duplicates@), now@, table@, i as nat),
        decreases transactions.len() - i,
    {
        assert(transactions.deep_view()[i as int] == transactions[i as int]@);
        let mut more = transaction_items(types, &transactions[i], rows, duplicates, now, table);
        let ghost before = out.deep_view();
        let ghost added = more.deep_view();
        out.append(&mut more);
        assert(out.deep_view() =~= before + added);
        i = i + 1;
    }
    out
}

} // verus!
