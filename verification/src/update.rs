//! Updating a node: the projection of the updated rows, and the writes that
//! carry the new values to the node and to each of its copies.

use crate::assoc::put;
use crate::input::{attribute_of, InputModel, InputValue};
use crate::item::{AttrModel, AttrValue, Item};
use crate::ordered::OrderedMap;
use crate::paginated::{entity_rows, every_row_of, QueryResult, QueryValueModel};
use crate::row::{text_attr, PK, SK};
use crate::text::{concat2, concat3, join_strings, joined, views};
use crate::writes::{key_of, value_placeholder, SelectedModel, SelectedRow, TxItem, TxModel, WriteModel, WriteOp};
use vstd::prelude::*;

verus! {

/// The attribute that holds the time of the last update.
pub const UPDATED_AT: &'static str = "updated_at";

/// The attribute that holds the time of creation.
pub const CREATED_AT: &'static str = "created_at";

/// An item with the first `n` fields of an input stored under their names.
pub open spec fn with_fields(item: Seq<(Seq<char>, AttrModel)>, fields: Seq<(Seq<char>, InputModel)>, n: nat) -> Seq<(Seq<char>, AttrModel)>
    decreases n,
{
    if n == 0 {
        item
    } else {
        put(with_fields(item, fields, (n - 1) as nat), fields[n - 1].0, attribute_of(fields[n - 1].1))
    }
}

/// A row as it will be after an update: the new values under their names,
/// and, where any value changes, the time of the update.
pub open spec fn updated_item(item: Seq<(Seq<char>, AttrModel)>, fields: Seq<(Seq<char>, InputModel)>, now: Seq<char>) -> Seq<(Seq<char>, AttrModel)> {
    if fields.len() > 0 {
        put(with_fields(item, fields, fields.len()), UPDATED_AT@, AttrModel::S(now))
    } else {
        item
    }
}

/// The rows of a selection as they will be after an update.
pub open spec fn updated_rows(rows: Seq<SelectedModel>, fields: Seq<(Seq<char>, InputModel)>, now: Seq<char>) -> Seq<SelectedModel> {
    Seq::new(rows.len(), |i: int| SelectedModel { pk: rows[i].pk, sk: rows[i].sk, item: updated_item(rows[i].item, fields, now) })
}

/// Stores the fields of an input in an item, each under its name.
pub fn store_fields(item: &mut Item, fields: &Vec<(String, InputValue)>)
    ensures
        final(item)@ == with_fields(old(item)@, fields.deep_view(), fields.len() as nat),
{
    let mut i: usize = 0;
    while i < fields.len()
        invariant
            i <= fields.len(),
            item@ == with_fields(old(item)@, fields.deep_view(), i as nat),
        decreases fields.len() - i,
    {
        assert(fields.deep_view()[i as int] == (fields[i as int].0@, fields[i as int].1@));
        item.insert(fields[i].0.clone(), fields[i].1.to_attribute());
        i = i + 1;
    }
}

/// Projects an update onto the rows that were loaded for a node.
pub fn apply_update(rows: &Vec<SelectedRow>, fields: &Vec<(String, InputValue)>, now: &str) -> (r: Vec<SelectedRow>)
    ensures
        r.deep_view() == updated_rows(rows.deep_view(), fields.deep_view(), now@),
{
    let mut out: Vec<SelectedRow> = Vec::new();
    let mut i: usize = 0;
    while i < rows.len()
        invariant
            i <= rows.len(),
            out.len() == i,
            forall|j: int| 0 <= j < i ==> out[j]@ == updated_rows(rows.deep_view(), fields.deep_view(), now@)[j],
        decreases rows.len() - i,
    {
        let mut item = rows[i].item.duplicate();
        store_fields(&mut item, fields);
        if fields.len() > 0 {
            item.insert(UPDATED_AT.to_owned(), AttrValue::string(now));
        }
        assert(rows.deep_view()[i as int] == rows[i as int]@);
        out.push(SelectedRow { pk: rows[i].pk.clone(), sk: rows[i].sk.clone(), item });
        i = i + 1;
    }
    assert(out.deep_view() =~= updated_rows(rows.deep_view(), fields.deep_view(), now@));
    out
}

/// The rows of all entities of a result, entity by entity.
pub open spec fn result_rows(values: Seq<(Seq<char>, QueryValueModel)>) -> Seq<Seq<(Seq<char>, AttrModel)>>
    decreases values.len(),
{
    if values.len() == 0 {
        Seq::empty()
    } else {
        result_rows(values.drop_last()) + entity_rows(values.last().1)
    }
}

/// The partition keys of the first `n` rows, for the rows that hold one as a string.
pub open spec fn partition_keys(rows: Seq<Seq<(Seq<char>, AttrModel)>>, n: nat) -> Seq<Seq<char>>
    decreases n,
{
    if n == 0 {
        Seq::empty()
    } else {
        match text_attr(rows[n - 1], PK@) {
            Some(pk) => partition_keys(rows, (n - 1) as nat).push(pk),
            None => partition_keys(rows, (n - 1) as nat),
        }
    }
}

/// The rows of all entities of a result: nodes and edges, without constraints.
pub fn all_rows(found: &QueryResult) -> (r: Vec<&Item>)
    ensures
        r.deep_view() == result_rows(found@.values),
{
    let mut out: Vec<&Item> = Vec::new();
    assert(out.deep_view() =~= Seq::empty());
    let mut i: usize = 0;
    while i < found.values.len()
        invariant
            i <= found@.values.len(),
            out.deep_view() == result_rows(found@.values.take(i as int)),
        decreases found@.values.len() - i,
    {
        let rows = found.values.value_at(i).iter();
        let ghost start = out.deep_view();
        let mut j: usize = 0;
        while j < rows.len()
            invariant
                j <= rows.len(),
                out.deep_view() == start + rows.deep_view().take(j as int),
            decreases rows.len() - j,
        {
            let ghost before = out.deep_view();
            out.push(rows[j]);
            assert(out.deep_view() =~= before.push(rows[j as int]@));
            assert(rows.deep_view().take(j + 1) =~= rows.deep_view().take(j as int).push(rows[j as int]@));
            j = j + 1;
        }
        proof {
            assert(rows.deep_view().take(rows.len() as int) =~= rows.deep_view());
            assert(found@.values.take(i + 1).drop_last() =~= found@.values.take(i as int));
            assert(found@.values.take(i + 1).last() == found@.values[i as int]);
        }
        i = i + 1;
    }
    assert(found@.values.take(found@.values.len() as int) =~= found@.values);
    out
}

/// Every row of all entities of a result, entity by entity: nodes, edges
/// and constraints.
pub open spec fn every_result_row(values: Seq<(Seq<char>, QueryValueModel)>) -> Seq<Seq<(Seq<char>, AttrModel)>>
    decreases values.len(),
{
    if values.len() == 0 {
        Seq::empty()
    } else {
        every_result_row(values.drop_last()) + every_row_of(values.last().1)
    }
}

/// Every row of all entities of a result: nodes, edges and constraints.
pub fn every_row(found: &QueryResult) -> (r: Vec<&Item>)
    ensures
        r.deep_view() == every_result_row(found@.values),
{
    let mut out: Vec<&Item> = Vec::new();
    assert(out.deep_view() =~= Seq::empty());
    let mut i: usize = 0;
    while i < found.values.len()
        invariant
            i <= found@.values.len(),
            out.deep_view() == every_result_row(found@.values.take(i as int)),
        decreases found@.values.len() - i,
    {
        let rows = found.values.value_at(i).rows();
        let ghost start = out.deep_view();
        let mut j: usize = 0;
        while j < rows.len()
            invariant
                j <= rows.len(),
                out.deep_view() == start + rows.deep_view().take(j as int),
            decreases rows.len() - j,
        {
            let ghost before = out.deep_view();
            out.push(rows[j]);
            assert(out.deep_view() =~= before.push(rows[j as int]@));
            assert(rows.deep_view().take(j + 1) =~= rows.deep_view().take(j as int).push(rows[j as int]@));
            j = j + 1;
        }
        proof {
            assert(rows.deep_view().take(rows.len() as int) =~= rows.deep_view());
            assert(found@.values.take(i + 1).drop_last() =~= found@.values.take(i as int));
            assert(found@.values.take(i + 1).last() == found@.values[i as int]);
        }
        i = i + 1;
    }
    assert(found@.values.take(found@.values.len() as int) =~= found@.values);
    out
}

/// The rows that a lookup found, where it found any: every row of every
/// entity, whatever its kind.
pub open spec fn found_rows(found: Option<QueryResult>) -> Seq<Seq<(Seq<char>, AttrModel)>> {
    match found {
        Some(result) => every_result_row(result@.values),
        None => Seq::empty(),
    }
}

/// The copies of a node that a lookup by sort key found: the nodes and edges
/// of what it found.
pub open spec fn found_copies(found: Option<QueryResult>) -> Seq<Seq<(Seq<char>, AttrModel)>> {
    match found {
        Some(result) => result_rows(result@.values),
        None => Seq::empty(),
    }
}

/// The partition keys of the copies of a node: of every node and edge row
/// that the lookup by sort key found.
pub fn duplicate_keys(found: &Option<QueryResult>) -> (r: Vec<String>)
    ensures
        views(r@) == partition_keys(found_copies(*found), found_copies(*found).len()),
{
    let mut out: Vec<String> = Vec::new();
    match found {
        None => {
            assert(views(out@) =~= Seq::empty());
        },
        Some(result) => {
            let rows = all_rows(result);
            let mut i: usize = 0;
            assert(views(out@) =~= Seq::empty());
            while i < rows.len()
                invariant
                    i <= rows.len(),
                    views(out@) == partition_keys(rows.deep_view(), i as nat),
                decreases rows.len() - i,
            {
                let ghost before = out@;
                match rows[i].text(PK) {
                    Some(pk) => {
                        out.push(pk);
                        assert(views(out@) =~= views(before).push(pk@));
                    },
                    None => {},
                }
                i = i + 1;
            }
        },
    }
    out
}

/// The assignments of the first `n` fields of an update.
pub open spec fn update_assignments(fields: Seq<(Seq<char>, InputModel)>, n: nat) -> Seq<Seq<char>>
    decreases n,
{
    if n == 0 {
        Seq::empty()
    } else {
        update_assignments(fields, (n - 1) as nat).push(fields[n - 1].0 + "="@ + value_placeholder(fields[n - 1].0))
    }
}

/// The values of the first `n` fields of an update, under their placeholders.
pub open spec fn update_values(fields: Seq<(Seq<char>, InputModel)>, n: nat) -> Seq<(Seq<char>, AttrModel)>
    decreases n,
{
    if n == 0 {
        Seq::empty()
    } else {
        put(update_values(fields, (n - 1) as nat), value_placeholder(fields[n - 1].0), attribute_of(fields[n - 1].1))
    }
}

/// The fields that an update assigns: those of the input and the time of the update.
pub open spec fn assigned_fields(basic: Seq<(Seq<char>, InputModel)>, now: Seq<char>) -> Seq<(Seq<char>, InputModel)> {
    basic.push((UPDATED_AT@, InputModel::Text(now)))
}

/// The write that updates one copy of a node: the row with the copy's
/// partition key and the node's identifier as its sort key, which has to exist.
pub open spec fn update_of(pk: Seq<char>, id: Seq<char>, basic: Seq<(Seq<char>, InputModel)>, now: Seq<char>, table: Seq<char>) -> TxModel {
    let fields = assigned_fields(basic, now);
    TxModel {
        pk,
        sk: id,
        relation_name: None,
        transaction: WriteModel::Update {
            table_name: table,
            key: seq![(PK@, AttrModel::S(pk)), (SK@, AttrModel::S(id))],
            condition_expression: Some("attribute_exists(#pk) AND attribute_exists(#sk)"@),
            update_expression: "set "@ + joined(update_assignments(fields, fields.len()), ","@),
            expression_attribute_values: update_values(fields, fields.len()),
            expression_attribute_names: seq![("#pk"@, PK@), ("#sk"@, SK@)],
        },
    }
}

/// The writes of an update: none where no plain field changes; else one for
/// the node itself and one for each of its copies, all with the same values.
pub open spec fn update_writes(id: Seq<char>, basic: Seq<(Seq<char>, InputModel)>, now: Seq<char>, duplicates: Seq<Seq<char>>, table: Seq<char>) -> Seq<
    TxModel,
> {
    if basic.len() == 0 {
        Seq::empty()
    } else {
        Seq::new(
            duplicates.len() + 1,
            |i: int|
                update_of(
                    if i == 0 {
                        id
                    } else {
                        duplicates[i - 1]
                    },
                    id,
                    basic,
                    now,
                    table,
                ),
        )
    }
}

fn update_for(pk: &str, id: &str, fields: &Vec<(String, InputValue)>, expression: &str, table: &str) -> (r: TxItem)
    requires
        fields.len() > 0,
        fields.deep_view().last().0 == UPDATED_AT@,
        fields.deep_view().last().1 is Text,
        expression@ == "set "@ + joined(update_assignments(fields.deep_view(), fields.len() as nat), ","@),
    ensures
        r@ == update_of(pk@, id@, fields.deep_view().drop_last(), fields.deep_view().last().1->Text_0, table@),
{
    let mut values = Item::new();
    let mut i: usize = 0;
    while i < fields.len()
        invariant
            i <= fields.len(),
            values@ == update_values(fields.deep_view(), i as nat),
        decreases fields.len() - i,
    {
        assert(fields.deep_view()[i as int] == (fields[i as int].0@, fields[i as int].1@));
        values.insert(concat2(":", fields[i].0.as_str()), fields[i].1.to_attribute());
        i = i + 1;
    }
    let mut names: OrderedMap<String> = OrderedMap::new();
    proof {
        crate::assoc::lemma_put_absent(Seq::<(Seq<char>, Seq<char>)>::empty(), "#pk"@, PK@);
    }
    names.insert("#pk".to_owned(), PK.to_owned());
    proof {
        assert(names@ =~= seq![("#pk"@, PK@)]);
        reveal_strlit("#pk");
        reveal_strlit("#sk");
        assert("#pk"@ != "#sk"@) by {
            assert("#pk"@[1] == 'p');
            assert("#sk"@[1] == 's');
        }
        crate::assoc::lemma_put_absent(names@, "#sk"@, SK@);
    }
    names.insert("#sk".to_owned(), SK.to_owned());
    assert(names@ =~= seq![("#pk"@, PK@), ("#sk"@, SK@)]);
    proof {
        let all = fields.deep_view();
        assert(assigned_fields(all.drop_last(), all.last().1->Text_0) =~= all);
    }
    TxItem {
        pk: pk.to_owned(),
        sk: id.to_owned(),
        relation_name: None,
        transaction: WriteOp::Update {
            table_name: table.to_owned(),
            key: key_of(pk, id),
            condition_expression: Some("attribute_exists(#pk) AND attribute_exists(#sk)".to_owned()),
            update_expression: expression.to_owned(),
            expression_attribute_values: values,
            expression_attribute_names: names,
        },
    }
}

/// Builds the writes of an update of a node with these copies.
pub fn update_transactions(id: &str, basic: &Vec<(String, InputValue)>, now: &str, duplicates: &Vec<String>, table: &str) -> (r: Vec<TxItem>)
    requires
        duplicates.len() < usize::MAX,
    ensures
        r.deep_view() == update_writes(id@, basic.deep_view(), now@, views(duplicates@), table@),
{
    let mut transactions: Vec<TxItem> = Vec::new();
    if basic.len() == 0 {
        assert(transactions.deep_view() =~= Seq::empty());
        return transactions;
    }
    let mut fields = crate::input::duplicate_fields(basic);
    let ghost copied = fields.deep_view();
    fields.push((UPDATED_AT.to_owned(), InputValue::text(now)));
    assert(fields.deep_view() =~= assigned_fields(basic.deep_view(), now@)) by {
        assert(fields.deep_view() =~= copied.push((UPDATED_AT@, InputModel::Text(now@))));
    }
    let mut phrases: Vec<String> = Vec::new();
    let mut i: usize = 0;
    while i < fields.len()
        invariant
            i <= fields.len(),
            views(phrases@) == update_assignments(fields.deep_view(), i as nat),
        decreases fields.len() - i,
    {
        let name = fields[i].0.as_str();
        let idx = concat2(":", name);
        let ghost before = phrases@;
        phrases.push(concat3(name, "=", idx.as_str()));
        assert(fields.deep_view()[i as int].0 == name@);
        assert(views(phrases@) =~= views(before).push(name@ + "="@ + value_placeholder(name@)));
        i = i + 1;
    }
    let assignments = join_strings(&phrases, ",");
    let expression = concat2("set ", assignments.as_str());
    let ghost wanted = update_writes(id@, basic.deep_view(), now@, views(duplicates@), table@);
    proof {
        assert(fields.deep_view().drop_last() =~= basic.deep_view());
    }
    transactions.push(update_for(id, id, &fields, expression.as_str(), table));
    let mut k: usize = 0;
    while k < duplicates.len()
        invariant
            k <= duplicates.len(),
            duplicates.len() < usize::MAX,
            fields.len() > 0,
            fields.deep_view().last().0 == UPDATED_AT@,
            fields.deep_view().last().1 == InputModel::Text(now@),
            fields.deep_view().drop_last() == basic.deep_view(),
            basic.len() > 0,
            expression@ == "set "@ + joined(update_assignments(fields.deep_view(), fields.len() as nat), ","@),
            wanted == update_writes(id@, basic.deep_view(), now@, views(duplicates@), table@),
            transactions.len() == k + 1,
            forall|j: int| 0 <= j < k + 1 ==> transactions[j]@ == wanted[j],
        decreases duplicates.len() - k,
    {
        assert(views(duplicates@)[k as int] == duplicates[k as int]@);
        transactions.push(update_for(duplicates[k].as_str(), id, &fields, expression.as_str(), table));
        k = k + 1;
    }
    assert(transactions.deep_view() =~= wanted);
    transactions
}

} // verus!
