//! The writes of a mutation: the rows of an edge between two nodes, and the
//! rows that leave when two nodes are unlinked.

use crate::assoc::put;
use crate::item::{AttrModel, AttrValue, Item};
use crate::node_types::{NodeType, NodeTypeModel};
use crate::ordered::OrderedMap;
use crate::row::{PK, RELATION_NAMES, SK};
use crate::text::{chars_of, concat2, concat3, join_strings, joined, same_text, text_between, views};
use vstd::prelude::*;

verus! {

/// One write to the store.
#[derive(Debug)]
pub enum WriteOp {
    Put { table_name: String, item: Item },
    Update {
        table_name: String,
        key: Item,
        condition_expression: Option<String>,
        update_expression: String,
        expression_attribute_values: Item,
        expression_attribute_names: OrderedMap<String>,
    },
    Delete { table_name: String, key: Item },
}

/// The mathematical model of a write.
pub enum WriteModel {
    Put { table_name: Seq<char>, item: Seq<(Seq<char>, AttrModel)> },
    Update {
        table_name: Seq<char>,
        key: Seq<(Seq<char>, AttrModel)>,
        condition_expression: Option<Seq<char>>,
        update_expression: Seq<char>,
        expression_attribute_values: Seq<(Seq<char>, AttrModel)>,
        expression_attribute_names: Seq<(Seq<char>, Seq<char>)>,
    },
    Delete { table_name: Seq<char>, key: Seq<(Seq<char>, AttrModel)> },
}

impl DeepView for WriteOp {
    type V = WriteModel;

    open spec fn deep_view(&self) -> WriteModel {
        match self {
            WriteOp::Put { table_name, item } => WriteModel::Put { table_name: table_name@, item: item@ },
            WriteOp::Update {
                table_name,
                key,
                condition_expression,
                update_expression,
                expression_attribute_values,
                expression_attribute_names,
            } => WriteModel::Update {
                table_name: table_name@,
                key: key@,
                condition_expression: condition_expression.deep_view(),
                update_expression: update_expression@,
                expression_attribute_values: expression_attribute_values@,
                expression_attribute_names: expression_attribute_names@,
            },
            WriteOp::Delete { table_name, key } => WriteModel::Delete { table_name: table_name@, key: key@ },
        }
    }
}

impl View for WriteOp {
    type V = WriteModel;

    open spec fn view(&self) -> WriteModel {
        self.deep_view()
    }
}

/// A write together with the keys of the row that it is about.
#[derive(Debug)]
pub struct TxItem {
    pub pk: String,
    pub sk: String,
    pub relation_name: Option<String>,
    pub transaction: WriteOp,
}

/// The mathematical model of a write and its keys.
pub struct TxModel {
    pub pk: Seq<char>,
    pub sk: Seq<char>,
    pub relation_name: Option<Seq<char>>,
    pub transaction: WriteModel,
}

impl DeepView for TxItem {
    type V = TxModel;

    open spec fn deep_view(&self) -> TxModel {
        TxModel { pk: self.pk@, sk: self.sk@, relation_name: self.relation_name.deep_view(), transaction: self.transaction@ }
    }
}

impl View for TxItem {
    type V = TxModel;

    open spec fn view(&self) -> TxModel {
        self.deep_view()
    }
}

/// A row of a selection: its keys and its attributes.
#[derive(Debug)]
pub struct SelectedRow {
    pub pk: String,
    pub sk: String,
    pub item: Item,
}

/// The mathematical model of a selected row.
pub struct SelectedModel {
    pub pk: Seq<char>,
    pub sk: Seq<char>,
    pub item: Seq<(Seq<char>, AttrModel)>,
}

impl DeepView for SelectedRow {
    type V = SelectedModel;

    open spec fn deep_view(&self) -> SelectedModel {
        SelectedModel { pk: self.pk@, sk: self.sk@, item: self.item@ }
    }
}

impl View for SelectedRow {
    type V = SelectedModel;

    open spec fn view(&self) -> SelectedModel {
        self.deep_view()
    }
}

impl SelectedRow {
    /// An equal row of its own.
    pub fn duplicate(&self) -> (r: SelectedRow)
        ensures
            r@ == self@,
    {
        SelectedRow { pk: self.pk.clone(), sk: self.sk.clone(), item: self.item.duplicate() }
    }
}

/// An attribute whose name starts with two underscores is the store's own.
pub open spec fn is_internal(name: Seq<char>) -> bool {
    name.len() >= 2 && name[0] == '_' && name[1] == '_'
}

/// The keys and the relation names are not assigned: the keys name the row,
/// and the relation names are added to.
pub open spec fn is_unassigned(name: Seq<char>) -> bool {
    name == PK@ || name == SK@ || name == RELATION_NAMES@
}

/// The placeholder for the value of an attribute.
pub open spec fn value_placeholder(name: Seq<char>) -> Seq<char> {
    ":"@ + name
}

/// The placeholder for the name of one of the store's own attributes.
pub open spec fn name_placeholder(name: Seq<char>) -> Seq<char> {
    "#"@ + name.subrange(2, name.len() as int)
}

/// The assignment of an attribute in an update expression.
pub open spec fn assignment(name: Seq<char>) -> Seq<char> {
    if is_internal(name) {
        name_placeholder(name) + "="@ + value_placeholder(name)
    } else {
        name + "="@ + value_placeholder(name)
    }
}

/// The row of an edge: the attributes of one node, placed in the partition of
/// the other node and indexed under that node and its type.
pub open spec fn edge_row(attributes: Seq<(Seq<char>, AttrModel)>, ty_name: Seq<char>, node_id: Seq<char>) -> Seq<(Seq<char>, AttrModel)> {
    put(
        put(put(put(attributes, "__gsi1pk"@, AttrModel::S(ty_name)), "__gsi1sk"@, AttrModel::S(node_id)), PK@, AttrModel::S(node_id)),
        "__gsi2sk"@,
        AttrModel::S(node_id),
    )
}

/// The assignments of the first `n` attributes of a row.
pub open spec fn edge_assignments(row: Seq<(Seq<char>, AttrModel)>, n: nat) -> Seq<Seq<char>>
    decreases n,
{
    if n == 0 {
        Seq::empty()
    } else if is_unassigned(row[n - 1].0) {
        edge_assignments(row, (n - 1) as nat)
    } else {
        edge_assignments(row, (n - 1) as nat).push(assignment(row[n - 1].0))
    }
}

/// The values of the first `n` attributes of a row, under their placeholders.
pub open spec fn edge_values(row: Seq<(Seq<char>, AttrModel)>, n: nat) -> Seq<(Seq<char>, AttrModel)>
    decreases n,
{
    if n == 0 {
        Seq::empty()
    } else if is_unassigned(row[n - 1].0) {
        edge_values(row, (n - 1) as nat)
    } else {
        put(edge_values(row, (n - 1) as nat), value_placeholder(row[n - 1].0), row[n - 1].1)
    }
}

/// The names behind the name placeholders of the first `n` attributes of a row.
pub open spec fn edge_names(row: Seq<(Seq<char>, AttrModel)>, n: nat) -> Seq<(Seq<char>, Seq<char>)>
    decreases n,
{
    if n == 0 {
        seq![("#relation_name"@, RELATION_NAMES@)]
    } else if is_unassigned(row[n - 1].0) || !is_internal(row[n - 1].0) {
        edge_names(row, (n - 1) as nat)
    } else {
        put(edge_names(row, (n - 1) as nat), name_placeholder(row[n - 1].0), row[n - 1].0)
    }
}

/// The write that stores one side of a relation: the first row of
/// `described`, copied into the partition of the first row of `owner`, with
/// the relation's name added to the names that the row stands for. The side
/// is written whether or not its type declares a relation of the name, so
/// that a relation always has both its sides. Nothing is written only where
/// one of the two selections is empty: there is no row to copy, or no node
/// to copy it to.
pub open spec fn relation_edge(
    to_ty: NodeTypeModel,
    described: Seq<SelectedModel>,
    owner: Seq<SelectedModel>,
    relation_name: Seq<char>,
    table: Seq<char>,
) -> Option<TxModel> {
    if described.len() > 0 && owner.len() > 0 {
        let node_id = owner[0].pk;
        let sk = described[0].sk;
        let row = edge_row(described[0].item, to_ty.name, node_id);
        Some(
            TxModel {
                pk: node_id,
                sk,
                relation_name: Some(relation_name),
                transaction: WriteModel::Update {
                    table_name: table,
                    key: seq![(PK@, AttrModel::S(node_id)), (SK@, AttrModel::S(sk))],
                    condition_expression: None,
                    update_expression: "set "@ + joined(edge_assignments(row, row.len()), ","@) + " "@
                        + " ADD #relation_name :relation_name "@,
                    expression_attribute_values: put(edge_values(row, row.len()), ":relation_name"@, AttrModel::Ss(seq![relation_name])),
                    expression_attribute_names: edge_names(row, row.len()),
                },
            },
        )
    } else {
        None
    }
}

/// The two keys of a row, as the key of a write.
pub fn key_of(pk: &str, sk: &str) -> (r: Item)
    ensures
        r@ == seq![(PK@, AttrModel::S(pk@)), (SK@, AttrModel::S(sk@))],
{
    let mut key = Item::new();
    proof {
        crate::assoc::lemma_put_absent(Seq::<(Seq<char>, AttrModel)>::empty(), PK@, AttrModel::S(pk@));
    }
    key.insert(PK.to_owned(), AttrValue::string(pk));
    proof {
        assert(key@ =~= seq![(PK@, AttrModel::S(pk@))]);
        reveal_strlit("__pk");
        reveal_strlit("__sk");
        assert(PK@ != SK@) by {
            assert(PK@[2] == 'p');
            assert(SK@[2] == 's');
        }
        crate::assoc::lemma_put_absent(key@, SK@, AttrModel::S(sk@));
    }
    key.insert(SK.to_owned(), AttrValue::string(sk));
    assert(key@ =~= seq![(PK@, AttrModel::S(pk@)), (SK@, AttrModel::S(sk@))]);
    key
}

/// Whether an attribute is neither a key nor the relation names.
fn is_assigned(name: &str) -> (r: bool)
    ensures
        r == !is_unassigned(name@),
{
    !(same_text(name, PK) || same_text(name, SK) || same_text(name, RELATION_NAMES))
}

/// The name placeholder of one of the store's own attributes, if it is one.
fn internal_placeholder(name: &str) -> (r: Option<String>)
    ensures
        r is Some == is_internal(name@),
        r is Some ==> r->Some_0@ == name_placeholder(name@),
{
    let chars = chars_of(name);
    if chars.len() >= 2 && chars[0] == '_' && chars[1] == '_' {
        let rest = text_between(&chars, 2, chars.len());
        Some(concat2("#", rest.as_str()))
    } else {
        None
    }
}

/// Builds the write that stores one side of a relation.
pub fn create_relation_node(
    to_ty: &NodeType,
    parent_value: &Vec<SelectedRow>,
    selected_value: &Vec<SelectedRow>,
    relation_name: &str,
    table: &str,
) -> (r: Option<TxItem>)
    ensures
        r.deep_view() == relation_edge(to_ty@, parent_value.deep_view(), selected_value.deep_view(), relation_name@, table@),
{
    if parent_value.len() == 0 || selected_value.len() == 0 {
        return None;
    }
    let parent = &parent_value[0];
    let selected_id = &selected_value[0].pk;
    let mut val = parent.item.duplicate();
    val.insert("__gsi1pk".to_owned(), AttrValue::S(to_ty.name.clone()));
    val.insert("__gsi1sk".to_owned(), AttrValue::S(selected_id.clone()));
    val.insert(PK.to_owned(), AttrValue::S(selected_id.clone()));
    val.insert("__gsi2sk".to_owned(), AttrValue::S(selected_id.clone()));
    let ghost row = val@;
    assert(row == edge_row(parent_value.deep_view()[0].item, to_ty@.name, selected_value.deep_view()[0].pk));

    let mut update_expression: Vec<String> = Vec::new();
    let mut names: OrderedMap<String> = OrderedMap::new();
    proof {
        crate::assoc::lemma_put_absent(Seq::<(Seq<char>, Seq<char>)>::empty(), "#relation_name"@, RELATION_NAMES@);
    }
    names.insert("#relation_name".to_owned(), RELATION_NAMES.to_owned());
    assert(names@ =~= seq![("#relation_name"@, RELATION_NAMES@)]);
    let mut values = Item::new();
    let mut i: usize = 0;
    while i < val.len()
        invariant
            i <= row.len(),
            val@ == row,
            values@ == edge_values(row, i as nat),
            names@ == edge_names(row, i as nat),
            views(update_expression@) == edge_assignments(row, i as nat),
        decreases row.len() - i,
    {
        let name = val.name_at(i);
        if is_assigned(name) {
            let value_name = concat2(":", name);
            let ghost before = update_expression@;
            match internal_placeholder(name) {
                Some(sanitized) => {
                    update_expression.push(concat3(sanitized.as_str(), "=", value_name.as_str()));
                    names.insert(sanitized, name.to_owned());
                },
                None => {
                    update_expression.push(concat3(name, "=", value_name.as_str()));
                },
            }
            assert(views(update_expression@) =~= views(before).push(assignment(row[i as int].0)));
            values.insert(value_name, val.value_at(i).duplicate());
        }
        i = i + 1;
    }
    let mut relation_set: Vec<String> = Vec::new();
    relation_set.push(relation_name.to_owned());
    assert(views(relation_set@) =~= seq![relation_name@]);
    values.insert(":relation_name".to_owned(), AttrValue::Ss(relation_set));

    let assignments = join_strings(&update_expression, ",");
    let mut expression = concat2("set ", assignments.as_str());
    expression.append(" ");
    expression.append(" ADD #relation_name :relation_name ");
    let sk = parent.sk.clone();
    Some(
        TxItem {
            pk: selected_id.clone(),
            sk: sk.clone(),
            relation_name: Some(relation_name.to_owned()),
            transaction: WriteOp::Update {
                table_name: table.to_owned(),
                key: key_of(selected_id.as_str(), sk.as_str()),
                condition_expression: None,
                update_expression: expression,
                expression_attribute_values: values,
                expression_attribute_names: names,
            },
        },
    )
}

/// The write that takes the row with these keys out of the store.
pub open spec fn delete_of(pk: Seq<char>, sk: Seq<char>, table: Seq<char>) -> TxModel {
    TxModel {
        pk,
        sk,
        relation_name: None,
        transaction: WriteModel::Delete { table_name: table, key: seq![(PK@, AttrModel::S(pk)), (SK@, AttrModel::S(sk))] },
    }
}

/// The writes that unlink the node `to` from the first `n` rows of a
/// selection: for each row but the node's own, the row under `to` and the row
/// under the other side leave.
pub open spec fn relation_removals(rows: Seq<SelectedModel>, to: Seq<char>, table: Seq<char>, n: nat) -> Seq<TxModel>
    decreases n,
{
    if n == 0 {
        Seq::empty()
    } else if rows[n - 1].pk == to && rows[n - 1].sk == to {
        relation_removals(rows, to, table, (n - 1) as nat)
    } else {
        relation_removals(rows, to, table, (n - 1) as nat).push(delete_of(to, rows[n - 1].sk, table)).push(
            delete_of(rows[n - 1].pk, to, table),
        )
    }
}

/// Builds the writes that remove a relation on both sides.
pub fn relation_remove(from: &Vec<SelectedRow>, to: &str, table: &str) -> (r: Vec<TxItem>)
    ensures
        r.deep_view() == relation_removals(from.deep_view(), to@, table@, from.len() as nat),
{
    let mut transactions: Vec<TxItem> = Vec::new();
    assert(transactions.deep_view() =~= Seq::empty());
    let mut i: usize = 0;
    while i < from.len()
        invariant
            i <= from.len(),
            transactions.deep_view() == relation_removals(from.deep_view(), to@, table@, i as nat),
        decreases from.len() - i,
    {
        let row = &from[i];
        assert(from.deep_view()[i as int] == row@);
        if !(same_text(row.pk.as_str(), to) && same_text(row.sk.as_str(), to)) {
            let ghost before = transactions.deep_view();
            let from_to_to = TxItem {
                pk: to.to_owned(),
                sk: row.sk.clone(),
                relation_name: None,
                transaction: WriteOp::Delete { table_name: table.to_owned(), key: key_of(to, row.sk.as_str()) },
            };
            transactions.push(from_to_to);
            let to_to_from = TxItem {
                pk: row.pk.clone(),
                sk: to.to_owned(),
                relation_name: None,
                transaction: WriteOp::Delete { table_name: table.to_owned(), key: key_of(row.pk.as_str(), to) },
            };
            transactions.push(to_to_from);
            assert(transactions.deep_view() =~= before.push(delete_of(to@, row.sk@, table@)).push(delete_of(row.pk@, to@, table@)));
        }
        i = i + 1;
    }
    transactions
}

} // verus!
