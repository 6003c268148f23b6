//! Deleting a node: every row that has the node's identifier as either key leaves.

use crate::item::{AttrModel, Item};
use crate::paginated::QueryResult;
use crate::row::{text_attr, PK, SK};
use crate::text::same_text;
use crate::update::{every_row, found_rows};
use crate::writes::{TxItem, TxModel, WriteModel, WriteOp};
use vstd::prelude::*;

verus! {

/// Why a mutation cannot be carried out.
#[derive(Debug, Clone, Copy, PartialEq, Eq, Structural)]
pub enum MutationError {
    /// The schema has no type of the resolver's name.
    UnknownType,
    /// The input is not of the shape that the resolver takes.
    KeyNotInferred,
    /// Nothing is stored under the identifier.
    NotFound,
    /// The execution's identifier has no room for one more node.
    IdentifiersExhausted,
    /// A node to link or unlink is not given by its identifier.
    NotAnIdentifier,
}

impl MutationError {
    pub open spec fn message_text(&self) -> Seq<char> {
        match self {
            MutationError::UnknownType => "Internal Error: Failed process the associated schema."@,
            MutationError::KeyNotInferred => "Internal Error: failed to infer key"@,
            MutationError::NotFound => "This item was not found, you can't delete an inexistant item."@,
            MutationError::IdentifiersExhausted => "Internal Error: no identifier is left for a new item."@,
            MutationError::NotAnIdentifier => "Internal Error: an item to link is not given by its identifier."@,
        }
    }

    /// The message shown to the user.
    pub fn message(&self) -> (r: &'static str)
        ensures
            r@ == self.message_text(),
    {
        match self {
            MutationError::UnknownType => "Internal Error: Failed process the associated schema.",
            MutationError::KeyNotInferred => "Internal Error: failed to infer key",
            MutationError::NotFound => "This item was not found, you can't delete an inexistant item.",
            MutationError::IdentifiersExhausted => "Internal Error: no identifier is left for a new item.",
            MutationError::NotAnIdentifier => "Internal Error: an item to link is not given by its identifier.",
        }
    }
}

/// The message that is reported for a stored row that lacks a key.
pub const FAULTY_ROW: &'static str = "Internal Error: An issue happened while handeling some database data.";

/// What a deletion does: the rows that leave, and how many rows were passed
/// over because they lack a key.
#[derive(Debug)]
pub struct Deletion {
    pub items: Vec<TxItem>,
    pub faulty_rows: usize,
}

/// The first `n` attributes of a row that are keys, in the row's order.
pub open spec fn key_attributes(row: Seq<(Seq<char>, AttrModel)>, n: nat) -> Seq<(Seq<char>, AttrModel)>
    decreases n,
{
    if n == 0 {
        Seq::empty()
    } else if row[n - 1].0 == PK@ || row[n - 1].0 == SK@ {
        key_attributes(row, (n - 1) as nat).push(row[n - 1])
    } else {
        key_attributes(row, (n - 1) as nat)
    }
}

/// Whether a row holds both keys as strings.
pub open spec fn has_both_keys(row: Seq<(Seq<char>, AttrModel)>) -> bool {
    text_attr(row, PK@) is Some && text_attr(row, SK@) is Some
}

/// The write that takes a stored row out of the store.
pub open spec fn deletion_of(row: Seq<(Seq<char>, AttrModel)>, table: Seq<char>) -> TxModel {
    TxModel {
        pk: text_attr(row, PK@)->Some_0,
        sk: text_attr(row, SK@)->Some_0,
        relation_name: None,
        transaction: WriteModel::Delete { table_name: table, key: key_attributes(row, row.len()) },
    }
}

/// The writes that take the first `n` rows out, one for each row that holds both keys.
pub open spec fn deletions(rows: Seq<Seq<(Seq<char>, AttrModel)>>, table: Seq<char>, n: nat) -> Seq<TxModel>
    decreases n,
{
    if n == 0 {
        Seq::empty()
    } else if has_both_keys(rows[n - 1]) {
        deletions(rows, table, (n - 1) as nat).push(deletion_of(rows[n - 1], table))
    } else {
        deletions(rows, table, (n - 1) as nat)
    }
}

/// How many of the first `n` rows lack a key.
pub open spec fn faulty_rows(rows: Seq<Seq<(Seq<char>, AttrModel)>>, n: nat) -> nat
    decreases n,
{
    if n == 0 {
        0
    } else if has_both_keys(rows[n - 1]) {
        faulty_rows(rows, (n - 1) as nat)
    } else {
        faulty_rows(rows, (n - 1) as nat) + 1
    }
}

/// The key of the write that deletes a row: the row's own key attributes.
fn own_key(row: &Item) -> (r: Item)
    ensures
        r@ == key_attributes(row@, row@.len()),
{
    row.names_are_distinct();
    let mut key = Item::new();
    let mut i: usize = 0;
    while i < row.len()
        invariant
            i <= row@.len(),
            crate::assoc::distinct_keys(row@),
            key@ == key_attributes(row@, i as nat),
            forall|j: int| 0 <= j < key@.len() ==> exists|k: int| 0 <= k < i && (#[trigger] key@[j]).0 == row@[k].0,
        decreases row@.len() - i,
    {
        let name = row.name_at(i);
        if same_text(name, PK) || same_text(name, SK) {
            let ghost before = key@;
            proof {
                assert forall|j: int| 0 <= j < before.len() implies (#[trigger] before[j]).0 != name@ by {
                    let k = choose|k: int| 0 <= k < i && before[j].0 == row@[k].0;
                    assert(row@[k].0 != row@[i as int].0);
                }
                crate::assoc::lemma_put_absent(before, name@, row@[i as int].1);
            }
            key.insert(name.to_owned(), row.value_at(i).duplicate());
            proof {
                assert forall|j: int| 0 <= j < key@.len() implies exists|k: int| 0 <= k < i + 1 && (#[trigger] key@[j]).0 == row@[k].0 by {
                    if j < before.len() {
                        let k = choose|k: int| 0 <= k < i && before[j].0 == row@[k].0;
                        assert(key@[j].0 == row@[k].0);
                    } else {
                        assert(key@[j].0 == row@[i as int].0);
                    }
                }
            }
        }
        i = i + 1;
    }
    key
}

/// Builds the writes that delete a node, from what the lookups by partition
/// key and by sort key found: one for every row of every entity, be it a
/// node, an edge or a constraint. It is an error if there is nothing to delete.
pub fn delete_transactions(by_pk: &Option<QueryResult>, by_sk: &Option<QueryResult>, table: &str) -> (r: Result<Deletion, MutationError>)
    ensures
        ({
            let rows = found_rows(*by_pk) + found_rows(*by_sk);
            match r {
                Ok(deletion) => {
                    &&& deletion.items.deep_view() == deletions(rows, table@, rows.len())
                    &&& deletion.items.len() > 0
                    &&& deletion.faulty_rows == faulty_rows(rows, rows.len())
                },
                Err(e) => e == MutationError::NotFound && deletions(rows, table@, rows.len()).len() == 0,
            }
        }),
{
    let mut rows: Vec<&Item> = Vec::new();
    assert(rows.deep_view() =~= Seq::empty());
    match by_pk {
        Some(found) => {
            rows = every_row(found);
        },
        None => {},
    }
    assert(rows.deep_view() =~= found_rows(*by_pk));
    match by_sk {
        Some(found) => {
            let more = every_row(found);
            let ghost start = rows.deep_view();
            let mut j: usize = 0;
            while j < more.len()
                invariant
                    j <= more.len(),
                    rows.deep_view() == start + more.deep_view().take(j as int),
                decreases more.len() - j,
            {
                let ghost before = rows.deep_view();
                rows.push(more[j]);
                assert(rows.deep_view() =~= before.push(more[j as int]@));
                assert(more.deep_view().take(j + 1) =~= more.deep_view().take(j as int).push(more[j as int]@));
                j = j + 1;
            }
            assert(more.deep_view().take(more.len() as int) =~= more.deep_view());
        },
        None => {
            assert(rows.deep_view() + Seq::<Seq<(Seq<char>, AttrModel)>>::empty() =~= rows.deep_view());
        },
    }
    let ghost all = found_rows(*by_pk) + found_rows(*by_sk);
    assert(rows.deep_view() == all);
    let mut items: Vec<TxItem> = Vec::new();
    assert(items.deep_view() =~= Seq::empty());
    let mut faulty: usize = 0;
    let mut i: usize = 0;
    while i < rows.len()
        invariant
            i <= rows.len(),
            rows.deep_view() == all,
            items.deep_view() == deletions(all, table@, i as nat),
            faulty == faulty_rows(all, i as nat),
            faulty <= i,
        decreases rows.len() - i,
    {
        let row = rows[i];
        assert(all[i as int] == row@);
        let keys = match row.text(PK) {
            Some(pk) => match row.text(SK) {
                Some(sk) => Some((pk, sk)),
                None => None,
            },
            None => None,
        };
        match keys {
            Some((pk, sk)) => {
                let ghost before = items.deep_view();
                items.push(
                    TxItem { pk, sk, relation_name: None, transaction: WriteOp::Delete { table_name: table.to_owned(), key: own_key(row) } },
                );
                assert(items.deep_view() =~= before.push(deletion_of(row@, table@)));
            },
            None => {
                faulty = faulty + 1;
            },
        }
        i = i + 1;
    }
    if items.len() == 0 {
        return Err(MutationError::NotFound);
    }
    Ok(Deletion { items, faulty_rows: faulty })
}

} // verus!
