//! Rows as the store hands them out: the two keys, what kind of identifier
//! each is, the relations the row stands for and the attributes.

use crate::assoc::value_of;
use crate::item::{AttrModel, AttrValue, Item};
use crate::text::{chars_of, clone_strings, find_char, first_index_from, lowercase, lowercase_text, optional_views, text_between};
use vstd::prelude::*;

verus! {

/// The attribute that holds a row's partition key.
pub const PK: &'static str = "__pk";

/// The attribute that holds a row's sort key.
pub const SK: &'static str = "__sk";

/// The attribute that holds a row's type.
pub const TYPE: &'static str = "__type";

/// The attribute that holds the names of the relations a row stands for.
pub const RELATION_NAMES: &'static str = "__relation_name";

/// What an identifier names.
#[derive(Debug)]
pub enum IdKind {
    /// A node of a type; the type is kept in lower case.
    Node { ty: String },
    /// A uniqueness constraint on a field of a type.
    Constraint,
}

/// The mathematical model of an identifier's kind.
pub enum IdKindModel {
    Node { ty: Seq<char> },
    Constraint,
}

impl DeepView for IdKind {
    type V = IdKindModel;

    open spec fn deep_view(&self) -> IdKindModel {
        match self {
            IdKind::Node { ty } => IdKindModel::Node { ty: ty@ },
            IdKind::Constraint => IdKindModel::Constraint,
        }
    }
}

impl View for IdKind {
    type V = IdKindModel;

    open spec fn view(&self) -> IdKindModel {
        self.deep_view()
    }
}

/// The position of the `n`-th `#` of a text, counted from zero; the length of
/// the text if it has fewer.
pub open spec fn separator(s: Seq<char>, n: nat) -> int
    decreases n,
{
    if n == 0 {
        first_index_from(s, '#', 0)
    } else {
        first_index_from(s, '#', separator(s, (n - 1) as nat) + 1)
    }
}

/// A constraint identifier reads `__C#type#field#value`.
pub open spec fn is_constraint_id(s: Seq<char>) -> bool {
    &&& separator(s, 0) == 3
    &&& s[0] == '_' && s[1] == '_' && s[2] == 'C'
    &&& separator(s, 2) < s.len()
}

/// What an identifier names: a constraint where it reads as one, else the node
/// of the type that stands before the first `#`, else nothing.
pub open spec fn id_kind_of(s: Seq<char>) -> Option<IdKindModel> {
    if is_constraint_id(s) {
        Some(IdKindModel::Constraint)
    } else if separator(s, 0) < s.len() {
        Some(IdKindModel::Node { ty: lowercase_text(s.subrange(0, separator(s, 0))) })
    } else {
        None
    }
}

/// Reads the kind of an identifier off its text.
pub fn classify_id(s: &str) -> (r: Option<IdKind>)
    ensures
        r.deep_view() == id_kind_of(s@),
{
    let chars = chars_of(s);
    let n = chars.len();
    let first = find_char(&chars, '#', 0);
    assert(separator(s@, 0) == first);
    if first >= n {
        assert(separator(s@, 1) == n) by {
            assert(separator(s@, 1) == first_index_from(s@, '#', separator(s@, 0) + 1));
        }
        assert(separator(s@, 2) == n) by {
            assert(separator(s@, 2) == first_index_from(s@, '#', separator(s@, 1) + 1));
        }
        return None;
    }
    let second = find_char(&chars, '#', first + 1);
    let third = if second < n {
        find_char(&chars, '#', second + 1)
    } else {
        n
    };
    assert(separator(s@, 1) == second) by {
        assert(separator(s@, 1) == first_index_from(s@, '#', separator(s@, 0) + 1));
    }
    assert(separator(s@, 2) == third) by {
        assert(separator(s@, 2) == first_index_from(s@, '#', separator(s@, 1) + 1));
    }
    if first == 3 && chars[0] == '_' && chars[1] == '_' && chars[2] == 'C' && third < n {
        return Some(IdKind::Constraint);
    }
    let prefix = text_between(&chars, 0, first);
    Some(IdKind::Node { ty: lowercase(prefix.as_str()) })
}

/// A row of the store.
#[derive(Debug)]
pub struct StoredRow {
    pub pk: String,
    pub sk: String,
    pub pk_kind: IdKind,
    pub sk_kind: IdKind,
    pub relation_names: Option<Vec<String>>,
    pub item: Item,
}

/// The mathematical model of a row.
pub struct RowModel {
    pub pk: Seq<char>,
    pub sk: Seq<char>,
    pub pk_kind: IdKindModel,
    pub sk_kind: IdKindModel,
    pub relation_names: Option<Seq<Seq<char>>>,
    pub item: Seq<(Seq<char>, AttrModel)>,
}

impl DeepView for StoredRow {
    type V = RowModel;

    open spec fn deep_view(&self) -> RowModel {
        RowModel {
            pk: self.pk@,
            sk: self.sk@,
            pk_kind: self.pk_kind@,
            sk_kind: self.sk_kind@,
            relation_names: optional_views(self.relation_names),
            item: self.item@,
        }
    }
}

impl View for StoredRow {
    type V = RowModel;

    open spec fn view(&self) -> RowModel {
        self.deep_view()
    }
}

/// The text of a string attribute of an item.
pub open spec fn text_attr(item: Seq<(Seq<char>, AttrModel)>, name: Seq<char>) -> Option<Seq<char>> {
    match value_of(item, name) {
        Some(AttrModel::S(s)) => Some(s),
        _ => None,
    }
}

/// The relation names that an item carries.
pub open spec fn relation_names_of(item: Seq<(Seq<char>, AttrModel)>) -> Option<Seq<Seq<char>>> {
    match value_of(item, RELATION_NAMES@) {
        Some(AttrModel::Ss(names)) => Some(names),
        _ => None,
    }
}

/// The row that an item is: it has to hold both keys as strings, and both
/// have to read as identifiers.
pub open spec fn row_of(item: Seq<(Seq<char>, AttrModel)>) -> Option<RowModel> {
    let pk = text_attr(item, PK@);
    let sk = text_attr(item, SK@);
    if pk is Some && sk is Some && id_kind_of(pk->Some_0) is Some && id_kind_of(sk->Some_0) is Some {
        Some(
            RowModel {
                pk: pk->Some_0,
                sk: sk->Some_0,
                pk_kind: id_kind_of(pk->Some_0)->Some_0,
                sk_kind: id_kind_of(sk->Some_0)->Some_0,
                relation_names: relation_names_of(item),
                item,
            },
        )
    } else {
        None
    }
}

impl StoredRow {
    /// Reads an item as a row; `None` where a key is missing, is no string or
    /// is no identifier.
    pub fn read(item: Item) -> (r: Option<StoredRow>)
        ensures
            r.deep_view() == row_of(item@),
    {
        let pk = match item.text(PK) {
            Some(pk) => pk,
            None => {
                return None;
            },
        };
        let sk = match item.text(SK) {
            Some(sk) => sk,
            None => {
                return None;
            },
        };
        let pk_kind = match classify_id(pk.as_str()) {
            Some(kind) => kind,
            None => {
                return None;
            },
        };
        let sk_kind = match classify_id(sk.as_str()) {
            Some(kind) => kind,
            None => {
                return None;
            },
        };
        let relation_names = match item.get(RELATION_NAMES) {
            Some(AttrValue::Ss(names)) => Some(clone_strings(names)),
            _ => None,
        };
        Some(StoredRow { pk, sk, pk_kind, sk_kind, relation_names, item })
    }
}

} // verus!
