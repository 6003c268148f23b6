//! The request that asks the store for the rows of a page.

use crate::assoc::{lemma_put_absent, put};
use crate::cursor::{CursorModel, PaginatedCursor};
use crate::item::{AttrModel, AttrValue, Item};
use crate::ordered::OrderedMap;
use crate::row::{PK, RELATION_NAMES, SK, TYPE};
use crate::text::{concat2, concat3, decimal, decimal_text, join_strings, joined, lowercase, lowercase_text, views};
use vstd::prelude::*;

verus! {

/// The index that a collection is read through: the attributes that are its
/// partition and sort key, and its name where it is not the table itself.
#[derive(Debug)]
pub struct RequestedIndex {
    pub pk: String,
    pub sk: String,
    pub name: Option<String>,
}

/// The mathematical model of an index.
pub struct IndexModel {
    pub pk: Seq<char>,
    pub sk: Seq<char>,
    pub name: Option<Seq<char>>,
}

impl DeepView for RequestedIndex {
    type V = IndexModel;

    open spec fn deep_view(&self) -> IndexModel {
        IndexModel { pk: self.pk@, sk: self.sk@, name: self.name.deep_view() }
    }
}

impl View for RequestedIndex {
    type V = IndexModel;

    open spec fn view(&self) -> IndexModel {
        self.deep_view()
    }
}

/// A query on the store.
#[derive(Debug)]
pub struct QueryInput {
    pub table_name: String,
    pub key_condition_expression: String,
    pub filter_expression: String,
    pub index_name: Option<String>,
    pub expression_attribute_values: Item,
    pub expression_attribute_names: OrderedMap<String>,
    pub scan_index_forward: bool,
}

/// The mathematical model of a query.
pub struct QueryInputModel {
    pub table_name: Seq<char>,
    pub key_condition_expression: Seq<char>,
    pub filter_expression: Seq<char>,
    pub index_name: Option<Seq<char>>,
    pub expression_attribute_values: Seq<(Seq<char>, AttrModel)>,
    pub expression_attribute_names: Seq<(Seq<char>, Seq<char>)>,
    pub scan_index_forward: bool,
}

impl DeepView for QueryInput {
    type V = QueryInputModel;

    open spec fn deep_view(&self) -> QueryInputModel {
        QueryInputModel {
            table_name: self.table_name@,
            key_condition_expression: self.key_condition_expression@,
            filter_expression: self.filter_expression@,
            index_name: self.index_name.deep_view(),
            expression_attribute_values: self.expression_attribute_values@,
            expression_attribute_names: self.expression_attribute_names@,
            scan_index_forward: self.scan_index_forward,
        }
    }
}

impl View for QueryInput {
    type V = QueryInputModel;

    open spec fn view(&self) -> QueryInputModel {
        self.deep_view()
    }
}

/// The placeholder for the value of the `i`-th wanted relation.
pub open spec fn relation_placeholder(i: nat) -> Seq<char> {
    ":relation"@ + decimal_text(i)
}

/// The condition that a row names the `i`-th wanted relation.
pub open spec fn relation_phrase(i: nat) -> Seq<char> {
    " contains(#relationname, :relation"@ + decimal_text(i) + ")"@
}

pub open spec fn relation_phrases(n: nat) -> Seq<Seq<char>> {
    Seq::new(n, |i: int| relation_phrase(i as nat))
}

/// The part of the filter that lets the edges of the wanted relations through.
pub open spec fn edge_query(n: nat) -> Seq<char> {
    if n > 0 {
        "OR ("@ + joined(relation_phrases(n), " OR "@) + ")"@
    } else {
        Seq::empty()
    }
}

/// The values of a query with the first `n` wanted relations under their placeholders.
pub open spec fn with_edge_values(values: Seq<(Seq<char>, AttrModel)>, edges: Seq<Seq<char>>, n: nat) -> Seq<(Seq<char>, AttrModel)>
    decreases n,
{
    if n == 0 {
        values
    } else {
        put(with_edge_values(values, edges, (n - 1) as nat), relation_placeholder((n - 1) as nat), AttrModel::S(edges[n - 1]))
    }
}

/// The condition on the keys: the partition, and where the cursor has a key to
/// continue from, the side of it on which the page lies.
pub open spec fn key_condition(cursor: CursorModel) -> Seq<char> {
    match cursor {
        CursorModel::Forward { exclusive_last_key: Some(_), .. } => "#pk = :pk AND #sk < :pkorder"@,
        CursorModel::Backward { exclusive_first_key: Some(_), .. } => "#pk = :pk AND #sk > :pkorder"@,
        _ => "#pk = :pk"@,
    }
}

/// The query that reads the page of a cursor for a node type, which is
/// given in lower case. Below a parent it reads the parent's partition of
/// the table and keeps the rows of the relation; else it reads the partition
/// of the node type in the given index. In both cases rows of the wanted
/// relations are kept too.
pub open spec fn query_input(cursor: CursorModel, edges: Seq<Seq<char>>, ty: Seq<char>, table: Seq<char>, index: IndexModel) -> QueryInputModel {
    let nested = cursor.nested() is Some;
    let partition = match cursor.nested_parent_pk() {
        Some(parent) => parent,
        None => ty,
    };
    let v0 = seq![(":pk"@, AttrModel::S(partition))];
    let n0 = seq![("#pk"@, if nested { PK@ } else { index.pk }), ("#type"@, TYPE@)];
    let n1 = if edges.len() > 0 {
        put(n0, "#relationname"@, RELATION_NAMES@)
    } else {
        n0
    };
    let v1 = with_edge_values(v0, edges, edges.len());
    let n2 = if nested {
        put(n1, "#relationname"@, RELATION_NAMES@)
    } else {
        n1
    };
    let v2 = if nested {
        put(put(v1, ":relation"@, AttrModel::S(cursor.relation_name()->Some_0)), ":type"@, AttrModel::S(ty))
    } else {
        put(v1, ":type"@, AttrModel::S(ty))
    };
    let filter = if nested {
        "(begins_with(#type, :type) AND contains(#relationname, :relation)) "@ + edge_query(edges.len())
    } else {
        "begins_with(#type, :type) "@ + edge_query(edges.len())
    };
    let n3 = if cursor.pagination_string() is Some {
        put(n2, "#sk"@, if nested { SK@ } else { index.sk })
    } else {
        n2
    };
    let v3 = match cursor.pagination_string() {
        Some(key) => put(v2, ":pkorder"@, AttrModel::S(key)),
        None => v2,
    };
    QueryInputModel {
        table_name: table,
        key_condition_expression: key_condition(cursor),
        filter_expression: filter,
        index_name: if nested { None } else { index.name },
        expression_attribute_values: v3,
        expression_attribute_names: n3,
        scan_index_forward: cursor.scan_index_forward(),
    }
}

/// Builds the query that reads the page of a cursor for a node type, whose
/// name is brought to lower case first.
pub fn plan_query(cursor: &PaginatedCursor, edges: &Vec<String>, node_type: &str, table: &str, index: &RequestedIndex) -> (r: QueryInput)
    ensures
        r@ == query_input(cursor@, views(edges@), lowercase_text(node_type@), table@, index@),
{
    let ty = lowercase(node_type);
    plan_query_for(cursor, edges, ty.as_str(), table, index)
}

/// Builds the query that reads the page of a cursor for a node type that is
/// given in lower case.
pub fn plan_query_for(cursor: &PaginatedCursor, edges: &Vec<String>, ty: &str, table: &str, index: &RequestedIndex) -> (r: QueryInput)
    ensures
        r@ == query_input(cursor@, views(edges@), ty@, table@, index@),
{
    let ty = ty.to_owned();
    let nested = cursor.is_nested_relation();
    let mut values = Item::new();
    let partition = match cursor.nested_parent_pk() {
        Some(parent) => parent,
        None => ty.clone(),
    };
    values.insert(":pk".to_owned(), AttrValue::S(partition));
    let mut names: OrderedMap<String> = OrderedMap::new();
    let ghost primary = if nested { PK@ } else { index.pk@ };
    proof {
        lemma_put_absent(Seq::<(Seq<char>, AttrModel)>::empty(), ":pk"@, AttrModel::S(partition@));
        assert(values@ =~= seq![(":pk"@, AttrModel::S(partition@))]);
        lemma_put_absent(Seq::<(Seq<char>, Seq<char>)>::empty(), "#pk"@, primary);
    }
    names.insert("#pk".to_owned(), if nested { PK.to_owned() } else { index.pk.clone() });
    proof {
        reveal_strlit("#pk");
        reveal_strlit("#type");
        assert("#pk"@ != "#type"@) by {
            assert("#pk"@.len() != "#type"@.len());
        }
        assert(names@ =~= seq![("#pk"@, primary)]);
        lemma_put_absent(names@, "#type"@, TYPE@);
    }
    names.insert("#type".to_owned(), TYPE.to_owned());
    assert(names@ =~= seq![("#pk"@, primary), ("#type"@, TYPE@)]);
    let mut edge_part = String::new();
    if edges.len() > 0 {
        names.insert("#relationname".to_owned(), RELATION_NAMES.to_owned());
        let ghost v0 = values@;
        let mut phrases: Vec<String> = Vec::new();
        let mut i: usize = 0;
        while i < edges.len()
            invariant
                i <= edges.len(),
                values@ == with_edge_values(v0, views(edges@), i as nat),
                views(phrases@) == relation_phrases(i as nat),
            decreases edges.len() - i,
        {
            let number = decimal(i);
            values.insert(concat2(":relation", number.as_str()), AttrValue::S(edges[i].clone()));
            let phrase = concat3(" contains(#relationname, :relation", number.as_str(), ")");
            let ghost before = phrases@;
            phrases.push(phrase);
            assert(views(phrases@) =~= relation_phrases((i + 1) as nat)) by {
                assert(views(phrases@) =~= views(before).push(relation_phrase(i as nat)));
            }
            assert(views(edges@)[i as int] == edges[i as int]@);
            i = i + 1;
        }
        let all = join_strings(&phrases, " OR ");
        edge_part = concat3("OR (", all.as_str(), ")");
    } else {
        assert(edge_part@ =~= edge_query(0));
    }
    let filter_expression = if nested {
        names.insert("#relationname".to_owned(), RELATION_NAMES.to_owned());
        let relation = match cursor.relation_name() {
            Some(name) => name,
            None => String::new(),
        };
        values.insert(":relation".to_owned(), AttrValue::S(relation));
        values.insert(":type".to_owned(), AttrValue::S(ty.clone()));
        concat2("(begins_with(#type, :type) AND contains(#relationname, :relation)) ", edge_part.as_str())
    } else {
        values.insert(":type".to_owned(), AttrValue::S(ty.clone()));
        concat2("begins_with(#type, :type) ", edge_part.as_str())
    };
    let pagination = cursor.pagination_string();
    let key_condition_expression = match (&pagination, cursor) {
        (Some(_), PaginatedCursor::Forward { .. }) => "#pk = :pk AND #sk < :pkorder".to_owned(),
        (Some(_), PaginatedCursor::Backward { .. }) => "#pk = :pk AND #sk > :pkorder".to_owned(),
        _ => "#pk = :pk".to_owned(),
    };
    match pagination {
        Some(key) => {
            names.insert("#sk".to_owned(), if nested { SK.to_owned() } else { index.sk.clone() });
            values.insert(":pkorder".to_owned(), AttrValue::S(key));
        },
        None => {},
    }
    let index_name = if nested {
        None
    } else {
        match &index.name {
            Some(name) => Some(name.clone()),
            None => None,
        }
    };
    QueryInput {
        table_name: table.to_owned(),
        key_condition_expression,
        filter_expression,
        index_name,
        expression_attribute_values: values,
        expression_attribute_names: names,
        scan_index_forward: cursor.scan_index_forward(),
    }
}

} // verus!
