//! Pages of a collection: the rows of a query grouped into entities, counted
//! against the page size.

use crate::assoc::{find_key, lemma_find_key, without};
use crate::cursor::PaginatedCursor;
use crate::item::{AttrModel, Item};
use crate::ordered::OrderedMap;
use crate::row::{IdKind, IdKindModel, RowModel, StoredRow};
use crate::text::{clone_strings, contains_text, lowercase, lowercase_text, optional_views, reversed, same_text, views};
use vstd::prelude::*;

verus! {

/// The rows of one entity: its node, its edges by relation and its constraints.
#[derive(Debug)]
pub struct QueryValue {
    pub node: Option<Item>,
    pub edges: OrderedMap<Vec<Item>>,
    /// Constraints are rows of another kind that add data to a node.
    pub constraints: Vec<Item>,
}

/// The mathematical model of an entity's rows.
pub struct QueryValueModel {
    pub node: Option<Seq<(Seq<char>, AttrModel)>>,
    pub edges: Seq<(Seq<char>, Seq<Seq<(Seq<char>, AttrModel)>>)>,
    pub constraints: Seq<Seq<(Seq<char>, AttrModel)>>,
}

impl DeepView for QueryValue {
    type V = QueryValueModel;

    open spec fn deep_view(&self) -> QueryValueModel {
        QueryValueModel {
            node: self.node.deep_view(),
            edges: self.edges.deep_view(),
            constraints: self.constraints.deep_view(),
        }
    }
}

impl View for QueryValue {
    type V = QueryValueModel;

    open spec fn view(&self) -> QueryValueModel {
        self.deep_view()
    }
}

/// What a page is asked for: the parent whose edges are listed, if any, the
/// page size, the relations whose edges are wanted and the node type in lower case.
#[derive(Debug)]
pub struct PageScope {
    pub parent_pk: Option<String>,
    pub limit: usize,
    pub edges: Vec<String>,
    pub node_type: String,
}

/// The mathematical model of a page's scope.
pub struct ScopeModel {
    pub parent_pk: Option<Seq<char>>,
    pub limit: usize,
    pub edges: Seq<Seq<char>>,
    pub node_type: Seq<char>,
}

impl DeepView for PageScope {
    type V = ScopeModel;

    open spec fn deep_view(&self) -> ScopeModel {
        ScopeModel {
            parent_pk: self.parent_pk.deep_view(),
            limit: self.limit,
            edges: views(self.edges@),
            node_type: self.node_type@,
        }
    }
}

impl View for PageScope {
    type V = ScopeModel;

    open spec fn view(&self) -> ScopeModel {
        self.deep_view()
    }
}

impl PageScope {
    /// The scope of a query: the cursor's parent and size, the wanted edges,
    /// and the node type, which is compared in lower case.
    pub fn new(cursor: &PaginatedCursor, edges: &Vec<String>, node_type: &str) -> (r: PageScope)
        ensures
            r@ == (ScopeModel {
                parent_pk: cursor@.nested_parent_pk(),
                limit: cursor@.limit(),
                edges: views(edges@),
                node_type: lowercase_text(node_type@),
            }),
    {
        PageScope {
            parent_pk: cursor.nested_parent_pk(),
            limit: cursor.limit(),
            edges: clone_strings(edges),
            node_type: lowercase(node_type),
        }
    }
}

/// The position of the first wanted edge at or after `from` that is among
/// `names`; the number of wanted edges if there is none.
pub open spec fn first_edge_from(edges: Seq<Seq<char>>, names: Seq<Seq<char>>, from: int) -> int
    decreases edges.len() - from,
{
    if from < 0 || from >= edges.len() {
        edges.len() as int
    } else if names.contains(edges[from]) {
        from
    } else {
        first_edge_from(edges, names, from + 1)
    }
}

/// The first wanted edge that a row's relation names hold.
pub open spec fn matching_edge(edges: Seq<Seq<char>>, relation_names: Option<Seq<Seq<char>>>) -> Option<Seq<char>> {
    match relation_names {
        Some(names) => if first_edge_from(edges, names, 0) < edges.len() {
            Some(edges[first_edge_from(edges, names, 0)])
        } else {
            None
        },
        None => None,
    }
}

/// The edges of an entity with one more row under a relation: behind the rows
/// that the relation has, or as the first row of a relation that is new.
pub open spec fn with_edge_row(
    edges: Seq<(Seq<char>, Seq<Seq<(Seq<char>, AttrModel)>>)>,
    name: Seq<char>,
    item: Seq<(Seq<char>, AttrModel)>,
) -> Seq<(Seq<char>, Seq<Seq<(Seq<char>, AttrModel)>>)> {
    let i = find_key(edges, name);
    if i < edges.len() {
        edges.update(i, (name, edges[i].1.push(item)))
    } else {
        edges.push((name, seq![item]))
    }
}

/// An entity without rows.
pub open spec fn empty_value() -> QueryValueModel {
    QueryValueModel { node: None, edges: Seq::empty(), constraints: Seq::empty() }
}

/// An entity after it has taken a row in. A row whose keys are both node
/// identifiers is the node where its sort key has the wanted type, else an
/// edge under the first wanted relation that it names, else nothing; a row
/// whose keys are both constraint identifiers is a constraint; any other row
/// is left out.
pub open spec fn absorbed_value(value: QueryValueModel, row: RowModel, scope: ScopeModel) -> QueryValueModel {
    match (row.pk_kind, row.sk_kind) {
        (IdKindModel::Node { .. }, IdKindModel::Node { ty }) => {
            if ty == scope.node_type {
                QueryValueModel { node: Some(row.item), ..value }
            } else {
                match matching_edge(scope.edges, row.relation_names) {
                    Some(edge) => QueryValueModel { edges: with_edge_row(value.edges, edge, row.item), ..value },
                    None => value,
                }
            }
        },
        (IdKindModel::Constraint, IdKindModel::Constraint) => QueryValueModel {
            constraints: value.constraints.push(row.item),
            ..value
        },
        _ => value,
    }
}

/// The first wanted edge among a row's relation names, by position.
fn find_edge(edges: &Vec<String>, names: &Option<Vec<String>>) -> (r: Option<usize>)
    ensures
        match r {
            Some(i) => i < edges.len() && matching_edge(views(edges@), optional_views(*names)) == Some(edges[i as int]@),
            None => matching_edge(views(edges@), optional_views(*names)) is None,
        },
{
    match names {
        None => None,
        Some(held) => {
            let mut i: usize = 0;
            while i < edges.len()
                invariant
                    i <= edges.len(),
                    *names == Some(*held),
                    first_edge_from(views(edges@), views(held@), 0) == first_edge_from(views(edges@), views(held@), i as int),
                decreases edges.len() - i,
            {
                assert(views(edges@)[i as int] == edges[i as int]@);
                if contains_text(held, edges[i].as_str()) {
                    assert(first_edge_from(views(edges@), views(held@), i as int) == i);
                    return Some(i);
                }
                i = i + 1;
            }
            None
        },
    }
}

impl QueryValue {
    /// An entity without rows.
    pub fn new() -> (r: QueryValue)
        ensures
            r@ == empty_value(),
    {
        let constraints: Vec<Item> = Vec::new();
        assert(constraints.deep_view() =~= Seq::empty());
        QueryValue { node: None, edges: OrderedMap::new(), constraints }
    }

    /// Takes a row in.
    pub fn absorb(&mut self, row: StoredRow, scope: &PageScope)
        ensures
            final(self)@ == absorbed_value(old(self)@, row@, scope@),
    {
        let StoredRow { pk, sk, pk_kind, sk_kind, relation_names, item } = row;
        match (pk_kind, sk_kind) {
            (IdKind::Node { .. }, IdKind::Node { ty }) => {
                if same_text(ty.as_str(), scope.node_type.as_str()) {
                    self.node = Some(item);
                } else {
                    match find_edge(&scope.edges, &relation_names) {
                        Some(e) => {
                            let name = &scope.edges[e];
                            let ghost before = self.edges@;
                            let ghost model = item@;
                            proof {
                                lemma_find_key(before, name@);
                            }
                            let i = self.edges.position(name.as_str());
                            if i < self.edges.len() {
                                let mut rows = self.edges.replace(i, Vec::new());
                                rows.push(item);
                                assert(rows.deep_view() =~= before[i as int].1.push(model));
                                let _ = self.edges.replace(i, rows);
                                assert(self.edges@ =~= with_edge_row(before, name@, model));
                            } else {
                                let mut rows: Vec<Item> = Vec::new();
                                rows.push(item);
                                assert(rows.deep_view() =~= seq![model]);
                                self.edges.push(name.clone(), rows);
                            }
                        },
                        None => {},
                    }
                }
            },
            (IdKind::Constraint, IdKind::Constraint) => {
                let ghost before = self.constraints.deep_view();
                let ghost model = item@;
                self.constraints.push(item);
                assert(self.constraints.deep_view() =~= before.push(model));
            },
            _ => {},
        }
    }

    /// The rows of the entity: the node first, then the edges relation by relation.
    pub fn iter(&self) -> (r: Vec<&Item>)
        ensures
            r.deep_view() == entity_rows(self@),
    {
        let mut out: Vec<&Item> = Vec::new();
        assert(out.deep_view() =~= Seq::empty());
        match &self.node {
            Some(node) => {
                out.push(node);
                assert(out.deep_view() =~= seq![node@]);
            },
            None => {},
        }
        let ghost head = out.deep_view();
        let mut i: usize = 0;
        while i < self.edges.len()
            invariant
                i <= self.edges@.len(),
                out.deep_view() == head + edge_rows(self.edges@.take(i as int)),
            decreases self.edges@.len() - i,
        {
            let rows = self.edges.value_at(i);
            let ghost start = out.deep_view();
            let mut j: usize = 0;
            while j < rows.len()
                invariant
                    j <= rows.len(),
                    out.deep_view() == start + rows.deep_view().take(j as int),
                decreases rows.len() - j,
            {
                let ghost before = out.deep_view();
                out.push(&rows[j]);
                assert(out.deep_view() =~= before.push(rows[j as int]@));
                assert(rows.deep_view().take(j + 1) =~= rows.deep_view().take(j as int).push(rows[j as int]@));
                j = j + 1;
            }
            proof {
                assert(rows.deep_view().take(rows.len() as int) =~= rows.deep_view());
                assert(self.edges@.take(i + 1).drop_last() =~= self.edges@.take(i as int));
                assert(self.edges@.take(i + 1).last() == self.edges@[i as int]);
                assert(out.deep_view() =~= head + edge_rows(self.edges@.take(i + 1)));
            }
            i = i + 1;
        }
        assert(self.edges@.take(self.edges@.len() as int) =~= self.edges@);
        out
    }
}

impl QueryValue {
    /// Every row of the entity: its node, its edges and its constraints.
    pub fn rows(&self) -> (r: Vec<&Item>)
        ensures
            r.deep_view() == every_row_of(self@),
    {
        let mut out = self.iter();
        let ghost head = out.deep_view();
        let mut j: usize = 0;
        while j < self.constraints.len()
            invariant
                j <= self.constraints.len(),
                out.deep_view() == head + self.constraints.deep_view().take(j as int),
            decreases self.constraints.len() - j,
        {
            let ghost before = out.deep_view();
            out.push(&self.constraints[j]);
            assert(out.deep_view() =~= before.push(self.constraints[j as int]@));
            assert(self.constraints.deep_view().take(j + 1) =~= self.constraints.deep_view().take(j as int).push(self.constraints[j as int]@));
            j = j + 1;
        }
        assert(self.constraints.deep_view().take(self.constraints.len() as int) =~= self.constraints.deep_view());
        out
    }
}

/// The rows of all relations, relation by relation.
pub open spec fn edge_rows(edges: Seq<(Seq<char>, Seq<Seq<(Seq<char>, AttrModel)>>)>) -> Seq<Seq<(Seq<char>, AttrModel)>>
    decreases edges.len(),
{
    if edges.len() == 0 {
        Seq::empty()
    } else {
        edge_rows(edges.drop_last()) + edges.last().1
    }
}

/// The node of an entity, if it has one, followed by its edges.
pub open spec fn entity_rows(value: QueryValueModel) -> Seq<Seq<(Seq<char>, AttrModel)>> {
    match value.node {
        Some(node) => seq![node] + edge_rows(value.edges),
        None => edge_rows(value.edges),
    }
}

/// Every row of an entity: its node, if it has one, its edges and its constraints.
pub open spec fn every_row_of(value: QueryValueModel) -> Seq<Seq<(Seq<char>, AttrModel)>> {
    entity_rows(value) + value.constraints
}

/// What a query has gathered: the entities by key, in the order in which
/// their first rows came, and the key to continue after.
#[derive(Debug)]
pub struct QueryResult {
    /// The entities by key.
    pub values: OrderedMap<QueryValue>,
    pub last_evaluated_key: Option<String>,
}

/// The mathematical model of a query's result.
pub struct QueryResultModel {
    pub values: Seq<(Seq<char>, QueryValueModel)>,
    pub last_evaluated_key: Option<Seq<char>>,
}

impl DeepView for QueryResult {
    type V = QueryResultModel;

    open spec fn deep_view(&self) -> QueryResultModel {
        QueryResultModel { values: self.values.deep_view(), last_evaluated_key: self.last_evaluated_key.deep_view() }
    }
}

impl View for QueryResult {
    type V = QueryResultModel;

    open spec fn view(&self) -> QueryResultModel {
        self.deep_view()
    }
}

/// A result that has gathered nothing.
pub open spec fn empty_result() -> QueryResultModel {
    QueryResultModel { values: Seq::empty(), last_evaluated_key: None }
}

/// The key under which a row is grouped: the sort key for the rows of the
/// parent whose edges are listed, the partition key for all others.
pub open spec fn group_key(row: RowModel, scope: ScopeModel) -> Seq<char> {
    if scope.parent_pk == Some(row.pk) {
        row.sk
    } else {
        row.pk
    }
}

/// A result after one more row. Once it holds more entities than the page
/// size, rows are passed over. A row of an entity that is there joins it. A
/// row of a new entity starts it; where the page is full by then, the key of
/// that entity becomes the key to continue after.
pub open spec fn absorbed_row(state: QueryResultModel, row: RowModel, scope: ScopeModel) -> QueryResultModel {
    let key = group_key(row, scope);
    let i = find_key(state.values, key);
    if state.values.len() > scope.limit {
        state
    } else if i < state.values.len() {
        QueryResultModel {
            values: state.values.update(i, (key, absorbed_value(state.values[i].1, row, scope))),
            last_evaluated_key: state.last_evaluated_key,
        }
    } else {
        QueryResultModel {
            values: state.values.push((key, absorbed_value(empty_value(), row, scope))),
            last_evaluated_key: if state.values.len() == scope.limit {
                Some(key)
            } else {
                state.last_evaluated_key
            },
        }
    }
}

/// A result after the rows of a response, taken in their order.
pub open spec fn absorbed_rows(state: QueryResultModel, rows: Seq<RowModel>, scope: ScopeModel) -> QueryResultModel
    decreases rows.len(),
{
    if rows.len() == 0 {
        state
    } else {
        absorbed_row(absorbed_rows(state, rows.drop_last(), scope), rows.last(), scope)
    }
}

/// A result cut down to a page: once it holds more entities than the page
/// size, or has a key to continue after, the entity under that key leaves and
/// no more entities stay than the page size.
pub open spec fn trimmed(state: QueryResultModel, limit: usize) -> QueryResultModel {
    let kept = match state.last_evaluated_key {
        Some(key) => without(state.values, key),
        None => state.values,
    };
    if state.values.len() > limit || state.last_evaluated_key is Some {
        QueryResultModel {
            values: if limit < kept.len() {
                kept.take(limit as int)
            } else {
                kept
            },
            last_evaluated_key: state.last_evaluated_key,
        }
    } else {
        state
    }
}

/// One response of the store: its rows, and whether the store has more.
#[derive(Debug)]
pub struct Page {
    pub rows: Vec<StoredRow>,
    pub has_more: bool,
}

/// The mathematical model of a response.
pub struct PageModel {
    pub rows: Seq<RowModel>,
    pub has_more: bool,
}

impl DeepView for Page {
    type V = PageModel;

    open spec fn deep_view(&self) -> PageModel {
        PageModel { rows: self.rows.deep_view(), has_more: self.has_more }
    }
}

impl View for Page {
    type V = PageModel;

    open spec fn view(&self) -> PageModel {
        self.deep_view()
    }
}

/// What a query gathers from the responses `pages[from..]`, starting from
/// `state`: each response is taken in and the result cut down to a page; the
/// query ends with the first response that brings more entities than the page
/// size, or after which the store has no more.
pub open spec fn collected(state: QueryResultModel, pages: Seq<PageModel>, from: int, scope: ScopeModel) -> QueryResultModel
    decreases pages.len() - from,
{
    if from < 0 || from >= pages.len() {
        state
    } else {
        let taken = absorbed_rows(state, pages[from].rows, scope);
        if taken.values.len() > scope.limit || !pages[from].has_more {
            trimmed(taken, scope.limit)
        } else {
            collected(trimmed(taken, scope.limit), pages, from + 1, scope)
        }
    }
}

impl QueryResult {
    /// A result that has gathered nothing.
    pub fn new() -> (r: QueryResult)
        ensures
            r@ == empty_result(),
    {
        QueryResult { values: OrderedMap::new(), last_evaluated_key: None }
    }

    /// Takes one row in.
    pub fn absorb_row(&mut self, row: StoredRow, scope: &PageScope)
        ensures
            final(self)@ == absorbed_row(old(self)@, row@, scope@),
    {
        let len = self.values.len();
        if len <= scope.limit {
            let top = match &scope.parent_pk {
                Some(parent) => same_text(parent.as_str(), row.pk.as_str()),
                None => false,
            };
            let key = if top {
                row.sk.clone()
            } else {
                row.pk.clone()
            };
            assert(key@ == group_key(row@, scope@));
            let ghost before = self.values@;
            proof {
                lemma_find_key(before, key@);
            }
            let ghost row_model = row@;
            let i = self.values.position(key.as_str());
            if i < len {
                let mut value = self.values.replace(i, QueryValue::new());
                value.absorb(row, scope);
                let _ = self.values.replace(i, value);
                assert(self.values@ =~= before.update(
                    i as int,
                    (key@, absorbed_value(before[i as int].1, row_model, scope@)),
                ));
            } else {
                if len == scope.limit {
                    self.last_evaluated_key = Some(key.clone());
                }
                let mut value = QueryValue::new();
                value.absorb(row, scope);
                self.values.push(key, value);
            }
        }
    }

    /// Cuts the result down to a page.
    pub fn trim(&mut self, limit: usize)
        ensures
            final(self)@ == trimmed(old(self)@, limit),
    {
        if self.values.len() > limit || self.last_evaluated_key.is_some() {
            match &self.last_evaluated_key {
                Some(key) => {
                    self.values.remove(key.as_str());
                },
                None => {},
            }
            self.values.truncate(limit);
        }
    }

    /// Takes the rows of one response in and cuts the result down to a page.
    /// Returns whether the response brought more entities than the page size.
    pub fn absorb_page(&mut self, rows: Vec<StoredRow>, scope: &PageScope) -> (enough: bool)
        ensures
            final(self)@ == trimmed(absorbed_rows(old(self)@, rows.deep_view(), scope@), scope.limit),
            enough == (absorbed_rows(old(self)@, rows.deep_view(), scope@).values.len() > scope.limit),
    {
        let ghost all = rows.deep_view();
        let ghost start = self@;
        assert(all.len() == rows.len());
        // The rows are moved out from the back, so they are turned round first.
        let mut pending = reversed(rows);
        let mut taken: usize = 0;
        while pending.len() > 0
            invariant
                all.len() <= usize::MAX,
                taken + pending.len() == all.len(),
                forall|j: int| 0 <= j < pending.len() ==> pending[j]@ == all[all.len() - 1 - j],
                self@ == absorbed_rows(start, all.take(taken as int), scope@),
            decreases pending.len(),
        {
            let row = pending.pop().unwrap();
            assert(row@ == all[taken as int]);
            assert(all.take(taken + 1).drop_last() =~= all.take(taken as int));
            assert(all.take(taken + 1).last() == all[taken as int]);
            self.absorb_row(row, scope);
            taken = taken + 1;
        }
        assert(all.take(all.len() as int) =~= all);
        let enough = self.values.len() > scope.limit;
        self.trim(scope.limit);
        enough
    }
}

/// Gathers a page from the responses of the store, taken in their order.
/// Responses behind the one that ends the query are not looked at.
#[verifier::loop_isolation(false)]
pub fn query_node_edges(cursor: &PaginatedCursor, edges: &Vec<String>, node_type: &str, pages: Vec<Page>) -> (r: QueryResult)
    ensures
        r@ == collected(
            empty_result(),
            pages.deep_view(),
            0,
            ScopeModel {
                parent_pk: cursor@.nested_parent_pk(),
                limit: cursor@.limit(),
                edges: views(edges@),
                node_type: lowercase_text(node_type@),
            },
        ),
{
    let scope = PageScope::new(cursor, edges, node_type);
    let ghost wanted = scope@;
    let ghost all = pages.deep_view();
    assert(all.len() == pages.len());
    let mut result = QueryResult::new();
    let mut pending = reversed(pages);
    let mut taken: usize = 0;
    while pending.len() > 0
        invariant
            all.len() <= usize::MAX,
            taken + pending.len() == all.len(),
            forall|j: int| 0 <= j < pending.len() ==> pending[j]@ == all[all.len() - 1 - j],
            scope@ == wanted,
            collected(empty_result(), all, 0, wanted) == collected(result@, all, taken as int, wanted),
        decreases pending.len(),
    {
        let page = pending.pop().unwrap();
        assert(page@ == all[taken as int]);
        let Page { rows, has_more } = page;
        let ghost before = result@;
        assert(collected(before, all, taken as int, wanted) == if absorbed_rows(before, all[taken as int].rows, wanted).values.len()
            > wanted.limit || !all[taken as int].has_more {
            trimmed(absorbed_rows(before, all[taken as int].rows, wanted), wanted.limit)
        } else {
            collected(trimmed(absorbed_rows(before, all[taken as int].rows, wanted), wanted.limit), all, taken + 1, wanted)
        });
        let enough = result.absorb_page(rows, &scope);
        if enough || !has_more {
            return result;
        }
        taken = taken + 1;
    }
    result
}

} // verus!
