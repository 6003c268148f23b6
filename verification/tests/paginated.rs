use graph_gateway::cursor::{CursorCreation, PaginatedCursor};
use graph_gateway::item::{AttrValue, Item};
use graph_gateway::paginated::{query_node_edges, Page, PageScope, QueryResult};
use graph_gateway::query_plan::{plan_query, plan_query_for, RequestedIndex};
use graph_gateway::row::{classify_id, IdKind, StoredRow};

fn node_item(id: &str, ty: &str) -> Item {
    let mut item = Item::new();
    item.insert("__pk".to_string(), AttrValue::string(id));
    item.insert("__sk".to_string(), AttrValue::string(id));
    item.insert("__type".to_string(), AttrValue::string(ty));
    item
}

fn edge_item(pk: &str, sk: &str, ty: &str, relations: &[&str]) -> Item {
    let mut item = Item::new();
    item.insert("__pk".to_string(), AttrValue::string(pk));
    item.insert("__sk".to_string(), AttrValue::string(sk));
    item.insert("__type".to_string(), AttrValue::string(ty));
    item.insert(
        "__relation_name".to_string(),
        AttrValue::Ss(relations.iter().map(|r| r.to_string()).collect()),
    );
    item
}

fn row(item: Item) -> StoredRow {
    StoredRow::read(item).unwrap()
}

/// A collection of five products, the most recent first, as a forward scan returns them.
fn products() -> Vec<&'static str> {
    vec!["product#05", "product#04", "product#03", "product#02", "product#01"]
}

/// What the store returns for a forward cursor: the rows behind the key, in scan order.
fn store_after(after: Option<&str>) -> Vec<StoredRow> {
    products()
        .into_iter()
        .filter(|id| match after {
            Some(key) => *id < key,
            None => true,
        })
        .map(|id| row(node_item(id, "product")))
        .collect()
}

fn keys(result: &QueryResult) -> Vec<String> {
    (0..result.values.len()).map(|i| result.values.key_at(i).to_string()).collect()
}

#[test]
fn cursor_forward_from_first_and_after() {
    let cursor = PaginatedCursor::from_graphql(Some(10), None, Some("k".to_string()), None, None).unwrap();
    match &cursor {
        PaginatedCursor::Forward { exclusive_last_key, first, nested } => {
            assert_eq!(exclusive_last_key.as_deref(), Some("k"));
            assert_eq!(*first, 10);
            assert!(nested.is_none());
        }
        _ => panic!("a forward cursor was expected"),
    }
    assert!(!cursor.scan_index_forward());
    assert_eq!(cursor.limit(), 10);
    assert_eq!(cursor.pagination_string(), Some("k".to_string()));
    assert!(!cursor.is_nested_relation());
    assert_eq!(cursor.nested_parent_pk(), None);
    assert_eq!(cursor.relation_name(), None);
}

#[test]
fn cursor_backward_from_last_and_before() {
    let nested = Some(("products".to_string(), "category#1".to_string()));
    let cursor = PaginatedCursor::from_graphql(None, Some(3), None, Some("b".to_string()), nested).unwrap();
    assert!(matches!(cursor, PaginatedCursor::Backward { last: 3, .. }));
    assert!(cursor.scan_index_forward());
    assert_eq!(cursor.limit(), 3);
    assert_eq!(cursor.pagination_string(), Some("b".to_string()));
    assert!(cursor.is_nested_relation());
    assert_eq!(cursor.nested_parent_pk(), Some("category#1".to_string()));
    assert_eq!(cursor.relation_name(), Some("products".to_string()));
}

#[test]
fn cursor_first_and_last_exclude_each_other() {
    let err = PaginatedCursor::from_graphql(Some(1), Some(1), None, None, None).unwrap_err();
    assert_eq!(err, CursorCreation::SameParameterSameTime);
    assert_eq!(err.to_string(), "The \"first\" and \"last\" parameters cannot exist at the same time.");
    let err = PaginatedCursor::from_graphql(Some(1), Some(1), Some("a".to_string()), Some("b".to_string()), None).unwrap_err();
    assert_eq!(err, CursorCreation::SameParameterSameTime);
}

#[test]
fn cursor_first_excludes_before() {
    let err = PaginatedCursor::from_graphql(Some(1), None, None, Some("b".to_string()), None).unwrap_err();
    assert_eq!(err, CursorCreation::FirstAndBeforeSameTime);
    assert_eq!(err.to_string(), "The \"first\" and \"before\" parameter cannot exist at the same time.");
}

#[test]
fn cursor_last_excludes_after() {
    let err = PaginatedCursor::from_graphql(None, Some(1), Some("a".to_string()), None, None).unwrap_err();
    assert_eq!(err, CursorCreation::LastAndAfterSameTime);
    assert_eq!(err.to_string(), "The \"last\" and \"after\" parameter cannot exist at the same time.");
}

#[test]
fn cursor_needs_a_direction() {
    let err = PaginatedCursor::from_graphql(None, None, Some("a".to_string()), None, None).unwrap_err();
    assert_eq!(err, CursorCreation::Direction);
    assert_eq!(
        err.to_string(),
        "You must choose a Pagination direction by having the \"first\" or \"last\" parameter."
    );
    assert_eq!(
        CursorCreation::FirstNonNegative.to_string(),
        "The \"first\" parameter must be a non-negative number"
    );
    assert_eq!(
        CursorCreation::LastNonNegative.to_string(),
        "The \"last\" parameter must be a non-negative number"
    );
}

#[test]
fn identifiers_are_classified_by_their_shape() {
    assert!(matches!(classify_id("Product#01H"), Some(IdKind::Node { ty }) if ty == "product"));
    assert!(matches!(classify_id("__C#product#name#widget"), Some(IdKind::Constraint)));
    assert!(matches!(classify_id("__C#product"), Some(IdKind::Node { ty }) if ty == "__c"));
    assert!(classify_id("no-separator").is_none());
    assert!(classify_id("").is_none());
}

#[test]
fn rows_need_both_keys() {
    let mut item = Item::new();
    item.insert("__pk".to_string(), AttrValue::string("product#1"));
    assert!(StoredRow::read(item).is_none());
    let mut item = node_item("product#1", "product");
    item.insert("__sk".to_string(), AttrValue::N("1".to_string()));
    assert!(StoredRow::read(item).is_none());
    assert!(StoredRow::read(node_item("nokind", "product")).is_none());
    let read = row(edge_item("category#1", "product#1", "product", &["products"]));
    assert_eq!(read.pk, "category#1");
    assert_eq!(read.sk, "product#1");
    assert_eq!(read.relation_names, Some(vec!["products".to_string()]));
}

#[test]
fn a_page_holds_the_first_entities_and_names_the_next() {
    let cursor = PaginatedCursor::from_graphql(Some(2), None, None, None, None).unwrap();
    let pages = vec![Page { rows: store_after(None), has_more: false }];
    let result = query_node_edges(&cursor, &vec![], "Product", pages);
    assert_eq!(keys(&result), vec!["product#05", "product#04"]);
    assert_eq!(result.last_evaluated_key.as_deref(), Some("product#03"));
    assert!(result.values.value_at(0).node.is_some());
    assert!(result.values.value_at(0).edges.len() == 0);
}

#[test]
fn a_short_collection_fits_on_one_page() {
    let cursor = PaginatedCursor::from_graphql(Some(10), None, None, None, None).unwrap();
    let pages = vec![Page { rows: store_after(None), has_more: false }];
    let result = query_node_edges(&cursor, &vec![], "Product", pages);
    assert_eq!(keys(&result), products());
    assert_eq!(result.last_evaluated_key, None);
}

#[test]
fn paginate_two_by_two_over_five_items() {
    let first = PaginatedCursor::from_graphql(Some(2), None, None, None, None).unwrap();
    let page_one = query_node_edges(&first, &vec![], "Product", vec![Page { rows: store_after(None), has_more: false }]);
    let one = keys(&page_one);
    let end_cursor = one.last().unwrap().clone();

    let second = PaginatedCursor::from_graphql(Some(2), None, Some(end_cursor.clone()), None, None).unwrap();
    let page_two = query_node_edges(
        &second,
        &vec![],
        "Product",
        vec![Page { rows: store_after(Some(&end_cursor)), has_more: false }],
    );
    let two = keys(&page_two);

    assert!(one.iter().all(|key| !two.contains(key)));
    let mut union = one.clone();
    union.extend(two);
    assert_eq!(union, vec!["product#05", "product#04", "product#03", "product#02"]);
}

#[test]
fn the_page_behind_the_evaluated_key_continues_in_order() {
    let first = PaginatedCursor::from_graphql(Some(2), None, None, None, None).unwrap();
    let page_one = query_node_edges(&first, &vec![], "Product", vec![Page { rows: store_after(None), has_more: false }]);
    let key = page_one.last_evaluated_key.clone().unwrap();
    assert_eq!(key, "product#03");
    let second = PaginatedCursor::from_graphql(Some(2), None, Some(key.clone()), None, None).unwrap();
    let page_two =
        query_node_edges(&second, &vec![], "Product", vec![Page { rows: store_after(Some(&key)), has_more: false }]);
    assert_eq!(keys(&page_two), vec!["product#02", "product#01"]);
    assert_eq!(page_two.last_evaluated_key, None);
    let one = keys(&page_one);
    assert!(keys(&page_two).iter().all(|k| !one.contains(k) && *k != key));
}

#[test]
fn rows_of_one_entity_are_grouped() {
    let cursor = PaginatedCursor::from_graphql(Some(2), None, None, None, None).unwrap();
    let edges = vec!["products".to_string(), "tags".to_string()];
    let rows = vec![
        row(node_item("category#2", "category")),
        row(edge_item("category#2", "product#9", "product", &["products"])),
        row(edge_item("category#2", "product#8", "product", &["other", "products"])),
        row(edge_item("category#2", "tag#1", "tag", &["tags"])),
        row(edge_item("category#2", "user#1", "user", &["owner"])),
        row(node_item("__C#category#name#tools", "category")),
        row(node_item("category#1", "category")),
    ];
    let result = query_node_edges(&cursor, &edges, "Category", vec![Page { rows, has_more: false }]);
    assert_eq!(keys(&result), vec!["category#2", "__C#category#name#tools"]);
    let first = result.values.value_at(0);
    assert!(first.node.is_some());
    assert_eq!(first.edges.len(), 2);
    assert_eq!(first.edges.key_at(0), "products");
    assert_eq!(first.edges.value_at(0).len(), 2);
    assert_eq!(first.edges.key_at(1), "tags");
    assert_eq!(first.edges.value_at(1).len(), 1);
    assert_eq!(first.iter().len(), 4);
    let second = result.values.value_at(1);
    assert!(second.node.is_none());
    assert_eq!(second.constraints.len(), 1);
    assert_eq!(result.last_evaluated_key.as_deref(), Some("category#1"));
}

#[test]
fn nested_pages_group_the_parents_rows_by_sort_key() {
    let nested = Some(("products".to_string(), "category#1".to_string()));
    let cursor = PaginatedCursor::from_graphql(Some(5), None, None, None, nested).unwrap();
    let rows = vec![
        row(edge_item("category#1", "product#2", "product", &["products"])),
        row(edge_item("category#1", "product#1", "product", &["products"])),
    ];
    let result = query_node_edges(&cursor, &vec![], "Product", vec![Page { rows, has_more: false }]);
    assert_eq!(keys(&result), vec!["product#2", "product#1"]);
    assert!(result.values.value_at(0).node.is_some());
}

#[test]
fn pages_are_read_until_the_page_is_full() {
    let cursor = PaginatedCursor::from_graphql(Some(3), None, None, None, None).unwrap();
    let mut all = store_after(None);
    let rest = all.split_off(2);
    let mut rest = rest;
    let last = rest.split_off(2);
    let pages = vec![
        Page { rows: all, has_more: true },
        Page { rows: rest, has_more: true },
        Page { rows: last, has_more: false },
    ];
    let result = query_node_edges(&cursor, &vec![], "Product", pages);
    assert_eq!(keys(&result), vec!["product#05", "product#04", "product#03"]);
    assert_eq!(result.last_evaluated_key.as_deref(), Some("product#02"));
}

#[test]
fn a_row_is_absorbed_by_hand() {
    let cursor = PaginatedCursor::from_graphql(Some(1), None, None, None, None).unwrap();
    let scope = PageScope::new(&cursor, &vec![], "PRODUCT");
    assert_eq!(scope.node_type, "product");
    let mut result = QueryResult::new();
    result.absorb_row(row(node_item("product#2", "product")), &scope);
    result.absorb_row(row(node_item("product#1", "product")), &scope);
    result.absorb_row(row(node_item("product#0", "product")), &scope);
    assert_eq!(result.values.len(), 2);
    assert_eq!(result.last_evaluated_key.as_deref(), Some("product#1"));
    result.trim(1);
    assert_eq!(keys(&result), vec!["product#2"]);
}

#[test]
fn the_query_of_a_collection() {
    let cursor = PaginatedCursor::from_graphql(Some(2), None, Some("product#03".to_string()), None, None).unwrap();
    let index = RequestedIndex { pk: "__gsi1pk".to_string(), sk: "__gsi1sk".to_string(), name: Some("gsi1".to_string()) };
    let edges = vec!["reviews".to_string(), "tags".to_string()];
    let query = plan_query(&cursor, &edges, "Product", "table", &index);
    assert_eq!(query.table_name, "table");
    assert_eq!(query.index_name.as_deref(), Some("gsi1"));
    assert_eq!(query.key_condition_expression, "#pk = :pk AND #sk < :pkorder");
    assert_eq!(
        query.filter_expression,
        "begins_with(#type, :type) OR ( contains(#relationname, :relation0) OR  contains(#relationname, :relation1))"
    );
    assert!(!query.scan_index_forward);
    let names: Vec<(String, String)> = (0..query.expression_attribute_names.len())
        .map(|i| {
            (
                query.expression_attribute_names.key_at(i).to_string(),
                query.expression_attribute_names.value_at(i).clone(),
            )
        })
        .collect();
    assert_eq!(
        names,
        vec![
            ("#pk".to_string(), "__gsi1pk".to_string()),
            ("#type".to_string(), "__type".to_string()),
            ("#relationname".to_string(), "__relation_name".to_string()),
            ("#sk".to_string(), "__gsi1sk".to_string()),
        ]
    );
    let values = &query.expression_attribute_values;
    assert!(matches!(values.get(":pk"), Some(AttrValue::S(s)) if s == "product"));
    assert!(matches!(values.get(":relation0"), Some(AttrValue::S(s)) if s == "reviews"));
    assert!(matches!(values.get(":relation1"), Some(AttrValue::S(s)) if s == "tags"));
    assert!(matches!(values.get(":type"), Some(AttrValue::S(s)) if s == "product"));
    assert!(matches!(values.get(":pkorder"), Some(AttrValue::S(s)) if s == "product#03"));
    assert_eq!(values.len(), 5);
}

#[test]
fn the_query_below_a_parent() {
    let nested = Some(("products".to_string(), "category#1".to_string()));
    let cursor = PaginatedCursor::from_graphql(None, Some(2), None, Some("product#03".to_string()), nested).unwrap();
    let index = RequestedIndex { pk: "__gsi1pk".to_string(), sk: "__gsi1sk".to_string(), name: Some("gsi1".to_string()) };
    let query = plan_query(&cursor, &vec![], "Product", "table", &index);
    assert_eq!(query.index_name, None);
    assert_eq!(query.key_condition_expression, "#pk = :pk AND #sk > :pkorder");
    assert_eq!(
        query.filter_expression,
        "(begins_with(#type, :type) AND contains(#relationname, :relation)) "
    );
    assert!(query.scan_index_forward);
    assert_eq!(query.expression_attribute_names.get("#pk").map(|s| s.as_str()), Some("__pk"));
    assert_eq!(query.expression_attribute_names.get("#sk").map(|s| s.as_str()), Some("__sk"));
    assert!(matches!(query.expression_attribute_values.get(":pk"), Some(AttrValue::S(s)) if s == "category#1"));
    assert!(matches!(query.expression_attribute_values.get(":relation"), Some(AttrValue::S(s)) if s == "products"));
}

#[test]
fn the_query_without_a_key_to_continue_from() {
    let cursor = PaginatedCursor::from_graphql(Some(2), None, None, None, None).unwrap();
    let index = RequestedIndex { pk: "__gsi1pk".to_string(), sk: "__gsi1sk".to_string(), name: None };
    let query = plan_query(&cursor, &vec![], "Product", "table", &index);
    assert_eq!(query.key_condition_expression, "#pk = :pk");
    assert_eq!(query.filter_expression, "begins_with(#type, :type) ");
    assert_eq!(query.index_name, None);
    assert!(!query.expression_attribute_names.contains_key("#sk"));
    assert!(!query.expression_attribute_values.contains(":pkorder"));
}

#[test]
fn the_type_of_a_query_is_in_lower_case() {
    let cursor = PaginatedCursor::from_graphql(Some(2), None, None, None, None).unwrap();
    let index = RequestedIndex { pk: "__gsi1pk".to_string(), sk: "__gsi1sk".to_string(), name: Some("gsi1".to_string()) };
    let query = plan_query(&cursor, &vec![], "BlogPost", "table", &index);
    assert!(matches!(query.expression_attribute_values.get(":pk"), Some(AttrValue::S(s)) if s == "blogpost"));
    assert!(matches!(query.expression_attribute_values.get(":type"), Some(AttrValue::S(s)) if s == "blogpost"));
    let query = plan_query_for(&cursor, &vec![], "AsGiven", "table", &index);
    assert!(matches!(query.expression_attribute_values.get(":pk"), Some(AttrValue::S(s)) if s == "AsGiven"));
    assert!(matches!(query.expression_attribute_values.get(":type"), Some(AttrValue::S(s)) if s == "AsGiven"));
}

#[test]
fn a_nested_page_hands_back_the_key_of_the_entity() {
    let nested = Some(("products".to_string(), "category#1".to_string()));
    let cursor = PaginatedCursor::from_graphql(Some(2), None, None, None, nested.clone()).unwrap();
    let store = vec![
        edge_item("category#1", "product#5", "product", &["products"]),
        edge_item("category#1", "product#4", "product", &["products"]),
        edge_item("category#1", "product#3", "product", &["products"]),
        edge_item("category#1", "product#2", "product", &["products"]),
        edge_item("category#1", "product#1", "product", &["products"]),
    ];
    let rows: Vec<StoredRow> = store.iter().map(|item| row(item.duplicate())).collect();
    let first = query_node_edges(&cursor, &vec![], "Product", vec![Page { rows, has_more: false }]);
    assert_eq!(keys(&first), vec!["product#5", "product#4"]);
    // The key to continue after is the key of the third product, not the parent.
    assert_eq!(first.last_evaluated_key.as_deref(), Some("product#3"));

    // The store hands out the rows behind that key.
    let behind: Vec<StoredRow> = store.iter().skip(3).map(|item| row(item.duplicate())).collect();
    let next = PaginatedCursor::from_graphql(Some(2), None, first.last_evaluated_key.clone(), None, nested).unwrap();
    let second = query_node_edges(&next, &vec![], "Product", vec![Page { rows: behind, has_more: false }]);
    assert_eq!(keys(&second), vec!["product#2", "product#1"]);
    assert!(keys(&first).iter().all(|key| !keys(&second).contains(key)));
    assert_eq!(second.last_evaluated_key, None);
}

#[test]
fn a_nested_page_of_size_zero_hands_back_the_first_entity() {
    let nested = Some(("products".to_string(), "category#1".to_string()));
    let cursor = PaginatedCursor::from_graphql(Some(0), None, None, None, nested).unwrap();
    let rows = vec![row(edge_item("category#1", "product#2", "product", &["products"]))];
    let result = query_node_edges(&cursor, &vec![], "Product", vec![Page { rows, has_more: false }]);
    assert!(keys(&result).is_empty());
    assert_eq!(result.last_evaluated_key.as_deref(), Some("product#2"));
}

#[test]
fn pages_of_entities_with_edges_share_no_entity() {
    let cursor = PaginatedCursor::from_graphql(Some(1), None, None, None, None).unwrap();
    let edges = vec!["reviews".to_string()];
    let store = vec![
        edge_item("product#3", "product#3", "product", &[]),
        edge_item("product#3", "review#9", "review", &["reviews"]),
        edge_item("product#2", "product#2", "product", &[]),
        edge_item("product#2", "review#8", "review", &["reviews"]),
        edge_item("product#1", "product#1", "product", &[]),
        edge_item("product#1", "review#7", "review", &["reviews"]),
    ];
    // The store answers in responses of two rows, which cut through no entity here.
    let responses = |from: usize| -> Vec<Page> {
        store[from..]
            .chunks(2)
            .map(|chunk| Page { rows: chunk.iter().map(|item| row(item.duplicate())).collect(), has_more: true })
            .collect()
    };
    let first = query_node_edges(&cursor, &edges, "Product", responses(0));
    assert_eq!(keys(&first), vec!["product#3"]);
    assert_eq!(first.values.value_at(0).edges.get("reviews").map(|rows| rows.len()), Some(1));
    assert_eq!(first.last_evaluated_key.as_deref(), Some("product#2"));
    // Behind the last row of the entity of the key.
    let second = query_node_edges(&cursor, &edges, "Product", responses(4));
    assert_eq!(keys(&second), vec!["product#1"]);
    assert_eq!(second.values.value_at(0).edges.get("reviews").map(|rows| rows.len()), Some(1));
}
