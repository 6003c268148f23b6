use graph_gateway::delete::{delete_transactions, MutationError};
use graph_gateway::execute::{selected_rows, selection_keys, write_items};
use graph_gateway::ids::{make_node_id, nth_ulid};
use graph_gateway::input::InputValue;
use graph_gateway::item::{AttrValue, Item};
use graph_gateway::mutation::{MutationPlan, Selection, Transaction};
use graph_gateway::node_types::{NodeType, Relation};
use graph_gateway::paginated::{QueryResult, QueryValue};
use graph_gateway::planner::{inputs, link_keys, node_create};
use graph_gateway::resolver::{DynamoMutationResolver, MutationStep, TypeCatalog, VariableResolveDefinition};
use graph_gateway::update::{apply_update, duplicate_keys, update_transactions};
use graph_gateway::writes::{create_relation_node, relation_remove, SelectedRow, TxItem, WriteOp};

const EXECUTION: u128 = 0x0186_0000_0000_0000_0000_0000_0000_0001;
const NOW: &str = "2023-03-01 10:00:00 UTC";

fn text(s: &str) -> InputValue {
    InputValue::Text(s.to_string())
}

fn object(fields: Vec<(&str, InputValue)>) -> InputValue {
    InputValue::Object(fields.into_iter().map(|(k, v)| (k.to_string(), v)).collect())
}

fn fields(fields: Vec<(&str, InputValue)>) -> Vec<(String, InputValue)> {
    fields.into_iter().map(|(k, v)| (k.to_string(), v)).collect()
}

fn catalog() -> TypeCatalog {
    TypeCatalog::new(vec![
        NodeType {
            name: "Category".to_string(),
            relations: vec![Relation {
                field: "products".to_string(),
                name: "categoryProducts".to_string(),
                target: "Product".to_string(),
            }],
        },
        NodeType {
            name: "Product".to_string(),
            relations: vec![Relation {
                field: "category".to_string(),
                name: "categoryProducts".to_string(),
                target: "Category".to_string(),
            }],
        },
    ])
    .unwrap()
}

fn string_attr(item: &Item, name: &str) -> String {
    match item.get(name) {
        Some(AttrValue::S(s)) => s.clone(),
        other => panic!("{name} is {other:?}"),
    }
}

fn names(item: &Item) -> Vec<String> {
    (0..item.len()).map(|i| item.name_at(i).to_string()).collect()
}

fn row(pk: &str, sk: &str, attrs: Vec<(&str, &str)>) -> SelectedRow {
    let mut item = Item::new();
    item.insert("__pk".to_string(), AttrValue::string(pk));
    item.insert("__sk".to_string(), AttrValue::string(sk));
    for (name, value) in attrs {
        item.insert(name.to_string(), AttrValue::string(value));
    }
    SelectedRow { pk: pk.to_string(), sk: sk.to_string(), item }
}

fn keys(items: &[TxItem]) -> Vec<(String, String)> {
    items.iter().map(|tx| (tx.pk.clone(), tx.sk.clone())).collect()
}

#[test]
fn identifiers_are_a_type_and_a_ulid() {
    assert_eq!(make_node_id("Category", 0), "Category#00000000000000000000000000");
    assert_eq!(make_node_id("Category", 1), "Category#00000000000000000000000001");
    assert_eq!(make_node_id("Product", 32), "Product#00000000000000000000000010");
    assert_eq!(make_node_id("Product", u128::MAX), "Product#7ZZZZZZZZZZZZZZZZZZZZZZZZZ");
}

#[test]
fn ulids_are_counted_up_within_their_time() {
    assert_eq!(nth_ulid(5, 0), Some(5));
    assert_eq!(nth_ulid(5, 3), Some(8));
    let full: u128 = (1u128 << 80) - 1;
    assert_eq!(nth_ulid(full, 0), Some(full));
    assert_eq!(nth_ulid(full, 1), None);
    assert_eq!(nth_ulid(full - 2, 2), Some(full));
    assert_eq!(nth_ulid(full - 2, 3), None);
    assert_eq!(nth_ulid((7u128 << 80) | full, 1), None);
}

#[test]
fn the_catalog_has_to_be_closed() {
    let open = TypeCatalog::new(vec![NodeType {
        name: "Product".to_string(),
        relations: vec![Relation { field: "category".to_string(), name: "r".to_string(), target: "Category".to_string() }],
    }]);
    assert!(open.is_none());
    assert_eq!(catalog().types().len(), 2);
}

#[test]
fn create_category_with_nested_product() {
    let resolver = DynamoMutationResolver::CreateNode {
        input: VariableResolveDefinition::InputTypeName("input".to_string()),
        ty: "Category".to_string(),
    };
    let arguments = fields(vec![(
        "input",
        object(vec![
            ("name", text("Tools")),
            ("products", object(vec![("create", InputValue::List(vec![]))])),
            ("products", InputValue::Null),
        ]),
    )]);
    // The nested input products: { create: [{ name: "Widget" }] } is written as a list of children.
    let arguments_nested = fields(vec![(
        "input",
        object(vec![
            ("name", text("Tools")),
            ("products", InputValue::List(vec![object(vec![("create", object(vec![("name", text("Widget"))]))])])),
        ]),
    )]);
    let catalog = catalog();
    let unused = resolver.resolve_at(&catalog, &arguments, EXECUTION, NOW).unwrap();
    assert!(matches!(unused, MutationStep::Write { .. }));

    let step = resolver.resolve_at(&catalog, &arguments_nested, EXECUTION, NOW).unwrap();
    let (plan, root, id) = match step {
        MutationStep::Write { plan, root, id } => (plan, root, id),
        MutationStep::Delete { .. } => panic!("a write was expected"),
    };
    let category_id = make_node_id("Category", EXECUTION);
    let product_id = make_node_id("Product", EXECUTION + 1);
    assert_eq!(id, category_id);
    assert!(id.starts_with("Category#"));
    assert!(plan.errors.is_empty());
    assert_eq!(plan.next_ulid, Some(EXECUTION + 2));
    assert_eq!(plan.selections.len(), 2);
    assert_eq!(root.selection, 0);
    assert_eq!(root.transaction.len(), 4);
    assert!(matches!(&root.transaction[0], Transaction::PutNode { id, .. } if *id == product_id));
    assert!(matches!(
        &root.transaction[1],
        Transaction::RelationNode { to_ty, described: 1, owner: 0, relation_name } if to_ty == "Category" && relation_name == "categoryProducts"
    ));
    assert!(matches!(
        &root.transaction[2],
        Transaction::RelationNode { to_ty, described: 0, owner: 1, relation_name } if to_ty == "Product" && relation_name == "categoryProducts"
    ));
    assert!(matches!(&root.transaction[3], Transaction::PutNode { id, .. } if *id == category_id));

    let loaded: Vec<Vec<SelectedRow>> = plan.selections.iter().map(|_| Vec::new()).collect();
    assert!(plan.selections.iter().all(|s| selection_keys(s).is_empty()));
    let rows = selected_rows(&plan, &loaded, NOW);
    let writes = write_items(catalog.types(), &root.transaction, &rows, &vec![], NOW, "table");
    assert_eq!(writes.len(), 4);
    assert_eq!(
        keys(&writes),
        vec![
            (product_id.clone(), product_id.clone()),
            (category_id.clone(), product_id.clone()),
            (product_id.clone(), category_id.clone()),
            (category_id.clone(), category_id.clone()),
        ]
    );
    assert!(writes.len() >= 3);
    assert_eq!(writes.iter().filter(|w| matches!(w.transaction, WriteOp::Put { .. })).count(), 2);
    assert_eq!(writes[1].relation_name.as_deref(), Some("categoryProducts"));
    assert_eq!(writes[2].relation_name.as_deref(), Some("categoryProducts"));

    match &writes[3].transaction {
        WriteOp::Put { table_name, item } => {
            assert_eq!(table_name, "table");
            assert_eq!(
                names(item),
                vec![
                    "name", "__pk", "__sk", "__type", "created_at", "updated_at", "__gsi1pk", "__gsi1sk", "__gsi2pk",
                    "__gsi2sk"
                ]
            );
            assert_eq!(string_attr(item, "name"), "Tools");
            assert_eq!(string_attr(item, "__pk"), category_id);
            assert_eq!(string_attr(item, "__sk"), category_id);
            assert_eq!(string_attr(item, "__type"), "Category");
            assert_eq!(string_attr(item, "created_at"), NOW);
            assert_eq!(string_attr(item, "updated_at"), NOW);
            assert_eq!(string_attr(item, "__gsi1pk"), "Category");
            assert_eq!(string_attr(item, "__gsi1sk"), category_id);
            assert_eq!(string_attr(item, "__gsi2pk"), category_id);
            assert_eq!(string_attr(item, "__gsi2sk"), category_id);
        }
        other => panic!("a put was expected, not {other:?}"),
    }
}

#[test]
fn the_edge_of_a_relation() {
    let catalog = catalog();
    let category = &catalog.types()[0];
    let parent = vec![row("Category#1", "Category#1", vec![("name", "Tools"), ("__type", "Category")])];
    let child = vec![row("Product#2", "Product#2", vec![("name", "Widget"), ("__relation_name", "old")])];
    let edge = create_relation_node(category, &child, &parent, "categoryProducts", "table").unwrap();
    assert_eq!(edge.pk, "Category#1");
    assert_eq!(edge.sk, "Product#2");
    assert_eq!(edge.relation_name.as_deref(), Some("categoryProducts"));
    match &edge.transaction {
        WriteOp::Update {
            table_name,
            key,
            condition_expression,
            update_expression,
            expression_attribute_values,
            expression_attribute_names,
        } => {
            assert_eq!(table_name, "table");
            assert_eq!(string_attr(key, "__pk"), "Category#1");
            assert_eq!(string_attr(key, "__sk"), "Product#2");
            assert_eq!(*condition_expression, None);
            assert_eq!(
                update_expression,
                "set name=:name,#gsi1pk=:__gsi1pk,#gsi1sk=:__gsi1sk,#gsi2sk=:__gsi2sk  ADD #relation_name :relation_name "
            );
            assert_eq!(
                names(expression_attribute_values),
                vec![":name", ":__gsi1pk", ":__gsi1sk", ":__gsi2sk", ":relation_name"]
            );
            assert_eq!(string_attr(expression_attribute_values, ":name"), "Widget");
            assert_eq!(string_attr(expression_attribute_values, ":__gsi1pk"), "Category");
            assert_eq!(string_attr(expression_attribute_values, ":__gsi1sk"), "Category#1");
            assert_eq!(string_attr(expression_attribute_values, ":__gsi2sk"), "Category#1");
            assert!(matches!(
                expression_attribute_values.get(":relation_name"),
                Some(AttrValue::Ss(names)) if names == &vec!["categoryProducts".to_string()]
            ));
            let placeholders: Vec<(String, String)> = (0..expression_attribute_names.len())
                .map(|i| {
                    (
                        expression_attribute_names.key_at(i).to_string(),
                        expression_attribute_names.value_at(i).clone(),
                    )
                })
                .collect();
            assert_eq!(
                placeholders,
                vec![
                    ("#relation_name".to_string(), "__relation_name".to_string()),
                    ("#gsi1pk".to_string(), "__gsi1pk".to_string()),
                    ("#gsi1sk".to_string(), "__gsi1sk".to_string()),
                    ("#gsi2sk".to_string(), "__gsi2sk".to_string()),
                ]
            );
        }
        other => panic!("an update was expected, not {other:?}"),
    }
}

#[test]
fn no_edge_without_rows() {
    let catalog = catalog();
    let category = &catalog.types()[0];
    let parent = vec![row("Category#1", "Category#1", vec![])];
    let child = vec![row("Product#2", "Product#2", vec![])];
    assert!(create_relation_node(category, &vec![], &parent, "categoryProducts", "table").is_none());
    assert!(create_relation_node(category, &child, &vec![], "categoryProducts", "table").is_none());
}

#[test]
fn an_edge_is_written_whatever_the_type_declares() {
    let catalog = catalog();
    let category = &catalog.types()[0];
    let parent = vec![row("Category#1", "Category#1", vec![])];
    let child = vec![row("Product#2", "Product#2", vec![])];
    let edge = create_relation_node(category, &child, &parent, "unknown", "table").expect("the side is written");
    assert_eq!((edge.pk.as_str(), edge.sk.as_str()), ("Category#1", "Product#2"));
    assert_eq!(edge.relation_name.as_deref(), Some("unknown"));
    match &edge.transaction {
        WriteOp::Update { expression_attribute_values, .. } => {
            assert!(matches!(expression_attribute_values.get(":relation_name"), Some(AttrValue::Ss(names)) if names == &vec!["unknown".to_string()]));
        }
        other => panic!("an update was expected, not {other:?}"),
    }
}

#[test]
fn linking_loads_the_named_nodes_and_writes_both_sides() {
    let catalog = catalog();
    let mut plan = MutationPlan::new(EXECUTION);
    let input = fields(vec![
        ("name", text("Tools")),
        ("products", object(vec![("link", InputValue::List(vec![text("Product#7"), text("Product#8")]))])),
    ]);
    let creation = node_create(&mut plan, catalog.types(), 0, NOW, &input).unwrap();
    assert_eq!(plan.selections.len(), 2);
    assert!(matches!(&plan.selections[1], Selection::Load { keys } if keys == &vec![
        ("Product#7".to_string(), "Product#7".to_string()),
        ("Product#8".to_string(), "Product#8".to_string()),
    ]));
    assert_eq!(selection_keys(&plan.selections[1]).len(), 2);
    assert_eq!(creation.transaction.len(), 3);
    let loaded = vec![vec![], vec![row("Product#7", "Product#7", vec![("name", "Seven")])]];
    let rows = selected_rows(&plan, &loaded, NOW);
    let writes = write_items(catalog.types(), &creation.transaction, &rows, &vec![], NOW, "table");
    let category_id = make_node_id("Category", EXECUTION);
    assert_eq!(
        keys(&writes),
        vec![
            (category_id.clone(), "Product#7".to_string()),
            ("Product#7".to_string(), category_id.clone()),
            (category_id.clone(), category_id.clone()),
        ]
    );
}

#[test]
fn a_link_that_names_something_else_than_identifiers_is_refused() {
    assert_eq!(link_keys(&InputValue::List(vec![text("a"), InputValue::Boolean(true)])).unwrap_err(), MutationError::NotAnIdentifier);
    assert_eq!(link_keys(&InputValue::Null).unwrap(), None);
    assert_eq!(link_keys(&text("a")).unwrap(), Some(vec![("a".to_string(), "a".to_string())]));
    let catalog = catalog();
    let mut plan = MutationPlan::new(EXECUTION);
    let input = fields(vec![("products", object(vec![("link", InputValue::List(vec![InputValue::Null]))]))]);
    assert_eq!(node_create(&mut plan, catalog.types(), 0, NOW, &input).unwrap_err(), MutationError::NotAnIdentifier);
    assert_eq!(
        MutationError::NotAnIdentifier.message(),
        "Internal Error: an item to link is not given by its identifier."
    );
}

#[test]
fn identifiers_run_out_at_the_end_of_their_time() {
    let catalog = catalog();
    let full: u128 = (1u128 << 80) - 1;
    let mut plan = MutationPlan::new(full);
    let input = fields(vec![
        ("name", text("Tools")),
        ("products", object(vec![("create", object(vec![("name", text("Widget"))]))])),
    ]);
    assert_eq!(node_create(&mut plan, catalog.types(), 0, NOW, &input).unwrap_err(), MutationError::IdentifiersExhausted);
    assert_eq!(
        MutationError::IdentifiersExhausted.message(),
        "Internal Error: no identifier is left for a new item."
    );
}

#[test]
fn unlinking_removes_both_sides() {
    let resolver = DynamoMutationResolver::UpdateNode {
        id: VariableResolveDefinition::InputTypeName("id".to_string()),
        input: VariableResolveDefinition::InputTypeName("input".to_string()),
        ty: "Category".to_string(),
    };
    let arguments = fields(vec![
        ("id", text("Category#1")),
        ("input", object(vec![("products", object(vec![("unlink", text("Product#2"))]))])),
    ]);
    let catalog = catalog();
    let step = resolver.resolve_at(&catalog, &arguments, EXECUTION, NOW).unwrap();
    let (plan, root, id) = match step {
        MutationStep::Write { plan, root, id } => (plan, root, id),
        MutationStep::Delete { .. } => panic!("a write was expected"),
    };
    assert_eq!(id, "Category#1");
    assert_eq!(plan.selections.len(), 3);
    assert!(matches!(&plan.selections[0], Selection::Updated { id, fields } if id == "Category#1" && fields.is_empty()));
    assert!(matches!(&plan.selections[1], Selection::Load { .. }));
    assert!(matches!(&plan.selections[2], Selection::Joined { updated: 0, id } if id == "Category#1"));
    assert_eq!(root.selection, 2);
    assert_eq!(selection_keys(&plan.selections[0]), vec![("Category#1".to_string(), "Category#1".to_string())]);
    let loaded = vec![
        vec![row("Category#1", "Category#1", vec![("name", "Tools")])],
        vec![row("Product#2", "Product#2", vec![])],
        vec![],
    ];
    let rows = selected_rows(&plan, &loaded, NOW);
    assert_eq!(rows[2].len(), 1);
    let writes = write_items(catalog.types(), &root.transaction, &rows, &vec![], NOW, "table");
    assert_eq!(
        keys(&writes),
        vec![
            ("Product#2".to_string(), "Category#1".to_string()),
            ("Category#1".to_string(), "Product#2".to_string()),
        ]
    );
    assert!(writes.iter().all(|w| matches!(w.transaction, WriteOp::Delete { .. })));
}

#[test]
fn the_rows_of_the_node_itself_are_not_unlinked() {
    let from = vec![row("Product#2", "Product#2", vec![]), row("Category#1", "Category#1", vec![])];
    let writes = relation_remove(&from, "Product#2", "table");
    assert_eq!(
        keys(&writes),
        vec![
            ("Product#2".to_string(), "Category#1".to_string()),
            ("Category#1".to_string(), "Product#2".to_string()),
        ]
    );
}

#[test]
fn an_unlink_that_names_nothing_is_reported() {
    let catalog = catalog();
    let mut plan = MutationPlan::new(EXECUTION);
    let input = fields(vec![("products", object(vec![("unlink", InputValue::Null)]))]);
    let creation = node_create(&mut plan, catalog.types(), 0, NOW, &input).unwrap();
    assert_eq!(plan.errors, vec!["If you fill an unlink value it shouldn't be null".to_string()]);
    assert_eq!(creation.transaction.len(), 1);
    assert!(matches!(&plan.selections[1], Selection::Empty));
}

#[test]
fn an_update_reaches_every_copy() {
    let basic = fields(vec![("name", text("Hammers")), ("stock", InputValue::Number("3".to_string()))]);
    let duplicates = vec!["Product#2".to_string(), "Product#3".to_string()];
    let writes = update_transactions("Category#1", &basic, NOW, &duplicates, "table");
    assert_eq!(
        keys(&writes),
        vec![
            ("Category#1".to_string(), "Category#1".to_string()),
            ("Product#2".to_string(), "Category#1".to_string()),
            ("Product#3".to_string(), "Category#1".to_string()),
        ]
    );
    for write in &writes {
        match &write.transaction {
            WriteOp::Update {
                key,
                condition_expression,
                update_expression,
                expression_attribute_values,
                expression_attribute_names,
                ..
            } => {
                assert_eq!(string_attr(key, "__pk"), write.pk);
                assert_eq!(string_attr(key, "__sk"), "Category#1");
                assert_eq!(
                    condition_expression.as_deref(),
                    Some("attribute_exists(#pk) AND attribute_exists(#sk)")
                );
                assert_eq!(update_expression, "set name=:name,stock=:stock,updated_at=:updated_at");
                assert_eq!(string_attr(expression_attribute_values, ":name"), "Hammers");
                assert!(matches!(expression_attribute_values.get(":stock"), Some(AttrValue::N(n)) if n == "3"));
                assert_eq!(string_attr(expression_attribute_values, ":updated_at"), NOW);
                assert_eq!(expression_attribute_names.get("#pk").map(|s| s.as_str()), Some("__pk"));
                assert_eq!(expression_attribute_names.get("#sk").map(|s| s.as_str()), Some("__sk"));
            }
            other => panic!("an update was expected, not {other:?}"),
        }
    }
    assert!(update_transactions("Category#1", &vec![], NOW, &duplicates, "table").is_empty());
}

#[test]
fn an_update_is_projected_onto_the_loaded_row() {
    let rows = vec![row("Category#1", "Category#1", vec![("name", "Tools"), ("updated_at", "then")])];
    let updated = apply_update(&rows, &fields(vec![("name", text("Hammers"))]), NOW);
    assert_eq!(string_attr(&updated[0].item, "name"), "Hammers");
    assert_eq!(string_attr(&updated[0].item, "updated_at"), NOW);
    let untouched = apply_update(&rows, &vec![], NOW);
    assert_eq!(string_attr(&untouched[0].item, "updated_at"), "then");
}

fn found(rows: Vec<(&str, Vec<SelectedRow>)>) -> QueryResult {
    let mut result = QueryResult::new();
    for (key, group) in rows {
        let mut value = QueryValue::new();
        let mut group = group.into_iter();
        value.node = group.next().map(|r| r.item);
        let rest: Vec<Item> = group.map(|r| r.item).collect();
        if !rest.is_empty() {
            value.edges.push("r".to_string(), rest);
        }
        result.values.push(key.to_string(), value);
    }
    result
}

#[test]
fn a_deletion_takes_out_every_row_of_the_node() {
    let by_pk = found(vec![(
        "Category#1",
        vec![row("Category#1", "Category#1", vec![("name", "Tools")]), row("Category#1", "Product#2", vec![])],
    )]);
    let by_sk = found(vec![("Product#2", vec![row("Product#2", "Category#1", vec![])])]);
    let deletion = delete_transactions(&Some(by_pk), &Some(by_sk), "table").unwrap();
    assert_eq!(deletion.faulty_rows, 0);
    assert_eq!(
        keys(&deletion.items),
        vec![
            ("Category#1".to_string(), "Category#1".to_string()),
            ("Category#1".to_string(), "Product#2".to_string()),
            ("Product#2".to_string(), "Category#1".to_string()),
        ]
    );
    match &deletion.items[0].transaction {
        WriteOp::Delete { table_name, key } => {
            assert_eq!(table_name, "table");
            assert_eq!(names(key), vec!["__pk", "__sk"]);
        }
        other => panic!("a delete was expected, not {other:?}"),
    }
    let copies = duplicate_keys(&Some(found(vec![("Product#2", vec![row("Product#2", "Category#1", vec![])])])));
    assert_eq!(copies, vec!["Product#2".to_string()]);
    assert!(duplicate_keys(&None).is_empty());
}

#[test]
fn a_deletion_takes_out_constraints_too() {
    let mut by_pk = found(vec![("Category#1", vec![row("Category#1", "Category#1", vec![]), row("Category#1", "Product#2", vec![])])]);
    let mut value = QueryValue::new();
    value.constraints.push(row("__C#category#name#tools", "__C#category#name#tools", vec![]).item);
    value.constraints.push(row("__C#category#slug#tools", "__C#category#slug#tools", vec![]).item);
    by_pk.values.push("__C#category#name#tools".to_string(), value);
    let deletion = delete_transactions(&Some(by_pk), &None, "table").unwrap();
    assert_eq!(deletion.faulty_rows, 0);
    assert_eq!(
        keys(&deletion.items),
        vec![
            ("Category#1".to_string(), "Category#1".to_string()),
            ("Category#1".to_string(), "Product#2".to_string()),
            ("__C#category#name#tools".to_string(), "__C#category#name#tools".to_string()),
            ("__C#category#slug#tools".to_string(), "__C#category#slug#tools".to_string()),
        ]
    );
    assert!(deletion.items.iter().all(|item| matches!(item.transaction, WriteOp::Delete { .. })));

    // A node with one constraint: two rows found, two rows deleted.
    let mut mixed = QueryValue::new();
    mixed.node = Some(row("Category#1", "Category#1", vec![]).item);
    mixed.constraints.push(row("__C#category#name#tools", "Category#1", vec![]).item);
    let mut by_sk = QueryResult::new();
    by_sk.values.push("Category#1".to_string(), mixed);
    let deletion = delete_transactions(&None, &Some(by_sk), "table").unwrap();
    assert_eq!(
        keys(&deletion.items),
        vec![
            ("Category#1".to_string(), "Category#1".to_string()),
            ("__C#category#name#tools".to_string(), "Category#1".to_string()),
        ]
    );
}

#[test]
fn the_copies_of_a_node_are_its_nodes_and_edges() {
    let mut value = QueryValue::new();
    value.node = Some(row("Product#2", "Product#2", vec![]).item);
    value.edges.push("r".to_string(), vec![row("Category#1", "Product#2", vec![]).item]);
    value.constraints.push(row("__C#product#name#widget", "Product#2", vec![]).item);
    let mut by_sk = QueryResult::new();
    by_sk.values.push("Product#2".to_string(), value);
    assert_eq!(duplicate_keys(&Some(by_sk)), vec!["Product#2".to_string(), "Category#1".to_string()]);
}

#[test]
fn deleting_what_is_not_there_is_an_error() {
    assert_eq!(delete_transactions(&None, &None, "table").unwrap_err(), MutationError::NotFound);
    let empty = QueryResult::new();
    let err = delete_transactions(&Some(empty), &None, "table").unwrap_err();
    assert_eq!(err, MutationError::NotFound);
    assert_eq!(err.message(), "This item was not found, you can't delete an inexistant item.");
    let mut keyless = QueryResult::new();
    let mut value = QueryValue::new();
    let mut item = Item::new();
    item.insert("__pk".to_string(), AttrValue::string("Category#1"));
    value.node = Some(item);
    keyless.values.push("Category#1".to_string(), value);
    assert_eq!(delete_transactions(&Some(keyless), &None, "table").unwrap_err(), MutationError::NotFound);
}

#[test]
fn the_delete_resolver_asks_for_the_rows_of_the_identifier() {
    let resolver = DynamoMutationResolver::DeleteNode { id: VariableResolveDefinition::InputTypeName("id".to_string()) };
    let catalog = catalog();
    let step = resolver.resolve_at(&catalog, &fields(vec![("id", text("Category#1"))]), EXECUTION, NOW).unwrap();
    assert!(matches!(step, MutationStep::Delete { id } if id == "Category#1"));
    let err = resolver.resolve_at(&catalog, &fields(vec![("id", InputValue::Null)]), EXECUTION, NOW).unwrap_err();
    assert_eq!(err, MutationError::KeyNotInferred);
    assert_eq!(err.message(), "Internal Error: failed to infer key");
    let debug = DynamoMutationResolver::DeleteNode { id: VariableResolveDefinition::DebugString("Category#9".to_string()) };
    assert!(matches!(debug.resolve_at(&catalog, &vec![], EXECUTION, NOW).unwrap(), MutationStep::Delete { id } if id == "Category#9"));
}

#[test]
fn a_resolver_needs_its_type_and_an_object() {
    let catalog = catalog();
    let unknown = DynamoMutationResolver::CreateNode {
        input: VariableResolveDefinition::InputTypeName("input".to_string()),
        ty: "Unknown".to_string(),
    };
    let err = unknown.resolve_at(&catalog, &vec![], EXECUTION, NOW).unwrap_err();
    assert_eq!(err, MutationError::UnknownType);
    assert_eq!(err.message(), "Internal Error: Failed process the associated schema.");
    let create = DynamoMutationResolver::CreateNode {
        input: VariableResolveDefinition::InputTypeName("input".to_string()),
        ty: "Category".to_string(),
    };
    assert_eq!(create.resolve_at(&catalog, &vec![], EXECUTION, NOW).unwrap_err(), MutationError::KeyNotInferred);
    assert_eq!(
        create.resolve_at(&catalog, &fields(vec![("input", text("x"))]), EXECUTION, NOW).unwrap_err(),
        MutationError::KeyNotInferred
    );
}

#[test]
fn resolving_now_stamps_the_rows_with_the_time() {
    let create = DynamoMutationResolver::CreateNode {
        input: VariableResolveDefinition::InputTypeName("input".to_string()),
        ty: "Product".to_string(),
    };
    let arguments = fields(vec![("input", object(vec![("name", text("Widget"))]))]);
    let step = create.resolve(&catalog(), &arguments, EXECUTION).unwrap();
    match step {
        MutationStep::Write { root, id, .. } => {
            assert_eq!(id, make_node_id("Product", EXECUTION));
            match &root.transaction[0] {
                Transaction::PutNode { item, .. } => {
                    let created = string_attr(item, "created_at");
                    assert!(created.ends_with("UTC"));
                    assert_eq!(created, string_attr(item, "updated_at"));
                }
                other => panic!("a put was expected, not {other:?}"),
            }
        }
        MutationStep::Delete { .. } => panic!("a write was expected"),
    }
}

#[test]
fn input_values_are_stored_by_their_kind() {
    let value = object(vec![
        ("n", InputValue::Number("1.5".to_string())),
        ("e", InputValue::Enum("RED".to_string())),
        ("l", InputValue::List(vec![InputValue::Boolean(true), InputValue::Null])),
    ]);
    match value.to_attribute() {
        AttrValue::M(fields) => {
            assert_eq!(fields.len(), 3);
            assert!(matches!(&fields[0], (name, AttrValue::N(n)) if name == "n" && n == "1.5"));
            assert!(matches!(&fields[1], (name, AttrValue::S(s)) if name == "e" && s == "RED"));
            assert!(matches!(&fields[2], (_, AttrValue::L(items)) if matches!(items[..], [AttrValue::Bool(true), AttrValue::Null])));
        }
        other => panic!("a map was expected, not {other:?}"),
    }
}

#[test]
fn the_objects_of_an_input() {
    let one = object(vec![("a", InputValue::Null)]);
    assert_eq!(inputs(&one).unwrap().len(), 1);
    let nested = InputValue::List(vec![
        object(vec![("a", InputValue::Null)]),
        text("skipped"),
        InputValue::List(vec![object(vec![("b", InputValue::Null)]), object(vec![])]),
    ]);
    let found = inputs(&nested).unwrap();
    assert_eq!(found.len(), 3);
    assert_eq!(found[1][0].0, "b");
    assert!(inputs(&text("x")).is_none());
    assert!(inputs(&InputValue::Null).is_none());
}

/// The twenty-six digits of a value, five bits each, the highest first.
fn digits_of(value: u128) -> String {
    let alphabet: Vec<char> = "0123456789ABCDEFGHJKMNPQRSTVWXYZ".chars().collect();
    (0..26).map(|i| alphabet[((value >> (5 * (25 - i))) & 0x1f) as usize]).collect()
}

#[test]
fn a_ulid_is_written_in_digits_of_five_bits() {
    for value in [0u128, 1, 31, 32, 0x1234_5678_9abc_def0, u128::MAX, 1 << 125, (1 << 80) - 1, 1 << 80] {
        assert_eq!(make_node_id("Product", value), format!("Product#{}", digits_of(value)));
    }
    assert_eq!(make_node_id("T", 0), "T#00000000000000000000000000");
    assert_eq!(make_node_id("T", u128::MAX), "T#7ZZZZZZZZZZZZZZZZZZZZZZZZZ");
    assert_ne!(make_node_id("T", 1), make_node_id("T", 2));
}
