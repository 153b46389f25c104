//! Tests of the table engine and the operation layer: table lifecycle,
//! item round trips, queries, scans, and batch writes.

use rynamodb::errors::ErrorResponse;
use rynamodb::ops;
use rynamodb::table::{Table, TableOptions};
use rynamodb::table_manager::{Region, TableManager};
use rynamodb::types::{
    Attribute, AttributeDefinition, AttributeType, BatchPutRequest, BatchPutRequestItem,
    BatchWriteInput, CreateTableInput, DeleteTableInput, DescribeTableInput, GetItemInput, Item,
    KeySchema, KeyType, ListTablesInput, PutItemInput, QueryInput, ScanInput,
};

fn item(pairs: &[(&str, &str)]) -> Item {
    let mut it = Item::new();
    for (k, v) in pairs {
        it.insert(k.to_string(), Attribute::S(v.to_string()));
    }
    it
}

fn string_defs(names: &[&str]) -> Vec<AttributeDefinition> {
    names
        .iter()
        .map(|n| AttributeDefinition {
            attribute_name: n.to_string(),
            attribute_type: AttributeType::S,
        })
        .collect()
}

fn pk_sk_schema() -> Vec<KeySchema> {
    vec![
        KeySchema { attribute_name: "pk".to_string(), key_type: KeyType::HASH },
        KeySchema { attribute_name: "sk".to_string(), key_type: KeyType::RANGE },
    ]
}

fn create_input(name: &str) -> CreateTableInput {
    CreateTableInput {
        table_name: name.to_string(),
        attribute_definitions: string_defs(&["pk", "sk"]),
        key_schema: pk_sk_schema(),
    }
}

fn default_table() -> Table {
    Table::new(
        Region::UsEast1,
        "000000000000",
        TableOptions {
            name: "table-under-test".to_string(),
            partition_key: "pk".to_string(),
            sort_key: Some("sk".to_string()),
            attribute_definitions: string_defs(&["pk", "sk"]),
        },
    )
}

#[test]
fn table_round_trip() {
    let mut table = default_table();
    table
        .insert(item(&[("pk", "abc"), ("sk", "def"), ("value", "great")]))
        .unwrap();
    let stats = table.statistics();
    assert_eq!(stats.num_partitions, 1);
}

#[test]
fn pk_only() {
    let queries = &["pk = abc", "#K = :val", "pk = :val", "#K = abc"];
    for query in queries {
        let mut table = default_table();
        let attributes = item(&[("pk", "abc"), ("sk", "def"), ("value", "great")]);
        table.insert(attributes.clone()).unwrap();

        let stats = table.statistics();
        assert_eq!(stats.num_partitions, 1);

        let expression_attribute_names = Some(vec![("#K".to_string(), "pk".to_string())]);
        let expression_attribute_values =
            Some(vec![(":val".to_string(), Attribute::S("abc".to_string()))]);

        let rows = table
            .query(query, &expression_attribute_names, &expression_attribute_values)
            .unwrap();

        assert_eq!(rows.len(), 1);
        assert_eq!(rows.into_iter().next().unwrap(), attributes);
    }
}

#[test]
fn pk_and_sk_equality() {
    let queries = &[
        "pk = abc AND sk = def",
        "pk = abc AND #S = def",
        "pk = abc AND sk = :other",
        "pk = abc AND #S = :other",
    ];
    for query in queries {
        let mut table = default_table();
        let attributes = item(&[("pk", "abc"), ("sk", "def"), ("value", "great")]);
        table.insert(attributes.clone()).unwrap();
        // an additional row that must not be returned
        table
            .insert(item(&[("pk", "foobar"), ("sk", "123"), ("another", "something")]))
            .unwrap();

        let stats = table.statistics();
        assert_eq!(stats.num_partitions, 2);

        let expression_attribute_names = Some(vec![
            ("#K".to_string(), "pk".to_string()),
            ("#S".to_string(), "sk".to_string()),
        ]);
        let expression_attribute_values = Some(vec![
            (":val".to_string(), Attribute::S("abc".to_string())),
            (":other".to_string(), Attribute::S("def".to_string())),
        ]);

        let rows = table
            .query(query, &expression_attribute_names, &expression_attribute_values)
            .unwrap();

        assert_eq!(rows.len(), 1);
        assert_eq!(rows.into_iter().next().unwrap(), attributes);
    }
}

#[test]
fn begins_with_prefix_match() {
    let mut table = default_table();
    table.insert(item(&[("pk", "abc"), ("sk", "de1")])).unwrap();
    table.insert(item(&[("pk", "abc"), ("sk", "xf2")])).unwrap();
    let rows = table
        .query("pk = abc AND begins_with(sk, de)", &None, &None)
        .unwrap();
    assert_eq!(rows.len(), 1);
    assert_eq!(rows[0].get("sk"), Some(&Attribute::S("de1".to_string())));
}

#[test]
fn create_table_then_describe() {
    let mut manager = TableManager::default();
    let created = ops::create_table_op(&mut manager, create_input("t1")).unwrap();
    let d = created.table_description;
    assert_eq!(d.table_name.as_deref(), Some("t1"));
    assert_eq!(d.table_status.as_deref(), Some("ACTIVE"));
    assert_eq!(d.item_count, Some(0));
    assert_eq!(d.key_schema.as_ref().unwrap(), &pk_sk_schema());
    assert_eq!(
        d.table_arn.as_deref(),
        Some("arn:aws:dynamodb:us-east-1:000000000000:table/t1")
    );

    let described = ops::describe_table_op(
        &manager,
        DescribeTableInput { table_name: "t1".to_string() },
    )
    .unwrap();
    let d = described.table;
    assert_eq!(d.table_name.as_deref(), Some("t1"));
    assert_eq!(d.table_status.as_deref(), Some("ACTIVE"));
    assert_eq!(d.item_count, Some(0));
    assert_eq!(d.key_schema.as_ref().unwrap(), &pk_sk_schema());
    assert_eq!(d.attribute_definitions.as_ref().unwrap(), &string_defs(&["pk", "sk"]));
}

#[test]
fn create_table_rejects_missing_hash_key() {
    let mut manager = TableManager::default();
    let input = CreateTableInput {
        table_name: "t1".to_string(),
        attribute_definitions: string_defs(&["sk"]),
        key_schema: vec![KeySchema {
            attribute_name: "sk".to_string(),
            key_type: KeyType::RANGE,
        }],
    };
    let err = ops::create_table_op(&mut manager, input).unwrap_err();
    assert!(matches!(
        err,
        ErrorResponse::TableFault(rynamodb::errors::TableError::InvalidKeySchema)
    ));
    assert_eq!(err.status_code(), 500);
}

#[test]
fn put_item_then_get_item() {
    let mut manager = TableManager::default();
    ops::create_table_op(&mut manager, create_input("t1")).unwrap();
    let row = item(&[("pk", "abc"), ("sk", "def"), ("value", "ghi")]);
    ops::put_item_op(
        &mut manager,
        PutItemInput { table_name: "t1".to_string(), item: row.clone() },
    )
    .unwrap();

    let got = ops::get_item_op(
        &manager,
        GetItemInput {
            table_name: "t1".to_string(),
            key: item(&[("pk", "abc"), ("sk", "def")]),
        },
    )
    .unwrap();
    assert_eq!(got.item, Some(row));
}

#[test]
fn get_item_absent_partition_is_a_miss() {
    let mut manager = TableManager::default();
    ops::create_table_op(&mut manager, create_input("t1")).unwrap();
    let got = ops::get_item_op(
        &manager,
        GetItemInput {
            table_name: "t1".to_string(),
            key: item(&[("pk", "nowhere"), ("sk", "nope")]),
        },
    )
    .unwrap();
    assert_eq!(got.item, None);
}

#[test]
fn get_item_missing_table_is_an_error() {
    let manager = TableManager::default();
    let err = ops::get_item_op(
        &manager,
        GetItemInput { table_name: "absent".to_string(), key: item(&[("pk", "x")]) },
    )
    .unwrap_err();
    assert!(matches!(err, ErrorResponse::ResourceNotFound { name: None }));
}

#[test]
fn put_item_missing_partition_key() {
    let mut manager = TableManager::default();
    ops::create_table_op(&mut manager, create_input("t1")).unwrap();
    let err = ops::put_item_op(
        &mut manager,
        PutItemInput { table_name: "t1".to_string(), item: item(&[("sk", "only")]) },
    )
    .unwrap_err();
    match err {
        ErrorResponse::TableFault(e) => {
            assert_eq!(e, rynamodb::errors::TableError::MissingPartitionKey);
            assert_eq!(e.message(), "missing partition key");
        }
        other => panic!("unexpected error: {other:?}"),
    }
    assert_eq!(
        ErrorResponse::TableFault(rynamodb::errors::TableError::MissingPartitionKey)
            .status_code(),
        400
    );
}

#[test]
fn query_with_placeholders() {
    let mut manager = TableManager::default();
    ops::create_table_op(&mut manager, create_input("t1")).unwrap();
    let first = item(&[("pk", "abc"), ("sk", "def")]);
    ops::put_item_op(
        &mut manager,
        PutItemInput { table_name: "t1".to_string(), item: first.clone() },
    )
    .unwrap();
    ops::put_item_op(
        &mut manager,
        PutItemInput { table_name: "t1".to_string(), item: item(&[("pk", "foobar"), ("sk", "123")]) },
    )
    .unwrap();

    let out = ops::query_op(
        &manager,
        QueryInput {
            table_name: "t1".to_string(),
            key_condition_expression: "#K = :val AND #S = :other".to_string(),
            expression_attribute_names: Some(vec![
                ("#K".to_string(), "pk".to_string()),
                ("#S".to_string(), "sk".to_string()),
            ]),
            expression_attribute_values: Some(vec![
                (":val".to_string(), Attribute::S("abc".to_string())),
                (":other".to_string(), Attribute::S("def".to_string())),
            ]),
        },
    )
    .unwrap();
    assert_eq!(out.items, vec![first]);
    assert_eq!(out.count, 1);
    assert_eq!(out.scanned_count, 1);
}

#[test]
fn query_absent_partition_is_empty() {
    let mut manager = TableManager::default();
    ops::create_table_op(&mut manager, create_input("t1")).unwrap();
    let out = ops::query_op(
        &manager,
        QueryInput {
            table_name: "t1".to_string(),
            key_condition_expression: "pk = nothere".to_string(),
            expression_attribute_names: None,
            expression_attribute_values: None,
        },
    )
    .unwrap();
    assert_eq!(out.items.len(), 0);
    assert_eq!(out.count, 0);
    assert_eq!(out.scanned_count, 0);
}

#[test]
fn query_wrong_key_name_is_rejected() {
    let mut manager = TableManager::default();
    ops::create_table_op(&mut manager, create_input("t1")).unwrap();
    let err = ops::query_op(
        &manager,
        QueryInput {
            table_name: "t1".to_string(),
            key_condition_expression: "other = abc".to_string(),
            expression_attribute_names: None,
            expression_attribute_values: None,
        },
    )
    .unwrap_err();
    assert_eq!(err.status_code(), 400);
    match err {
        ErrorResponse::TableFault(e) => {
            assert_eq!(e, rynamodb::errors::TableError::InvalidPartitionKey);
        }
        other => panic!("unexpected error: {other:?}"),
    }
}

#[test]
fn scan_counts_every_item() {
    let mut manager = TableManager::default();
    ops::create_table_op(&mut manager, create_input("t1")).unwrap();
    for (pk, sk) in &[("a", "1"), ("a", "2"), ("b", "1")] {
        ops::put_item_op(
            &mut manager,
            PutItemInput { table_name: "t1".to_string(), item: item(&[("pk", pk), ("sk", sk)]) },
        )
        .unwrap();
    }
    let out = ops::scan_op(&manager, ScanInput { table_name: "t1".to_string() }).unwrap();
    assert_eq!(out.count, 3);
    assert_eq!(out.scanned_count, 3);
    assert_eq!(out.items.len(), 3);
}

#[test]
fn query_results_are_a_subset_of_scan() {
    let mut manager = TableManager::default();
    ops::create_table_op(&mut manager, create_input("t1")).unwrap();
    for (pk, sk) in &[("a", "1"), ("a", "2"), ("b", "1")] {
        ops::put_item_op(
            &mut manager,
            PutItemInput { table_name: "t1".to_string(), item: item(&[("pk", pk), ("sk", sk)]) },
        )
        .unwrap();
    }
    let scanned = ops::scan_op(&manager, ScanInput { table_name: "t1".to_string() })
        .unwrap()
        .items;
    let queried = ops::query_op(
        &manager,
        QueryInput {
            table_name: "t1".to_string(),
            key_condition_expression: "pk = a".to_string(),
            expression_attribute_names: None,
            expression_attribute_values: None,
        },
    )
    .unwrap()
    .items;
    assert_eq!(queried.len(), 2);
    for q in &queried {
        assert!(scanned.contains(q));
    }
}

#[test]
fn describe_missing_table() {
    let manager = TableManager::default();
    let err = ops::describe_table_op(
        &manager,
        DescribeTableInput { table_name: "missing".to_string() },
    )
    .unwrap_err();
    assert_eq!(err.status_code(), 400);
    assert_eq!(
        err.body_json(),
        r#"{"__type":"com.amazonaws.dynamodb.v20120810#ResourceNotFoundException","message":"Requested resource not found: Table: missing not found"}"#
    );
}

#[test]
fn delete_then_list_tables() {
    let mut manager = TableManager::default();
    ops::create_table_op(&mut manager, create_input("a")).unwrap();
    ops::create_table_op(&mut manager, create_input("b")).unwrap();

    let listed = ops::list_tables_op(&manager, ListTablesInput {}).unwrap();
    assert!(listed.table_names.contains(&"a".to_string()));
    assert!(listed.table_names.contains(&"b".to_string()));

    ops::delete_table_op(&mut manager, DeleteTableInput { table_name: "a".to_string() }).unwrap();
    let listed = ops::list_tables_op(&manager, ListTablesInput {}).unwrap();
    assert_eq!(listed.table_names, vec!["b".to_string()]);
}

#[test]
fn batch_write_partial_failure() {
    let mut manager = TableManager::default();
    ops::create_table_op(&mut manager, create_input("t1")).unwrap();

    let good = BatchPutRequest {
        put_request: BatchPutRequestItem { item: item(&[("pk", "x"), ("sk", "y")]) },
    };
    let orphan = BatchPutRequest {
        put_request: BatchPutRequestItem { item: item(&[("pk", "z")]) },
    };
    let input = BatchWriteInput {
        request_items: vec![
            ("t1".to_string(), vec![good]),
            ("t2".to_string(), vec![orphan.clone()]),
        ],
    };
    let out = ops::batch_write_item_op(&mut manager, input).unwrap();
    let unprocessed = out.unprocessed_items.unwrap();
    assert_eq!(unprocessed, vec![("t2".to_string(), vec![orphan])]);

    // t1 now holds the written item
    let got = ops::get_item_op(
        &manager,
        GetItemInput {
            table_name: "t1".to_string(),
            key: item(&[("pk", "x"), ("sk", "y")]),
        },
    )
    .unwrap();
    assert_eq!(got.item, Some(item(&[("pk", "x"), ("sk", "y")])));
}

#[test]
fn put_two_then_query_first() {
    let mut table = default_table();
    let item1 = item(&[("pk", "one"), ("sk", "s1")]);
    let item2 = item(&[("pk", "two"), ("sk", "s2")]);
    table.insert(item1.clone()).unwrap();
    table.insert(item2.clone()).unwrap();
    let rows = table.query("pk = one", &None, &None).unwrap();
    assert!(rows.contains(&item1));
    assert!(!rows.contains(&item2));
}

#[test]
fn region_and_manager_counts() {
    assert_eq!(Region::UsEast1.name(), "us-east-1");
    let mut manager = TableManager::default();
    assert_eq!(manager.len(), 0);
    ops::create_table_op(&mut manager, create_input("t1")).unwrap();
    assert_eq!(manager.len(), 1);
}

#[test]
fn query_rejects_bad_expression() {
    let table = default_table();
    let err = table.query("pk = = abc", &None, &None).unwrap_err();
    assert!(matches!(err, rynamodb::errors::TableError::ParseError(_)));
}

#[test]
fn query_reports_unresolved_placeholder() {
    let table = default_table();
    match table.query("pk = :gone", &None, &None) {
        Err(rynamodb::errors::TableError::NoAttributeValue(k)) => assert_eq!(k, "gone"),
        other => panic!("unexpected query outcome: {other:?}"),
    }
}

#[test]
fn query_rejects_non_string_row_values() {
    let mut table = default_table();
    let mut row = Item::new();
    row.insert("pk".to_string(), Attribute::S("abc".to_string()));
    row.insert("sk".to_string(), Attribute::N("42".to_string()));
    table.insert(row).unwrap();
    match table.query("pk = abc AND sk = 42", &None, &None) {
        Err(rynamodb::errors::TableError::UnsupportedType) => {}
        other => panic!("unexpected query outcome: {other:?}"),
    }
}

#[test]
fn query_rejects_unrealised_shapes() {
    let mut table = default_table();
    table.insert(item(&[("pk", "abc"), ("sk", "def")])).unwrap();
    // the partition-selecting side must be the plain equality
    match table.query("begins_with(pk, a) AND sk = def", &None, &None) {
        Err(rynamodb::errors::TableError::Unimplemented) => {}
        other => panic!("unexpected query outcome: {other:?}"),
    }
}

#[test]
fn reserved_comparators_are_unimplemented() {
    let mut table = default_table();
    table.insert(item(&[("pk", "abc"), ("sk", "def")])).unwrap();
    for expr in &["pk < abc", "pk > abc", "pk <= abc", "pk >= abc", "pk BETWEEN a AND b"] {
        match table.query(expr, &None, &None) {
            Err(rynamodb::errors::TableError::Unimplemented) => {}
            other => panic!("unexpected outcome for {expr}: {other:?}"),
        }
    }
}

#[test]
fn composite_query_absent_partition_is_rejected() {
    let mut table = default_table();
    table.insert(item(&[("pk", "abc"), ("sk", "def")])).unwrap();
    match table.query("pk = missing AND sk = def", &None, &None) {
        Err(rynamodb::errors::TableError::InvalidPartitionKey) => {}
        other => panic!("unexpected query outcome: {other:?}"),
    }
}

#[test]
fn insert_rejects_non_string_partition_key() {
    let mut table = default_table();
    let mut row = Item::new();
    row.insert("pk".to_string(), Attribute::N("7".to_string()));
    match table.insert(row) {
        Err(e) => assert_eq!(e, rynamodb::errors::TableError::UnsupportedKeyType),
        Ok(()) => panic!("insert accepted a numeric partition key"),
    }
}
