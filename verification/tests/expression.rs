//! Tests of the condition-expression parser, the placeholder visitor, the
//! update-expression parser, the target-header extractor, and the error
//! envelopes.

use rynamodb::errors::{escape_json, ErrorResponse, TableError};
use rynamodb::extractors::Operation;
use rynamodb::queries::{parse, Node, Operator, ParserError};
use rynamodb::types::Attribute;
use rynamodb::visitor::NodeVisitor;
use rynamodb::OperationType;

#[test]
fn example_1() {
    let s = "Id = :id AND begins_with(ReplyDateTime, :dt)";
    let ast = parse(s).unwrap();
    assert_eq!(
        ast,
        Node::Binop {
            lhs: Box::new(Node::Binop {
                lhs: Box::new(Node::Attribute("Id".to_string())),
                rhs: Box::new(Node::Placeholder("id".to_string())),
                op: Operator::Eq,
            }),
            rhs: Box::new(Node::FunctionCall {
                name: "begins_with".to_string(),
                args: vec![
                    Node::Attribute("ReplyDateTime".to_string()),
                    Node::Placeholder("dt".to_string()),
                ],
            }),
            op: Operator::And,
        }
    );
}

#[test]
fn example_2() {
    let s = "ForumName = :name";
    let ast = parse(s).unwrap();
    assert_eq!(
        ast,
        Node::Binop {
            lhs: Box::new(Node::Attribute("ForumName".to_string())),
            rhs: Box::new(Node::Placeholder("name".to_string())),
            op: Operator::Eq,
        }
    );
}

#[test]
fn parse_rejects_garbage() {
    assert!(parse("pk = ").is_err());
    assert!(parse("= abc").is_err());
    assert!(parse("pk ? abc").is_err());
    assert!(parse("pk = abc AND").is_err());
    assert!(parse("pk = abc extra = more AND").is_err());
    assert!(parse("").is_err());
}

#[test]
fn parse_is_whitespace_insensitive() {
    let a = parse("pk = abc AND sk = def").unwrap();
    let b = parse("  pk\t=\nabc   AND sk=def ").unwrap();
    assert_eq!(a, b);
}

#[test]
fn update_item_simple() {
    for s in &["SET a = b", "SET a = :b", "SET #a = b", "SET #k = :b"] {
        assert!(rynamodb::update_item::parse(s).is_ok());
    }
}

#[test]
fn update_item_multiple() {
    for s in &["SET a = b, c = d"] {
        assert!(rynamodb::update_item::parse(s).is_ok());
    }
}

#[test]
fn update_item_rejects_other_actions() {
    assert!(rynamodb::update_item::parse("REMOVE a").is_err());
    assert!(rynamodb::update_item::parse("SET a = b,").is_err());
    assert!(rynamodb::update_item::parse("SET").is_err());
}

#[test]
fn visit_all_nodes() {
    let ast = Node::Binop {
        lhs: Box::new(Node::Binop {
            lhs: Box::new(Node::Placeholder("a".to_string())),
            rhs: Box::new(Node::Placeholder("b".to_string())),
            op: Operator::Eq,
        }),
        rhs: Box::new(Node::Binop {
            lhs: Box::new(Node::Placeholder("c".to_string())),
            rhs: Box::new(Node::Placeholder("d".to_string())),
            op: Operator::Eq,
        }),
        op: Operator::And,
    };

    let expression_attribute_names = Some(vec![
        ("#a".to_string(), "e".to_string()),
        ("#c".to_string(), "g".to_string()),
    ]);
    let expression_attribute_values = Some(vec![
        (":b".to_string(), Attribute::S("f".to_string())),
        (":d".to_string(), Attribute::S("h".to_string())),
    ]);

    let visitor = NodeVisitor::new(&expression_attribute_names, &expression_attribute_values);
    let new_ast = visitor.visit(ast).unwrap();
    assert_eq!(
        new_ast,
        Node::Binop {
            lhs: Box::new(Node::Binop {
                lhs: Box::new(Node::Attribute("e".to_string())),
                rhs: Box::new(Node::Attribute("f".to_string())),
                op: Operator::Eq,
            }),
            rhs: Box::new(Node::Binop {
                lhs: Box::new(Node::Attribute("g".to_string())),
                rhs: Box::new(Node::Attribute("h".to_string())),
                op: Operator::Eq,
            }),
            op: Operator::And,
        }
    );
}

#[test]
fn visitor_reports_missing_placeholder() {
    let ast = Node::Placeholder("missing".to_string());
    let names = None;
    let values = None;
    let visitor = NodeVisitor::new(&names, &values);
    match visitor.visit(ast) {
        Err(TableError::NoAttributeValue(k)) => assert_eq!(k, "missing"),
        other => panic!("unexpected visitor outcome: {other:?}"),
    }
}

#[test]
fn visitor_rejects_non_string_value() {
    let ast = Node::Placeholder("v".to_string());
    let names = None;
    let values = Some(vec![(":v".to_string(), Attribute::N("3".to_string()))]);
    let visitor = NodeVisitor::new(&names, &values);
    match visitor.visit(ast) {
        Err(TableError::InvalidAttributeMap) => {}
        other => panic!("unexpected visitor outcome: {other:?}"),
    }
}

#[test]
fn operation_parsing() {
    assert!(matches!(
        OperationType::parse_name("CreateTable"),
        Ok(OperationType::CreateTable)
    ));
    assert!(matches!(
        OperationType::parse_name("BatchWriteItem"),
        Ok(OperationType::BatchWriteItem)
    ));
    let err = OperationType::parse_name("Nonsense").unwrap_err();
    assert_eq!(err, "operation Nonsense not handled");

    let op = Operation::parse_target("DynamoDB_20120810.Query").unwrap();
    assert_eq!(op.version, "DynamoDB_20120810");
    assert!(matches!(op.name, OperationType::Query));

    let err = Operation::parse_target("no-dot-here").unwrap_err();
    assert_eq!(err, "invalid number of parts");

    let err = Operation::parse_target("v1.Unknown").unwrap_err();
    assert_eq!(err, "parsing operation: operation Unknown not handled");
}

#[test]
fn serialize_internal_error() {
    let e = ErrorResponse::RynamodbError("bad".to_string());
    assert_eq!(e.body_json(), r#"{"error":"bad"}"#);
    assert_eq!(e.status_code(), 500);
}

#[test]
fn error_envelopes() {
    let e = ErrorResponse::ResourceNotFound { name: Some("missing".to_string()) };
    assert_eq!(e.status_code(), 400);
    assert_eq!(
        e.body_json(),
        r#"{"__type":"com.amazonaws.dynamodb.v20120810#ResourceNotFoundException","message":"Requested resource not found: Table: missing not found"}"#
    );

    let e = ErrorResponse::ResourceNotFound { name: None };
    assert_eq!(
        e.body_json(),
        r#"{"__type":"com.amazonaws.dynamodb.v20120810#ResourceNotFoundException","message":"Requested resource not found"}"#
    );

    let e = ErrorResponse::SerializationError;
    assert_eq!(e.status_code(), 400);
    assert_eq!(
        e.body_json(),
        r#"{"__type":"com.amazon.coral.service#SerializationException"}"#
    );

    let e = ErrorResponse::MutexUnlock;
    assert_eq!(e.status_code(), 500);
    assert_eq!(e.body_json(), r#"{"error":"corrupted internal state"}"#);

    let e = ErrorResponse::InvalidOperation("Whatever".to_string());
    assert_eq!(e.status_code(), 400);
    assert_eq!(e.body_json(), r#"{"error":"invalid response: Whatever"}"#);
}

#[test]
fn escaping_json_strings() {
    assert_eq!(escape_json("plain"), "plain");
    assert_eq!(escape_json("a\"b\\c"), "a\\\"b\\\\c");
    assert_eq!(escape_json("line\nbreak\tand\rreturn"), "line\\nbreak\\tand\\rreturn");
    let e = ErrorResponse::RynamodbError("say \"hi\"".to_string());
    assert_eq!(e.body_json(), r#"{"error":"say \"hi\""}"#);
}

#[test]
fn table_error_messages() {
    assert_eq!(TableError::MissingPartitionKey.message(), "missing partition key");
    assert_eq!(
        TableError::ParseError(ParserError::Eoi).message(),
        "parsing condition expression"
    );
    assert_eq!(
        TableError::InvalidPartitionKey.message(),
        "partition key specified is not valid"
    );
    assert_eq!(
        TableError::NoAttributeName("K".to_string()).message(),
        "attribute name K not supplied"
    );
    assert_eq!(
        TableError::NoAttributeValue("val".to_string()).message(),
        "attribute value val not supplied"
    );
    assert_eq!(
        TableError::InvalidAttributeMap.message(),
        "invalid attribute map, no types found"
    );
}
