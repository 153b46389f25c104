//! Typed failures of the table engine and the AWS-shaped error envelopes
//! that the dispatcher sends for them.

use vstd::prelude::*;
use vstd::string::*;

verus! {

/// A failure of a table, partition, or condition-expression operation.
#[derive(Debug, Clone, PartialEq, Eq)]
pub enum TableError {
    /// The item or key does not carry the table's partition-key attribute.
    MissingPartitionKey,
    /// The key-condition expression is not of the recognised grammar.
    ParseError(crate::queries::ParserError),
    /// The condition does not name the partition key, or names a missing
    /// partition where one is required.
    InvalidPartitionKey,
    /// A `#name` placeholder with no entry in the supplied name map.
    NoAttributeName(String),
    /// A `:value` placeholder with no entry in either supplied map.
    NoAttributeValue(String),
    /// An attribute-value map carrying no usable payload.
    InvalidAttributeMap,
    /// A key attribute whose value is not of the string type.
    UnsupportedKeyType,
    /// A condition that depends on a value of a non-string type.
    UnsupportedType,
    /// A condition shape that the evaluator does not realise.
    Unimplemented,
    /// A key schema without exactly one hash key and at most one range key.
    InvalidKeySchema,
}

impl TableError {
    /// The human-readable message of this failure.
    pub fn message(&self) -> (r: String)
        ensures
            r@ == spec_table_error_message(*self),
    {
        match self {
            TableError::MissingPartitionKey => "missing partition key".to_owned(),
            TableError::ParseError(_) => "parsing condition expression".to_owned(),
            TableError::InvalidPartitionKey => "partition key specified is not valid".to_owned(),
            TableError::NoAttributeName(n) => {
                let r: String = "attribute name ".to_owned();
                let r = r.concat(n.as_str());
                r.concat(" not supplied")
            },
            TableError::NoAttributeValue(n) => {
                let r: String = "attribute value ".to_owned();
                let r = r.concat(n.as_str());
                r.concat(" not supplied")
            },
            TableError::InvalidAttributeMap => {
                "invalid attribute map, no types found".to_owned()
            },
            TableError::UnsupportedKeyType => {
                "key attribute type is not supported".to_owned()
            },
            TableError::UnsupportedType => "attribute type is not supported".to_owned(),
            TableError::Unimplemented => "unimplemented".to_owned(),
            TableError::InvalidKeySchema => {
                "key schema must declare exactly one hash key".to_owned()
            },
        }
    }
}

/// The message of each [`TableError`].
pub open spec fn spec_table_error_message(e: TableError) -> Seq<char> {
    match e {
        TableError::MissingPartitionKey => "missing partition key"@,
        TableError::ParseError(_) => "parsing condition expression"@,
        TableError::InvalidPartitionKey => "partition key specified is not valid"@,
        TableError::NoAttributeName(n) => "attribute name "@ + n@ + " not supplied"@,
        TableError::NoAttributeValue(n) => "attribute value "@ + n@ + " not supplied"@,
        TableError::InvalidAttributeMap => "invalid attribute map, no types found"@,
        TableError::UnsupportedKeyType => "key attribute type is not supported"@,
        TableError::UnsupportedType => "attribute type is not supported"@,
        TableError::Unimplemented => "unimplemented"@,
        TableError::InvalidKeySchema => "key schema must declare exactly one hash key"@,
    }
}

/// An error as sent to the client: selects the HTTP status and the JSON
/// body of the failure envelope.
#[derive(Debug, Clone, PartialEq, Eq)]
pub enum ErrorResponse {
    /// A named table (or other resource) does not exist.
    ResourceNotFound { name: Option<String> },
    /// The request body is not of the expected JSON shape.
    SerializationError,
    /// An internal engine failure, carrying its message.
    RynamodbError(String),
    /// A table, partition, or condition failure, carrying its kind.
    TableFault(TableError),
    /// The shared state lock was poisoned.
    MutexUnlock,
    /// The request named an operation that is not handled.
    InvalidOperation(String),
}

/// How one character is written inside a JSON string literal.
pub open spec fn spec_escape_char(c: char) -> Seq<char> {
    if c == '"' {
        seq!['\\', '"']
    } else if c == '\\' {
        seq!['\\', '\\']
    } else if c == '\n' {
        seq!['\\', 'n']
    } else if c == '\r' {
        seq!['\\', 'r']
    } else if c == '\t' {
        seq!['\\', 't']
    } else {
        seq![c]
    }
}

/// How a whole string is written inside a JSON string literal: each
/// character in order, escaped as needed.
pub open spec fn spec_escape(s: Seq<char>) -> Seq<char>
    decreases s.len(),
{
    if s.len() == 0 {
        Seq::empty()
    } else {
        spec_escape(s.drop_last()) + spec_escape_char(s.last())
    }
}

/// Write `s` as the inside of a JSON string literal, escaping quotes,
/// backslashes, and the common control characters.
pub fn escape_json(s: &str) -> (r: String)
    ensures
        r@ == spec_escape(s@),
{
    let n = s.unicode_len();
    let mut r = String::new();
    let mut i: usize = 0;
    while i < n
        invariant
            i <= n,
            n == s@.len(),
            r@ == spec_escape(s@.subrange(0, i as int)),
        decreases n - i,
    {
        let c = s.get_char(i);
        if c == '"' {
            r.append("\\\"");
        } else if c == '\\' {
            r.append("\\\\");
        } else if c == '\n' {
            r.append("\\n");
        } else if c == '\r' {
            r.append("\\r");
        } else if c == '\t' {
            r.append("\\t");
        } else {
            r.append(s.substring_char(i, i + 1));
        }
        proof {
            reveal_strlit("\\\"");
            reveal_strlit("\\\\");
            reveal_strlit("\\n");
            reveal_strlit("\\r");
            reveal_strlit("\\t");
            let pre = s@.subrange(0, i as int);
            let cur = s@.subrange(0, i + 1 as int);
            assert(cur.drop_last() =~= pre);
            assert(cur.last() == s@[i as int]);
            assert(r@ =~= spec_escape(cur));
        }
        i = i + 1;
    }
    proof {
        assert(s@.subrange(0, n as int) =~= s@);
    }
    r
}

/// The JSON body of each [`ErrorResponse`].
pub open spec fn spec_error_body(e: ErrorResponse) -> Seq<char> {
    match e {
        ErrorResponse::ResourceNotFound { name: Some(n) } => {
            "{\"__type\":\"com.amazonaws.dynamodb.v20120810#ResourceNotFoundException\",\"message\":\"Requested resource not found: Table: "@
                + spec_escape(n@) + " not found\"}"@
        },
        ErrorResponse::ResourceNotFound { name: None } => {
            "{\"__type\":\"com.amazonaws.dynamodb.v20120810#ResourceNotFoundException\",\"message\":\"Requested resource not found\"}"@
        },
        ErrorResponse::SerializationError => {
            "{\"__type\":\"com.amazon.coral.service#SerializationException\"}"@
        },
        ErrorResponse::RynamodbError(m) => "{\"error\":\""@ + spec_escape(m@) + "\"}"@,
        ErrorResponse::TableFault(e) => "{\"error\":\""@ + spec_escape(
            spec_table_error_message(e),
        ) + "\"}"@,
        ErrorResponse::MutexUnlock => "{\"error\":\"corrupted internal state\"}"@,
        ErrorResponse::InvalidOperation(op) => {
            "{\"error\":\"invalid response: "@ + spec_escape(op@) + "\"}"@
        },
    }
}

impl ErrorResponse {
    /// The HTTP status this failure is reported with.
    pub fn status_code(&self) -> (r: u16)
        ensures
            r == spec_error_status(*self),
    {
        match self {
            ErrorResponse::ResourceNotFound { .. } => 400,
            ErrorResponse::SerializationError => 400,
            ErrorResponse::InvalidOperation(_) => 400,
            ErrorResponse::RynamodbError(_) => 500,
            ErrorResponse::MutexUnlock => 500,
            ErrorResponse::TableFault(e) => match e {
                TableError::Unimplemented => 501,
                TableError::InvalidKeySchema => 500,
                _ => 400,
            },
        }
    }

    /// The JSON body of the failure envelope.
    pub fn body_json(&self) -> (r: String)
        ensures
            r@ == spec_error_body(*self),
    {
        match self {
            ErrorResponse::ResourceNotFound { name: Some(n) } => {
                let r: String =
                    "{\"__type\":\"com.amazonaws.dynamodb.v20120810#ResourceNotFoundException\",\"message\":\"Requested resource not found: Table: ".to_owned();
                let r = r.concat(escape_json(n.as_str()).as_str());
                r.concat(" not found\"}")
            },
            ErrorResponse::ResourceNotFound { name: None } => {
                "{\"__type\":\"com.amazonaws.dynamodb.v20120810#ResourceNotFoundException\",\"message\":\"Requested resource not found\"}".to_owned()
            },
            ErrorResponse::SerializationError => {
                "{\"__type\":\"com.amazon.coral.service#SerializationException\"}".to_owned()
            },
            ErrorResponse::RynamodbError(m) => {
                let r: String = "{\"error\":\"".to_owned();
                let r = r.concat(escape_json(m.as_str()).as_str());
                r.concat("\"}")
            },
            ErrorResponse::TableFault(e) => {
                let m = e.message();
                let r: String = "{\"error\":\"".to_owned();
                let r = r.concat(escape_json(m.as_str()).as_str());
                r.concat("\"}")
            },
            ErrorResponse::MutexUnlock => {
                "{\"error\":\"corrupted internal state\"}".to_owned()
            },
            ErrorResponse::InvalidOperation(op) => {
                let r: String = "{\"error\":\"invalid response: ".to_owned();
                let r = r.concat(escape_json(op.as_str()).as_str());
                r.concat("\"}")
            },
        }
    }
}

/// The HTTP status of each [`ErrorResponse`].
pub open spec fn spec_error_status(e: ErrorResponse) -> u16 {
    match e {
        ErrorResponse::ResourceNotFound { .. } => 400,
        ErrorResponse::SerializationError => 400,
        ErrorResponse::InvalidOperation(_) => 400,
        ErrorResponse::RynamodbError(_) => 500,
        ErrorResponse::MutexUnlock => 500,
        ErrorResponse::TableFault(e) => match e {
            TableError::Unimplemented => 501,
            TableError::InvalidKeySchema => 500,
            _ => 400,
        },
    }
}

} // verus!
