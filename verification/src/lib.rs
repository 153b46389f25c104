//! An in-memory emulator of a DynamoDB-like key-value store.
//!
//! The crate holds the verified core: the table engine (accounts, regions,
//! tables, partitions, items), the key-condition-expression parser and
//! evaluator, and the operation-level request handling. Network transport
//! and JSON framing live outside the library.

use vstd::prelude::*;
use vstd::string::*;

pub mod errors;
pub mod extractors;
pub mod laws;
pub mod ops;
pub mod queries;
mod strutil;
pub mod sync_actor;
pub mod table;
pub mod table_manager;
mod trusted;
pub mod types;
pub mod update_item;
pub mod visitor;

verus! {

/// The account identifier used when a request does not carry one.
pub fn default_account_id() -> (r: String)
    ensures
        r@ == "000000000000"@,
{
    let r: String = "000000000000".to_owned();
    r
}

/// The operations the store realises, selected by the request's target
/// header.
#[derive(Debug, Clone, Copy, PartialEq, Eq, Structural)]
pub enum OperationType {
    CreateTable,
    PutItem,
    DescribeTable,
    DeleteTable,
    Query,
    GetItem,
    ListTables,
    Scan,
    BatchWriteItem,
}

/// The operation a name selects, if any.
pub open spec fn spec_operation_of(s: Seq<char>) -> Option<OperationType> {
    if s == "CreateTable"@ {
        Some(OperationType::CreateTable)
    } else if s == "PutItem"@ {
        Some(OperationType::PutItem)
    } else if s == "DescribeTable"@ {
        Some(OperationType::DescribeTable)
    } else if s == "DeleteTable"@ {
        Some(OperationType::DeleteTable)
    } else if s == "Query"@ {
        Some(OperationType::Query)
    } else if s == "GetItem"@ {
        Some(OperationType::GetItem)
    } else if s == "ListTables"@ {
        Some(OperationType::ListTables)
    } else if s == "Scan"@ {
        Some(OperationType::Scan)
    } else if s == "BatchWriteItem"@ {
        Some(OperationType::BatchWriteItem)
    } else {
        None
    }
}

impl OperationType {
    /// Parse an operation name; the error message names the unknown
    /// operation.
    pub fn parse_name(s: &str) -> (r: Result<OperationType, String>)
        ensures
            match r {
                Ok(op) => spec_operation_of(s@) == Some(op),
                Err(m) => spec_operation_of(s@) is None && m@ == "operation "@ + s@
                    + " not handled"@,
            },
    {
        if crate::strutil::str_eq(s, "CreateTable") {
            Ok(OperationType::CreateTable)
        } else if crate::strutil::str_eq(s, "PutItem") {
            Ok(OperationType::PutItem)
        } else if crate::strutil::str_eq(s, "DescribeTable") {
            Ok(OperationType::DescribeTable)
        } else if crate::strutil::str_eq(s, "DeleteTable") {
            Ok(OperationType::DeleteTable)
        } else if crate::strutil::str_eq(s, "Query") {
            Ok(OperationType::Query)
        } else if crate::strutil::str_eq(s, "GetItem") {
            Ok(OperationType::GetItem)
        } else if crate::strutil::str_eq(s, "ListTables") {
            Ok(OperationType::ListTables)
        } else if crate::strutil::str_eq(s, "Scan") {
            Ok(OperationType::Scan)
        } else if crate::strutil::str_eq(s, "BatchWriteItem") {
            Ok(OperationType::BatchWriteItem)
        } else {
            let m: String = "operation ".to_owned();
            let m = m.concat(s);
            Err(m.concat(" not handled"))
        }
    }
}

impl core::str::FromStr for OperationType {
    type Err = String;

    fn from_str(s: &str) -> Result<Self, String> {
        OperationType::parse_name(s)
    }
}

} // verus!
