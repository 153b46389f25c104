//! The operation layer: one function per store operation, from a decoded
//! request payload and the shared table manager to a response payload or
//! an error envelope.

use vstd::prelude::*;
use vstd::string::*;
use crate::errors::{ErrorResponse, TableError};
use crate::table::{
    description_matches, spec_arn, spec_get_item, spec_item_total, spec_query_outcome, spec_scan,
    spec_schema_partition_key, spec_schema_sort_key, spec_valid_key_schema, table_wf, TableV,
    QueryOutcome,
};
use crate::table_manager::{
    manager_wf, PutItemError, PutOutcomeV, Region, spec_add_table, spec_batch_write_from,
    spec_delete_table, spec_get_table, spec_manager_put, spec_table_names, TableManager,
};
use crate::types::{
    BatchWriteInput, BatchWriteItemOutput, CreateTableInput, CreateTableOutput, DeleteTableInput,
    DeleteTableOutput, DescribeTableInput, DescribeTableOutput, GetItemInput, GetItemOutput,
    ListTablesInput, ListTablesOutput, PutItemInput, PutItemOutput, QueryInput, QueryOutput,
    ScanInput, spec_default_throughput,
};

verus! {

/// Create a table under the default account in the default region, and
/// return its description.
pub fn create_table_op(manager: &mut TableManager, input: CreateTableInput) -> (r: Result<
    CreateTableOutput,
    ErrorResponse,
>)
    requires
        manager_wf(old(manager)@),
    ensures
        manager_wf(final(manager)@),
        match r {
            Ok(out) => spec_valid_key_schema(input.key_schema.deep_view()) && (exists|tv: TableV|
                {
                    &&& final(manager)@ == spec_add_table(
                        old(manager)@,
                        "000000000000"@,
                        Region::UsEast1,
                        tv,
                    )
                    &&& tv.name == input.table_name@
                    &&& tv.partition_key == spec_schema_partition_key(
                        input.key_schema.deep_view(),
                    )
                    &&& tv.sort_key == spec_schema_sort_key(input.key_schema.deep_view())
                    &&& tv.attribute_definitions == input.attribute_definitions.deep_view()
                    &&& tv.arn == spec_arn(Region::UsEast1, "000000000000"@, input.table_name@)
                    &&& tv.partitions == Seq::<crate::table::PartitionV>::empty()
                    &&& tv.provisioned_throughput == spec_default_throughput()
                    &&& table_wf(tv)
                    &&& description_matches(out.table_description, tv)
                }),
            Err(e) => !spec_valid_key_schema(input.key_schema.deep_view()) && final(manager)@
                == old(manager)@ && (e matches ErrorResponse::TableFault(
                TableError::InvalidKeySchema,
            )),
        },
{
    let account = crate::default_account_id();
    let table = match manager.new_table(account.as_str(), Region::UsEast1, input) {
        Ok(t) => t,
        Err(e) => {
            return Err(ErrorResponse::TableFault(e));
        },
    };
    let description = table.description();
    let ghost tv = table@;
    proof {
        assert(description_matches(description, tv));
        assert(tv.partitions.len() == 0);
    }
    Ok(CreateTableOutput { table_description: description })
}

/// Describe the first table carrying the requested name; a missing table
/// is a resource-not-found failure naming it.
pub fn describe_table_op(manager: &TableManager, input: DescribeTableInput) -> (r: Result<
    DescribeTableOutput,
    ErrorResponse,
>)
    ensures
        match spec_get_table(manager@, input.table_name@) {
            Some(tv) => r matches Ok(out) && description_matches(out.table, tv),
            None => r matches Err(ErrorResponse::ResourceNotFound { name }) && (name
                matches Some(n) && n@ == input.table_name@),
        },
{
    match manager.get_table(input.table_name.as_str()) {
        Some(table) => Ok(DescribeTableOutput { table: table.description() }),
        None => Err(ErrorResponse::ResourceNotFound { name: Some(input.table_name) }),
    }
}

/// Delete every table carrying the requested name. Deleting a name no
/// table carries is not a failure.
pub fn delete_table_op(manager: &mut TableManager, input: DeleteTableInput) -> (r: Result<
    DeleteTableOutput,
    ErrorResponse,
>)
    requires
        manager_wf(old(manager)@),
    ensures
        manager_wf(final(manager)@),
        r is Ok,
        final(manager)@ =~~= spec_delete_table(old(manager)@, input.table_name@),
{
    match manager.delete_table(input.table_name.as_str()) {
        Ok(()) => Ok(DeleteTableOutput {}),
        Err(e) => Err(ErrorResponse::TableFault(e)),
    }
}

/// The names of all tables.
pub fn list_tables_op(manager: &TableManager, _input: ListTablesInput) -> (r: Result<
    ListTablesOutput,
    ErrorResponse,
>)
    ensures
        r matches Ok(out) && out.table_names.deep_view() == spec_table_names(manager@),
{
    Ok(ListTablesOutput { table_names: manager.table_names() })
}

/// Put one item into the named table.
pub fn put_item_op(manager: &mut TableManager, input: PutItemInput) -> (r: Result<
    PutItemOutput,
    ErrorResponse,
>)
    requires
        manager_wf(old(manager)@),
    ensures
        manager_wf(final(manager)@),
        ({
            let (m2, oc) = spec_manager_put(old(manager)@, input.table_name@, input.item@);
            (final(manager)@ =~~= m2) && match oc {
                PutOutcomeV::Applied => r is Ok,
                PutOutcomeV::NoTable => r matches Err(
                    ErrorResponse::ResourceNotFound { name: None },
                ),
                PutOutcomeV::Rejected(e) => r matches Err(ErrorResponse::TableFault(te)) && te
                    == match e {
                    crate::table::InsertErrV::MissingKey => TableError::MissingPartitionKey,
                    crate::table::InsertErrV::NotString => TableError::UnsupportedKeyType,
                },
            }
        }),
{
    match manager.insert_item(input.table_name.as_str(), input.item) {
        Ok(()) => Ok(PutItemOutput {}),
        Err(PutItemError::NoSuchTable) => Err(ErrorResponse::ResourceNotFound { name: None }),
        Err(PutItemError::Rejected(e)) => Err(ErrorResponse::TableFault(e)),
    }
}

/// Look one item up by its key attributes; a miss is a response carrying
/// no item, not a failure.
pub fn get_item_op(manager: &TableManager, input: GetItemInput) -> (r: Result<
    GetItemOutput,
    ErrorResponse,
>)
    ensures
        match spec_get_table(manager@, input.table_name@) {
            Some(tv) => r matches Ok(out) && match spec_get_item(tv, input.key@) {
                Some(itv) => out.item matches Some(it) && it@ == itv,
                None => out.item is None,
            },
            None => r matches Err(ErrorResponse::ResourceNotFound { name: None }),
        },
{
    let table = match manager.get_table(input.table_name.as_str()) {
        Some(t) => t,
        None => {
            return Err(ErrorResponse::ResourceNotFound { name: None });
        },
    };
    Ok(GetItemOutput { item: table.get_item(input.key) })
}

/// Evaluate a key-condition query over the named table. The returned
/// counts both equal the number of selected items.
pub fn query_op(manager: &TableManager, input: QueryInput) -> (r: Result<
    QueryOutput,
    ErrorResponse,
>)
    ensures
        match spec_get_table(manager@, input.table_name@) {
            Some(tv) => match spec_query_outcome(
                tv,
                input.key_condition_expression@,
                input.expression_attribute_names.deep_view(),
                input.expression_attribute_values.deep_view(),
            ) {
                QueryOutcome::Items(items) => r matches Ok(out) && out.items.deep_view() == items
                    && out.count == items.len() && out.scanned_count == items.len(),
                QueryOutcome::ParseFail => r matches Err(ErrorResponse::TableFault(
                    TableError::ParseError(_),
                )),
                QueryOutcome::MissingPlaceholder(k) => r matches Err(ErrorResponse::TableFault(
                    TableError::NoAttributeValue(n),
                )) && n@ == k,
                QueryOutcome::BadMap => r matches Err(ErrorResponse::TableFault(
                    TableError::InvalidAttributeMap,
                )),
                QueryOutcome::BadPartitionKey => r matches Err(ErrorResponse::TableFault(
                    TableError::InvalidPartitionKey,
                )),
                QueryOutcome::Unsupported => r matches Err(ErrorResponse::TableFault(
                    TableError::UnsupportedType,
                )),
                QueryOutcome::Unimplemented => r matches Err(ErrorResponse::TableFault(
                    TableError::Unimplemented,
                )),
            },
            None => r matches Err(ErrorResponse::ResourceNotFound { name: None }),
        },
{
    let table = match manager.get_table(input.table_name.as_str()) {
        Some(t) => t,
        None => {
            return Err(ErrorResponse::ResourceNotFound { name: None });
        },
    };
    let items = match table.query(
        input.key_condition_expression.as_str(),
        &input.expression_attribute_names,
        &input.expression_attribute_values,
    ) {
        Ok(items) => items,
        Err(e) => {
            return Err(ErrorResponse::TableFault(e));
        },
    };
    let count = items.len();
    Ok(QueryOutput { items, count, scanned_count: count })
}

/// Return every item of every partition of the named table. The returned
/// counts both equal the number of items.
pub fn scan_op(manager: &TableManager, input: ScanInput) -> (r: Result<QueryOutput, ErrorResponse>)
    ensures
        match spec_get_table(manager@, input.table_name@) {
            Some(tv) => r matches Ok(out) && out.items.deep_view() == spec_scan(tv) && out.count
                == spec_scan(tv).len() && out.scanned_count == spec_scan(tv).len() && out.count
                == spec_item_total(tv),
            None => r matches Err(ErrorResponse::ResourceNotFound { name: None }),
        },
{
    let table = match manager.get_table(input.table_name.as_str()) {
        Some(t) => t,
        None => {
            return Err(ErrorResponse::ResourceNotFound { name: None });
        },
    };
    let items = match table.scan() {
        Ok(items) => items,
        Err(e) => {
            return Err(ErrorResponse::TableFault(e));
        },
    };
    let count = items.len();
    Ok(QueryOutput { items, count, scanned_count: count })
}

/// Write a batch of put requests; the requests that were not applied come
/// back grouped by table name.
pub fn batch_write_item_op(manager: &mut TableManager, input: BatchWriteInput) -> (r: Result<
    BatchWriteItemOutput,
    ErrorResponse,
>)
    requires
        manager_wf(old(manager)@),
    ensures
        manager_wf(final(manager)@),
        ({
            let (m2, un) = spec_batch_write_from(
                old(manager)@,
                input.request_items.deep_view(),
                0,
            );
            (final(manager)@ =~~= m2) && (r matches Ok(out) && (out.unprocessed_items
                matches Some(u) && u.deep_view() =~= un))
        }),
{
    let unprocessed = manager.batch_write_item(input);
    Ok(BatchWriteItemOutput { unprocessed_items: Some(unprocessed) })
}

} // verus!
