//! Tables and partitions: schema, insertion, lookup, scan, description,
//! and evaluation of parsed key conditions.

use vstd::prelude::*;
use vstd::string::*;
use crate::errors::TableError;
use crate::queries::{self, Node, NodeV, Operator, node_view};
use crate::strutil::{is_prefix_of, str_eq, str_starts_with};
use crate::table_manager::{Region, spec_region_name};
use crate::types::{
    Attribute, AttributeDefinition, AttributeDefinitionV, AttrV, Item, item_get, ItemV, KeySchema,
    KeySchemaV, KeyType, ProvisionedThroughputDescription, spec_default_throughput,
    TableDescription,
};
use crate::visitor::{NodeVisitor, ResolveErrV, spec_resolve};

verus! {

broadcast use vstd::std_specs::vec::group_vec_axioms;

/// Mathematical value of a [`Partition`]: its key value and its rows in
/// insertion order.
#[verifier::ext_equal]
pub struct PartitionV {
    pub key: Seq<char>,
    pub rows: Seq<ItemV>,
}

/// The group of items sharing one partition-key value, in insertion order.
#[derive(Debug)]
pub struct Partition {
    /// The partition-key value every row of this partition carries.
    partition_key_value: String,
    rows: Vec<Item>,
}

impl View for Partition {
    type V = PartitionV;

    closed spec fn view(&self) -> PartitionV {
        PartitionV { key: self.partition_key_value@, rows: self.rows.deep_view() }
    }
}

impl DeepView for Partition {
    type V = PartitionV;

    open spec fn deep_view(&self) -> PartitionV {
        self.view()
    }
}

/// Index of the first partition keyed `key`, at or after `i`.
pub open spec fn find_partition_from(ps: Seq<PartitionV>, i: int, key: Seq<char>) -> Option<int>
    decreases ps.len() - i,
{
    if i < 0 || i >= ps.len() {
        None
    } else if ps[i].key == key {
        Some(i)
    } else {
        find_partition_from(ps, i + 1, key)
    }
}

/// Index of the partition keyed `key`, if there is one.
pub open spec fn find_partition(ps: Seq<PartitionV>, key: Seq<char>) -> Option<int> {
    find_partition_from(ps, 0, key)
}

/// Index of the first row at or after `i` whose attribute `sk` is the
/// string `sv`.
pub open spec fn find_row_from(rows: Seq<ItemV>, i: int, sk: Seq<char>, sv: Seq<char>) -> Option<
    int,
>
    decreases rows.len() - i,
{
    if i < 0 || i >= rows.len() {
        None
    } else if item_get(rows[i], sk) == Some(AttrV::S(sv)) {
        Some(i)
    } else {
        find_row_from(rows, i + 1, sk, sv)
    }
}

/// Index of the first row whose attribute `sk` is the string `sv`.
pub open spec fn find_row(rows: Seq<ItemV>, sk: Seq<char>, sv: Seq<char>) -> Option<int> {
    find_row_from(rows, 0, sk, sv)
}

/// Some row of `rows` carries `k` with a non-string value, so a condition
/// on `k` cannot be evaluated.
pub open spec fn has_non_string_at(rows: Seq<ItemV>, k: Seq<char>) -> bool {
    exists|i: int|
        0 <= i < rows.len() && ((#[trigger] item_get(rows[i], k)) matches Some(a) && !(a is S))
}

/// The rows selected by an equality condition: attribute `k` equals the
/// string `v`.
pub open spec fn rows_matching_eq(rows: Seq<ItemV>, k: Seq<char>, v: Seq<char>) -> Seq<ItemV> {
    rows.filter(|r: ItemV| item_get(r, k) == Some(AttrV::S(v)))
}

/// The rows selected by a prefix condition: attribute `k` is a string
/// beginning with `v`.
pub open spec fn rows_matching_begins(rows: Seq<ItemV>, k: Seq<char>, v: Seq<char>) -> Seq<
    ItemV,
> {
    rows.filter(
        |r: ItemV| item_get(r, k) matches Some(AttrV::S(s)) && is_prefix_of(v, s),
    )
}

/// How evaluation of a condition over one partition fails.
#[verifier::ext_equal]
pub enum EvalErrV {
    /// A row carries the queried attribute with a non-string type.
    Unsupported,
    /// The condition is of a shape the evaluator does not realise.
    Unimplemented,
}

/// The rows of one partition selected by a resolved condition node: an
/// equality or a `begins_with` prefix match on one attribute.
pub open spec fn spec_partition_query(rows: Seq<ItemV>, ast: NodeV) -> Result<
    Seq<ItemV>,
    EvalErrV,
> {
    match ast {
        NodeV::Binop { lhs, rhs, op } => {
            if op == Operator::Eq && (*lhs matches NodeV::Attribute(_)) && (*rhs
                matches NodeV::Attribute(_)) {
                let k = (*lhs)->Attribute_0;
                let v = (*rhs)->Attribute_0;
                if has_non_string_at(rows, k) {
                    Err(EvalErrV::Unsupported)
                } else {
                    Ok(rows_matching_eq(rows, k, v))
                }
            } else {
                Err(EvalErrV::Unimplemented)
            }
        },
        NodeV::FunctionCall { name, args } => {
            if name == "begins_with"@ && args.len() == 2 && (args[0] matches NodeV::Attribute(_))
                && (args[1] matches NodeV::Attribute(_)) {
                let k = args[0]->Attribute_0;
                let v = args[1]->Attribute_0;
                if has_non_string_at(rows, k) {
                    Err(EvalErrV::Unsupported)
                } else {
                    Ok(rows_matching_begins(rows, k, v))
                }
            } else {
                Err(EvalErrV::Unimplemented)
            }
        },
        _ => Err(EvalErrV::Unimplemented),
    }
}

/// Clone a row list; the copy has the same value.
fn clone_items(v: &Vec<Item>) -> (r: Vec<Item>)
    ensures
        r.deep_view() == v.deep_view(),
{
    let r = v.clone();
    proof {
        assert forall|i: int| 0 <= i < r.len() implies r.deep_view()[i] == v.deep_view()[i] by {
            assert(cloned::<Item>(v[i], r[i]));
        }
        assert(r.deep_view() =~= v.deep_view());
    }
    r
}

impl Clone for Partition {
    fn clone(&self) -> (r: Self)
        ensures
            r@ == self@,
    {
        Partition {
            partition_key_value: self.partition_key_value.clone(),
            rows: clone_items(&self.rows),
        }
    }
}

impl Partition {
    /// An empty partition for key value `key`.
    pub fn new(key: String) -> (r: Partition)
        ensures
            r@.key == key@,
            r@.rows =~= Seq::<ItemV>::empty(),
    {
        Partition { partition_key_value: key, rows: Vec::new() }
    }

    /// Append a row.
    pub fn insert(&mut self, attributes: Item)
        ensures
            final(self)@.key == old(self)@.key,
            final(self)@.rows =~= old(self)@.rows.push(attributes@),
    {
        self.rows.push(attributes);
    }

    /// The number of rows.
    pub fn item_count(&self) -> (r: usize)
        ensures
            r == self@.rows.len(),
    {
        self.rows.len()
    }

    /// The first row, used for lookups on tables without a sort key.
    fn get_by_pk_only(&self) -> (r: Option<Item>)
        ensures
            match r {
                Some(it) => self@.rows.len() > 0 && it@ == self@.rows[0],
                None => self@.rows.len() == 0,
            },
    {
        if self.rows.len() > 0 {
            Some(self.rows[0].clone())
        } else {
            None
        }
    }

    /// The first row whose attribute `sort_key_name` is the string
    /// `sort_key_value`.
    fn get_item(&self, sort_key_name: &str, sort_key_value: &str) -> (r: Option<Item>)
        ensures
            match r {
                Some(it) => find_row(self@.rows, sort_key_name@, sort_key_value@) matches Some(i)
                    && it@ == self@.rows[i],
                None => find_row(self@.rows, sort_key_name@, sort_key_value@) is None,
            },
    {
        let ghost rows = self@.rows;
        let n = self.rows.len();
        let mut i: usize = 0;
        while i < n
            invariant
                i <= n,
                n == rows.len(),
                rows =~= self@.rows,
                find_row_from(rows, 0, sort_key_name@, sort_key_value@) == find_row_from(
                    rows,
                    i as int,
                    sort_key_name@,
                    sort_key_value@,
                ),
            decreases n - i,
        {
            assert(rows[i as int] == self.rows[i as int]@);
            match self.rows[i].get(sort_key_name) {
                Some(a) => {
                    let matched = match a {
                        Attribute::S(s) => str_eq(s.as_str(), sort_key_value),
                        _ => false,
                    };
                    if matched {
                        return Some(self.rows[i].clone());
                    }
                },
                None => {},
            }
            i = i + 1;
        }
        None
    }

    /// Evaluate a resolved condition node over this partition's rows.
    fn query(&self, ast: &Node) -> (r: Result<Vec<Item>, TableError>)
        ensures
            match spec_partition_query(self@.rows, node_view(*ast)) {
                Ok(items) => r matches Ok(v) && v.deep_view() == items,
                Err(EvalErrV::Unsupported) => r matches Err(TableError::UnsupportedType),
                Err(EvalErrV::Unimplemented) => r matches Err(TableError::Unimplemented),
            },
    {
        match ast {
            Node::Binop { lhs, rhs, op } => {
                if *op == Operator::Eq {
                    match &**lhs {
                        Node::Attribute(k) => match &**rhs {
                            Node::Attribute(v) => {
                                proof {
                                    assert(node_view(**lhs) == NodeV::Attribute(k@));
                                    assert(node_view(**rhs) == NodeV::Attribute(v@));
                                    assert(node_view(*ast) == NodeV::Binop {
                                        lhs: Box::new(node_view(**lhs)),
                                        rhs: Box::new(node_view(**rhs)),
                                        op: Operator::Eq,
                                    });
                                }
                                self.filter_eq(k.as_str(), v.as_str())
                            },
                            _ => Err(TableError::Unimplemented),
                        },
                        _ => Err(TableError::Unimplemented),
                    }
                } else {
                    Err(TableError::Unimplemented)
                }
            },
            Node::FunctionCall { name, args } => {
                if str_eq(name.as_str(), "begins_with") && args.len() == 2 {
                    match &args[0] {
                        Node::Attribute(k) => match &args[1] {
                            Node::Attribute(v) => {
                                proof {
                                    let av = node_view(*ast)->FunctionCall_args;
                                    assert(av[0] == node_view(args@[0]));
                                    assert(av[1] == node_view(args@[1]));
                                    assert(av[0] == NodeV::Attribute(k@));
                                    assert(av[1] == NodeV::Attribute(v@));
                                }
                                self.filter_begins(k.as_str(), v.as_str())
                            },
                            _ => Err(TableError::Unimplemented),
                        },
                        _ => Err(TableError::Unimplemented),
                    }
                } else {
                    Err(TableError::Unimplemented)
                }
            },
            _ => Err(TableError::Unimplemented),
        }
    }

    /// The rows whose attribute `k` equals the string `v`.
    fn filter_eq(&self, k: &str, v: &str) -> (r: Result<Vec<Item>, TableError>)
        ensures
            match r {
                Ok(out) => !has_non_string_at(self@.rows, k@) && out.deep_view()
                    == rows_matching_eq(self@.rows, k@, v@),
                Err(e) => has_non_string_at(self@.rows, k@) && e matches TableError::UnsupportedType,
            },
    {
        let ghost rows = self@.rows;
        let ghost pred = |r: ItemV| item_get(r, k@) == Some(AttrV::S(v@));
        let n = self.rows.len();
        let mut out: Vec<Item> = Vec::new();
        let mut i: usize = 0;
        proof {
            reveal(Seq::filter);
            assert(out.deep_view() =~= rows.take(0).filter(pred));
        }
        while i < n
            invariant
                i <= n,
                n == rows.len(),
                rows =~= self@.rows,
                out.deep_view() == rows.take(i as int).filter(pred),
                pred == (|r: ItemV| item_get(r, k@) == Some(AttrV::S(v@))),
                forall|j: int|
                    0 <= j < i ==> !((#[trigger] item_get(rows[j], k@)) matches Some(a) && !(a
                        is S)),
            decreases n - i,
        {
            let ghost prev = out.deep_view();
            assert(rows[i as int] == self.rows[i as int]@);
            match self.rows[i].get(k) {
                Some(a) => match a {
                    Attribute::S(s) => {
                        if str_eq(s.as_str(), v) {
                            out.push(self.rows[i].clone());
                        }
                    },
                    _ => {
                        assert(has_non_string_at(rows, k@));
                        return Err(TableError::UnsupportedType);
                    },
                },
                None => {},
            }
            proof {
                reveal(Seq::filter);
                let cur = rows.take(i + 1);
                assert(cur.drop_last() =~= rows.take(i as int));
                assert(cur.last() == rows[i as int]);
                if pred(rows[i as int]) {
                    assert(out.deep_view() =~= prev.push(rows[i as int]));
                } else {
                    assert(out.deep_view() =~= prev);
                }
            }
            i = i + 1;
        }
        proof {
            assert(rows.take(n as int) =~= rows);
        }
        Ok(out)
    }

    /// The rows whose attribute `k` is a string beginning with `v`.
    fn filter_begins(&self, k: &str, v: &str) -> (r: Result<Vec<Item>, TableError>)
        ensures
            match r {
                Ok(out) => !has_non_string_at(self@.rows, k@) && out.deep_view()
                    == rows_matching_begins(self@.rows, k@, v@),
                Err(e) => has_non_string_at(self@.rows, k@) && e matches TableError::UnsupportedType,
            },
    {
        let ghost rows = self@.rows;
        let ghost pred = |r: ItemV| item_get(r, k@) matches Some(AttrV::S(s)) && is_prefix_of(
            v@,
            s,
        );
        let n = self.rows.len();
        let mut out: Vec<Item> = Vec::new();
        let mut i: usize = 0;
        proof {
            reveal(Seq::filter);
            assert(out.deep_view() =~= rows.take(0).filter(pred));
        }
        while i < n
            invariant
                i <= n,
                n == rows.len(),
                rows =~= self@.rows,
                out.deep_view() == rows.take(i as int).filter(pred),
                pred == (|r: ItemV| item_get(r, k@) matches Some(AttrV::S(s)) && is_prefix_of(
                    v@,
                    s,
                )),
                forall|j: int|
                    0 <= j < i ==> !((#[trigger] item_get(rows[j], k@)) matches Some(a) && !(a
                        is S)),
            decreases n - i,
        {
            let ghost prev = out.deep_view();
            assert(rows[i as int] == self.rows[i as int]@);
            match self.rows[i].get(k) {
                Some(a) => match a {
                    Attribute::S(s) => {
                        if str_starts_with(s.as_str(), v) {
                            out.push(self.rows[i].clone());
                        }
                    },
                    _ => {
                        assert(has_non_string_at(rows, k@));
                        return Err(TableError::UnsupportedType);
                    },
                },
                None => {},
            }
            proof {
                reveal(Seq::filter);
                let cur = rows.take(i + 1);
                assert(cur.drop_last() =~= rows.take(i as int));
                assert(cur.last() == rows[i as int]);
                if pred(rows[i as int]) {
                    assert(out.deep_view() =~= prev.push(rows[i as int]));
                } else {
                    assert(out.deep_view() =~= prev);
                }
            }
            i = i + 1;
        }
        proof {
            assert(rows.take(n as int) =~= rows);
        }
        Ok(out)
    }
}

/// Mathematical value of a [`Table`].
#[verifier::ext_equal]
pub struct TableV {
    pub name: Seq<char>,
    pub attribute_definitions: Seq<AttributeDefinitionV>,
    pub arn: Seq<char>,
    pub table_id: Seq<char>,
    pub created_at: i64,
    pub provisioned_throughput: ProvisionedThroughputDescription,
    pub partition_key: Seq<char>,
    pub sort_key: Option<Seq<char>>,
    pub partitions: Seq<PartitionV>,
}

/// The invariant of a table: every row of every partition carries the
/// table's partition-key attribute with that partition's key value, and
/// partition keys are pairwise distinct.
pub open spec fn table_wf(t: TableV) -> bool {
    (forall|i: int, j: int|
        0 <= i < t.partitions.len() && 0 <= j < t.partitions[i].rows.len() ==> item_get(
            #[trigger] t.partitions[i].rows[j],
            t.partition_key,
        ) == Some(AttrV::S(t.partitions[i].key))) && (forall|i: int, j: int|
        0 <= i < j < t.partitions.len() ==> (#[trigger] t.partitions[i].key) != (
        #[trigger] t.partitions[j].key))
}

/// The resource name of a table: its region, account, and name in the
/// fixed ARN layout.
pub open spec fn spec_arn(region: Region, account: Seq<char>, name: Seq<char>) -> Seq<char> {
    "arn:aws:dynamodb:"@ + spec_region_name(region) + ":"@ + account + ":table/"@ + name
}

/// The key schema a table reports: its partition key as `HASH`, then its
/// sort key, if any, as `RANGE`.
pub open spec fn spec_key_schema(t: TableV) -> Seq<KeySchemaV> {
    let hash = seq![
        KeySchemaV { attribute_name: t.partition_key, key_type: KeyType::HASH },
    ];
    match t.sort_key {
        Some(sk) => hash.push(KeySchemaV { attribute_name: sk, key_type: KeyType::RANGE }),
        None => hash,
    }
}

/// All rows of a table, partition by partition, in insertion order.
pub open spec fn rows_of(ps: Seq<PartitionV>) -> Seq<Seq<ItemV>> {
    ps.map_values(|p: PartitionV| p.rows)
}

pub open spec fn spec_scan(t: TableV) -> Seq<ItemV> {
    rows_of(t.partitions).flatten()
}

/// The number of items a table holds.
pub open spec fn spec_item_total(t: TableV) -> int {
    spec_scan(t).len() as int
}

/// How an insertion fails.
#[verifier::ext_equal]
pub enum InsertErrV {
    /// The item does not carry the partition-key attribute.
    MissingKey,
    /// The partition-key attribute is not of the string type.
    NotString,
}

/// A table after inserting `item`: the item is appended to the partition
/// its key value selects, which is created if absent.
pub open spec fn spec_table_insert(t: TableV, item: ItemV) -> Result<TableV, InsertErrV> {
    match item_get(item, t.partition_key) {
        Option::None => Err(InsertErrV::MissingKey),
        Option::Some(AttrV::S(v)) => Ok(
            match find_partition(t.partitions, v) {
                Some(i) => TableV {
                    partitions: t.partitions.update(
                        i,
                        PartitionV { key: t.partitions[i].key, rows: t.partitions[i].rows.push(item) },
                    ),
                    ..t
                },
                None => TableV {
                    partitions: t.partitions.push(PartitionV { key: v, rows: seq![item] }),
                    ..t
                },
            },
        ),
        Option::Some(_) => Err(InsertErrV::NotString),
    }
}

/// The item a key selects: within the partition the key's partition-key
/// value names, the first row when the table has no sort key, else the
/// first row whose sort-key attribute equals the key's sort-key value.
pub open spec fn spec_get_item(t: TableV, key: ItemV) -> Option<ItemV> {
    match item_get(key, t.partition_key) {
        Some(AttrV::S(pv)) => match find_partition(t.partitions, pv) {
            Some(pi) => {
                let rows = t.partitions[pi].rows;
                match t.sort_key {
                    None => if rows.len() > 0 {
                        Some(rows[0])
                    } else {
                        None
                    },
                    Some(sk) => match item_get(key, sk) {
                        Some(AttrV::S(sv)) => match find_row(rows, sk, sv) {
                            Some(ri) => Some(rows[ri]),
                            None => None,
                        },
                        _ => None,
                    },
                }
            },
            None => None,
        },
        _ => None,
    }
}

/// How a whole-table query fails.
#[verifier::ext_equal]
pub enum QueryErrV {
    /// The condition does not name the partition key, or a composite
    /// condition names a partition that does not exist.
    BadPartitionKey,
    /// A row carries the queried attribute with a non-string type.
    Unsupported,
    /// The condition is of a shape the evaluator does not realise.
    Unimplemented,
}

/// The rows a resolved condition tree selects from a table. A plain
/// equality on the partition key yields that partition's rows (or none);
/// an `AND` of that equality with a sort-key condition delegates the
/// right-hand side to the partition.
pub open spec fn spec_table_query(t: TableV, ast: NodeV) -> Result<Seq<ItemV>, QueryErrV> {
    match ast {
        NodeV::Binop { lhs, rhs, op } => {
            if op == Operator::Eq {
                if (*lhs matches NodeV::Attribute(_)) && (*rhs matches NodeV::Attribute(_)) {
                    let k = (*lhs)->Attribute_0;
                    let v = (*rhs)->Attribute_0;
                    if k != t.partition_key {
                        Err(QueryErrV::BadPartitionKey)
                    } else {
                        Ok(
                            match find_partition(t.partitions, v) {
                                Some(i) => t.partitions[i].rows,
                                None => Seq::empty(),
                            },
                        )
                    }
                } else {
                    Err(QueryErrV::Unimplemented)
                }
            } else {
                match *lhs {
                    NodeV::Binop { lhs: pl, rhs: pr, op: pop } => {
                        if pop == Operator::Eq && (*pl matches NodeV::Attribute(_)) && (*pr
                            matches NodeV::Attribute(_)) {
                            let k = (*pl)->Attribute_0;
                            let v = (*pr)->Attribute_0;
                            if k != t.partition_key {
                                Err(QueryErrV::BadPartitionKey)
                            } else {
                                match find_partition(t.partitions, v) {
                                    None => Err(QueryErrV::BadPartitionKey),
                                    Some(i) => match spec_partition_query(
                                        t.partitions[i].rows,
                                        *rhs,
                                    ) {
                                        Ok(items) => Ok(items),
                                        Err(EvalErrV::Unsupported) => Err(QueryErrV::Unsupported),
                                        Err(EvalErrV::Unimplemented) => Err(
                                            QueryErrV::Unimplemented,
                                        ),
                                    },
                                }
                            }
                        } else {
                            Err(QueryErrV::Unimplemented)
                        }
                    },
                    _ => Err(QueryErrV::Unimplemented),
                }
            }
        },
        _ => Err(QueryErrV::Unimplemented),
    }
}

/// What a textual query comes to, after parsing, placeholder resolution,
/// and evaluation.
#[verifier::ext_equal]
pub enum QueryOutcome {
    /// The selected rows.
    Items(Seq<ItemV>),
    /// The expression is not of the grammar.
    ParseFail,
    /// A placeholder is in neither supplied map; carries its name.
    MissingPlaceholder(Seq<char>),
    /// A placeholder resolved to a value with no string payload.
    BadMap,
    /// The condition does not select a valid partition.
    BadPartitionKey,
    /// A row carries a queried attribute with a non-string type.
    Unsupported,
    /// The condition is of a shape the evaluator does not realise.
    Unimplemented,
}

/// The outcome of the whole query pipeline on a table.
pub open spec fn spec_query_outcome(
    t: TableV,
    expr: Seq<char>,
    names: Option<Seq<(Seq<char>, Seq<char>)>>,
    values: Option<Seq<(Seq<char>, AttrV)>>,
) -> QueryOutcome {
    match queries::spec_parse(expr) {
        queries::ParseOutcome::Invalid => QueryOutcome::ParseFail,
        queries::ParseOutcome::Reserved => QueryOutcome::Unimplemented,
        queries::ParseOutcome::Parsed(ast) => match spec_resolve(ast, names, values) {
            Err(ResolveErrV::MissingValue(k)) => QueryOutcome::MissingPlaceholder(k),
            Err(ResolveErrV::InvalidMap) => QueryOutcome::BadMap,
            Ok(resolved) => match spec_table_query(t, resolved) {
                Ok(items) => QueryOutcome::Items(items),
                Err(QueryErrV::BadPartitionKey) => QueryOutcome::BadPartitionKey,
                Err(QueryErrV::Unsupported) => QueryOutcome::Unsupported,
                Err(QueryErrV::Unimplemented) => QueryOutcome::Unimplemented,
            },
        },
    }
}

/// The normalised schema of a new table.
#[derive(Debug, Clone)]
pub struct TableOptions {
    pub name: String,
    pub partition_key: String,
    pub sort_key: Option<String>,
    pub attribute_definitions: Vec<AttributeDefinition>,
}

/// The key-schema entries declaring the `HASH` role.
pub open spec fn spec_hash_entries(ks: Seq<KeySchemaV>) -> Seq<KeySchemaV> {
    ks.filter(|k: KeySchemaV| k.key_type == KeyType::HASH)
}

/// The key-schema entries declaring the `RANGE` role.
pub open spec fn spec_range_entries(ks: Seq<KeySchemaV>) -> Seq<KeySchemaV> {
    ks.filter(|k: KeySchemaV| k.key_type == KeyType::RANGE)
}

/// A key schema is valid when it declares exactly one hash key and at
/// most one range key.
pub open spec fn spec_valid_key_schema(ks: Seq<KeySchemaV>) -> bool {
    spec_hash_entries(ks).len() == 1 && spec_range_entries(ks).len() <= 1
}

/// The partition key a valid schema declares.
pub open spec fn spec_schema_partition_key(ks: Seq<KeySchemaV>) -> Seq<char> {
    spec_hash_entries(ks)[0].attribute_name
}

/// The sort key a valid schema declares, if any.
pub open spec fn spec_schema_sort_key(ks: Seq<KeySchemaV>) -> Option<Seq<char>> {
    if spec_range_entries(ks).len() == 1 {
        Some(spec_range_entries(ks)[0].attribute_name)
    } else {
        None
    }
}

impl TableOptions {
    /// Normalise a creation request: extract the partition and sort keys
    /// from the key schema, rejecting one without exactly one hash key or
    /// with more than one range key.
    pub fn from_input(input: crate::types::CreateTableInput) -> (r: Result<
        TableOptions,
        TableError,
    >)
        ensures
            match r {
                Ok(opts) => spec_valid_key_schema(input.key_schema.deep_view())
                    && opts.name@ == input.table_name@ && opts.partition_key@
                    == spec_schema_partition_key(input.key_schema.deep_view())
                    && opts.sort_key.deep_view() == spec_schema_sort_key(
                    input.key_schema.deep_view(),
                ) && opts.attribute_definitions.deep_view()
                    == input.attribute_definitions.deep_view(),
                Err(e) => !spec_valid_key_schema(input.key_schema.deep_view()) && e
                    matches TableError::InvalidKeySchema,
            },
    {
        let ghost ks = input.key_schema.deep_view();
        let ghost hash_pred = |k: KeySchemaV| k.key_type == KeyType::HASH;
        let ghost range_pred = |k: KeySchemaV| k.key_type == KeyType::RANGE;
        let n = input.key_schema.len();
        let mut partition_key: Option<String> = None;
        let mut sort_key: Option<String> = None;
        let mut hash_count: usize = 0;
        let mut range_count: usize = 0;
        let mut i: usize = 0;
        proof {
            reveal(Seq::filter);
            assert(ks.take(0).filter(hash_pred) =~= Seq::<KeySchemaV>::empty());
            assert(ks.take(0).filter(range_pred) =~= Seq::<KeySchemaV>::empty());
        }
        while i < n
            invariant
                i <= n,
                n == ks.len(),
                ks =~= input.key_schema.deep_view(),
                hash_pred == (|k: KeySchemaV| k.key_type == KeyType::HASH),
                range_pred == (|k: KeySchemaV| k.key_type == KeyType::RANGE),
                hash_count == ks.take(i as int).filter(hash_pred).len(),
                range_count == ks.take(i as int).filter(range_pred).len(),
                hash_count > 0 ==> (partition_key matches Some(p) && p@ == ks.take(
                    i as int,
                ).filter(hash_pred).last().attribute_name),
                hash_count == 0 ==> partition_key is None,
                range_count > 0 ==> (sort_key matches Some(s) && s@ == ks.take(
                    i as int,
                ).filter(range_pred).last().attribute_name),
                range_count == 0 ==> sort_key is None,
                hash_count <= i && range_count <= i,
            decreases n - i,
        {
            let entry = &input.key_schema[i];
            proof {
                assert(ks[i as int] == input.key_schema@[i as int]@);
                reveal(Seq::filter);
                let cur = ks.take(i + 1);
                assert(cur.drop_last() =~= ks.take(i as int));
                assert(cur.last() == ks[i as int]);
            }
            match entry.key_type {
                KeyType::HASH => {
                    partition_key = Some(entry.attribute_name.clone());
                    hash_count = hash_count + 1;
                },
                KeyType::RANGE => {
                    sort_key = Some(entry.attribute_name.clone());
                    range_count = range_count + 1;
                },
            }
            i = i + 1;
        }
        proof {
            assert(ks.take(n as int) =~= ks);
        }
        if hash_count != 1 || range_count > 1 {
            return Err(TableError::InvalidKeySchema);
        }
        let pk = match partition_key {
            Some(p) => p,
            None => {
                return Err(TableError::InvalidKeySchema);
            },
        };
        proof {
            let hs = spec_hash_entries(ks);
            assert(hs[0] == hs.last());
            if spec_range_entries(ks).len() == 1 {
                assert(spec_range_entries(ks)[0] == spec_range_entries(ks).last());
            }
        }
        Ok(
            TableOptions {
                name: input.table_name,
                partition_key: pk,
                sort_key,
                attribute_definitions: input.attribute_definitions,
            },
        )
    }
}

/// `d` is the description of a table whose value is `t`: its name, its
/// schema, the fixed status `ACTIVE`, its item count, and its identifiers.
pub open spec fn description_matches(d: TableDescription, t: TableV) -> bool {
    &&& (d.table_name matches Some(n) && n@ == t.name)
    &&& (d.table_status matches Some(s) && s@ == "ACTIVE"@)
    &&& (d.attribute_definitions matches Some(a) && a.deep_view() == t.attribute_definitions)
    &&& d.table_size_bytes == Some(0usize)
    &&& (d.item_count matches Some(c) && c == if spec_item_total(t) <= usize::MAX {
        spec_item_total(t)
    } else {
        usize::MAX as int
    })
    &&& (d.key_schema matches Some(ks) && ks.deep_view() == spec_key_schema(t))
    &&& (d.table_arn matches Some(a) && a@ == t.arn)
    &&& (d.table_id matches Some(i) && i@ == t.table_id)
    &&& d.creation_date_time == Some(t.created_at)
    &&& d.provisioned_throughput == Some(t.provisioned_throughput)
}

/// Counts reported about a table.
pub struct Statistics {
    pub num_partitions: usize,
}

/// A named collection of items under one key schema.
#[derive(Debug)]
pub struct Table {
    pub name: String,
    pub attribute_definitions: Vec<AttributeDefinition>,
    pub arn: String,
    pub table_id: String,
    pub created_at: i64,
    pub provisioned_throughput: ProvisionedThroughputDescription,
    partition_key: String,
    sort_key: Option<String>,
    partitions: Vec<Partition>,
}

impl View for Table {
    type V = TableV;

    closed spec fn view(&self) -> TableV {
        TableV {
            name: self.name@,
            attribute_definitions: self.attribute_definitions.deep_view(),
            arn: self.arn@,
            table_id: self.table_id@,
            created_at: self.created_at,
            provisioned_throughput: self.provisioned_throughput,
            partition_key: self.partition_key@,
            sort_key: self.sort_key.deep_view(),
            partitions: self.partitions.deep_view(),
        }
    }
}

impl DeepView for Table {
    type V = TableV;

    open spec fn deep_view(&self) -> TableV {
        self.view()
    }
}

impl Clone for Table {
    fn clone(&self) -> (r: Self)
        ensures
            r@ == self@,
    {
        let mut defs: Vec<AttributeDefinition> = Vec::new();
        let nd = self.attribute_definitions.len();
        let mut i: usize = 0;
        while i < nd
            invariant
                i <= nd,
                nd == self.attribute_definitions@.len(),
                defs.deep_view() =~= self.attribute_definitions.deep_view().take(i as int),
            decreases nd - i,
        {
            let ghost prev = defs.deep_view();
            let c = self.attribute_definitions[i].clone();
            defs.push(c);
            proof {
                assert(defs.deep_view() =~= prev.push(c@));
                assert(prev.push(c@) =~= self.attribute_definitions.deep_view().take(i + 1));
            }
            i = i + 1;
        }
        let mut parts: Vec<Partition> = Vec::new();
        let np = self.partitions.len();
        let mut j: usize = 0;
        while j < np
            invariant
                j <= np,
                np == self.partitions@.len(),
                parts.deep_view() =~= self.partitions.deep_view().take(j as int),
            decreases np - j,
        {
            let ghost prev = parts.deep_view();
            let c = self.partitions[j].clone();
            parts.push(c);
            proof {
                assert(parts.deep_view() =~= prev.push(c@));
                assert(prev.push(c@) =~= self.partitions.deep_view().take(j + 1));
            }
            j = j + 1;
        }
        proof {
            assert(defs.deep_view() =~= self.attribute_definitions.deep_view());
            assert(parts.deep_view() =~= self.partitions.deep_view());
        }
        let r = Table {
            name: self.name.clone(),
            attribute_definitions: defs,
            arn: self.arn.clone(),
            table_id: self.table_id.clone(),
            created_at: self.created_at,
            provisioned_throughput: self.provisioned_throughput,
            partition_key: self.partition_key.clone(),
            sort_key: match &self.sort_key {
                Some(s) => Some(s.clone()),
                None => None,
            },
            partitions: parts,
        };
        proof {
            assert(r@ =~= self@);
        }
        r
    }
}

impl Table {
    /// A new, empty table in `region` under `account`, with the schema
    /// `options` declares. Its identifier is fresh and its creation time
    /// is the clock's.
    pub fn new(region: Region, account: &str, options: TableOptions) -> (r: Table)
        ensures
            r@.name == options.name@,
            r@.partition_key == options.partition_key@,
            r@.sort_key == options.sort_key.deep_view(),
            r@.attribute_definitions == options.attribute_definitions.deep_view(),
            r@.arn == spec_arn(region, account@, options.name@),
            r@.partitions =~= Seq::<PartitionV>::empty(),
            r@.provisioned_throughput == spec_default_throughput(),
            table_wf(r@),
    {
        let mut arn: String = "arn:aws:dynamodb:".to_owned();
        arn.append(region.name().as_str());
        arn.append(":");
        arn.append(account);
        arn.append(":table/");
        arn.append(options.name.as_str());
        proof {
            reveal_strlit(":");
        }
        Table {
            name: options.name,
            attribute_definitions: options.attribute_definitions,
            arn,
            table_id: crate::trusted::fresh_table_id(),
            created_at: crate::trusted::now_timestamp_millis(),
            provisioned_throughput: ProvisionedThroughputDescription::default(),
            partition_key: options.partition_key,
            sort_key: options.sort_key,
            partitions: Vec::new(),
        }
    }

    /// The table's name.
    pub fn name_string(&self) -> (r: String)
        ensures
            r@ == self@.name,
    {
        self.name.clone()
    }

    /// Whether this table is named `name`.
    pub fn has_name(&self, name: &str) -> (r: bool)
        ensures
            r == (self@.name == name@),
    {
        str_eq(self.name.as_str(), name)
    }

    /// Index of the partition keyed `key`, if any.
    fn find_partition_idx(&self, key: &str) -> (r: Option<usize>)
        ensures
            match r {
                Some(i) => i < self@.partitions.len() && find_partition(self@.partitions, key@)
                    == Some(i as int) && self@.partitions[i as int].key == key@,
                None => find_partition(self@.partitions, key@) is None && (forall|j: int|
                    0 <= j < self@.partitions.len() ==> (#[trigger] self@.partitions[j].key)
                        != key@),
            },
    {
        let ghost ps = self@.partitions;
        let n = self.partitions.len();
        let mut i: usize = 0;
        while i < n
            invariant
                i <= n,
                n == ps.len(),
                ps =~= self@.partitions,
                find_partition_from(ps, 0, key@) == find_partition_from(ps, i as int, key@),
                forall|j: int| 0 <= j < i ==> (#[trigger] ps[j].key) != key@,
            decreases n - i,
        {
            assert(ps[i as int] == self.partitions[i as int]@);
            if str_eq(self.partitions[i].partition_key_value.as_str(), key) {
                return Some(i);
            }
            i = i + 1;
        }
        None
    }

    /// Insert an item: append it to the partition its partition-key value
    /// selects, creating the partition on first use.
    pub fn insert(&mut self, attributes: Item) -> (r: Result<(), TableError>)
        requires
            table_wf(old(self)@),
        ensures
            table_wf(final(self)@),
            match spec_table_insert(old(self)@, attributes@) {
                Ok(t2) => r is Ok && final(self)@ == t2,
                Err(InsertErrV::MissingKey) => r matches Err(TableError::MissingPartitionKey)
                    && final(self)@ == old(self)@,
                Err(InsertErrV::NotString) => r matches Err(TableError::UnsupportedKeyType)
                    && final(self)@ == old(self)@,
            },
    {
        let ghost av = attributes@;
        let v: String = {
            let pkv = match attributes.get(self.partition_key.as_str()) {
                Some(a) => a,
                None => {
                    return Err(TableError::MissingPartitionKey);
                },
            };
            match pkv {
                Attribute::S(s) => s.clone(),
                _ => {
                    return Err(TableError::UnsupportedKeyType);
                },
            }
        };
        match self.find_partition_idx(v.as_str()) {
            Some(i) => {
                let ghost before = self@;
                let p = &mut self.partitions[i];
                p.insert(attributes);
                proof {
                    assert(self@.partitions =~= before.partitions.update(
                        i as int,
                        PartitionV {
                            key: before.partitions[i as int].key,
                            rows: before.partitions[i as int].rows.push(av),
                        },
                    ));
                    assert(self@ =~= spec_table_insert(old(self)@, av)->Ok_0);
                    assert(table_wf(self@));
                }
            },
            None => {
                let ghost before = self@;
                let mut p = Partition::new(v);
                p.insert(attributes);
                self.partitions.push(p);
                proof {
                    assert(p@.rows =~= seq![av]);
                    assert(self@.partitions =~= before.partitions.push(p@));
                    assert(self@ =~= spec_table_insert(old(self)@, av)->Ok_0);
                    assert(table_wf(self@));
                }
            },
        }
        Ok(())
    }

    /// Counts about this table: how many partitions it holds.
    pub fn statistics(&self) -> (r: Statistics)
        ensures
            r.num_partitions == self@.partitions.len(),
    {
        Statistics { num_partitions: self.partitions.len() }
    }

    /// The number of items, clamped at the machine's limit.
    fn len(&self) -> (r: usize)
        ensures
            r == if spec_item_total(self@) <= usize::MAX {
                spec_item_total(self@)
            } else {
                usize::MAX as int
            },
    {
        let ghost ps = self@.partitions;
        broadcast use vstd::prelude::Seq::lemma_flatten_push;

        let n = self.partitions.len();
        let mut total: usize = 0;
        let mut i: usize = 0;
        proof {
            assert(rows_of(ps.take(0)) =~= Seq::<Seq<ItemV>>::empty());
            assert(Seq::<Seq<ItemV>>::empty().flatten() =~= Seq::<ItemV>::empty());
        }
        while i < n
            invariant
                i <= n,
                n == ps.len(),
                ps =~= self@.partitions,
                total == if rows_of(ps.take(i as int)).flatten().len() <= usize::MAX {
                    rows_of(ps.take(i as int)).flatten().len() as int
                } else {
                    usize::MAX as int
                },
            decreases n - i,
        {
            let ghost prefix = rows_of(ps.take(i as int));
            let c = self.partitions[i].item_count();
            total = match total.checked_add(c) {
                Some(t) => t,
                None => usize::MAX,
            };
            proof {
                assert(ps[i as int] == self.partitions[i as int]@);
                let cur = rows_of(ps.take(i + 1));
                assert(cur =~= prefix.push(ps[i as int].rows));
                assert(cur.flatten() == prefix.push(ps[i as int].rows).flatten());
                prefix.lemma_flatten_push(ps[i as int].rows);
            }
            i = i + 1;
        }
        proof {
            assert(ps.take(n as int) =~= ps);
        }
        total
    }

    /// The table's metadata: name, schema, counts, identifiers, and the
    /// fixed status `ACTIVE`.
    pub fn description(&self) -> (d: TableDescription)
        ensures
            description_matches(d, self@),
    {
        let mut key_schema: Vec<KeySchema> = Vec::new();
        key_schema.push(
            KeySchema { attribute_name: self.partition_key.clone(), key_type: KeyType::HASH },
        );
        match &self.sort_key {
            Some(sk) => {
                key_schema.push(
                    KeySchema { attribute_name: sk.clone(), key_type: KeyType::RANGE },
                );
            },
            None => {},
        }
        proof {
            assert(key_schema.deep_view() =~= spec_key_schema(self@));
        }
        let mut defs: Vec<AttributeDefinition> = Vec::new();
        let mut i: usize = 0;
        let nd = self.attribute_definitions.len();
        while i < nd
            invariant
                i <= nd,
                nd == self.attribute_definitions@.len(),
                defs.deep_view() =~= self@.attribute_definitions.take(i as int),
            decreases nd - i,
        {
            let ghost prev = defs.deep_view();
            let c = self.attribute_definitions[i].clone();
            proof {
                assert(self@.attribute_definitions[i as int] == self.attribute_definitions@[
                    i as int
                ]@);
            }
            defs.push(c);
            proof {
                assert(defs.deep_view() =~= prev.push(c@));
                assert(prev.push(c@) =~= self@.attribute_definitions.take(i + 1));
            }
            i = i + 1;
        }
        proof {
            assert(self@.attribute_definitions.take(nd as int) =~= self@.attribute_definitions);
        }
        TableDescription {
            table_name: Some(self.name.clone()),
            attribute_definitions: Some(defs),
            table_status: Some("ACTIVE".to_owned()),
            table_size_bytes: Some(0),
            item_count: Some(self.len()),
            key_schema: Some(key_schema),
            table_arn: Some(self.arn.clone()),
            table_id: Some(self.table_id.clone()),
            creation_date_time: Some(self.created_at),
            provisioned_throughput: Some(self.provisioned_throughput),
        }
    }

    /// Every item of every partition, in partition order.
    pub fn scan(&self) -> (r: Result<Vec<Item>, TableError>)
        ensures
            r matches Ok(v) && v.deep_view() == spec_scan(self@),
    {
        let ghost ps = self@.partitions;
        broadcast use vstd::prelude::Seq::lemma_flatten_push;

        let n = self.partitions.len();
        let mut out: Vec<Item> = Vec::new();
        let mut i: usize = 0;
        proof {
            assert(rows_of(ps.take(0)) =~= Seq::<Seq<ItemV>>::empty());
            assert(Seq::<Seq<ItemV>>::empty().flatten() =~= Seq::<ItemV>::empty());
            assert(out.deep_view() =~= Seq::<ItemV>::empty());
        }
        while i < n
            invariant
                i <= n,
                n == ps.len(),
                ps =~= self@.partitions,
                out.deep_view() == rows_of(ps.take(i as int)).flatten(),
            decreases n - i,
        {
            let ghost prefix = rows_of(ps.take(i as int));
            let ghost before = out.deep_view();
            let rows = &self.partitions[i].rows;
            let m = rows.len();
            let mut j: usize = 0;
            proof {
                assert(ps[i as int] == self.partitions[i as int]@);
                assert(rows.deep_view() == ps[i as int].rows);
                assert(before + ps[i as int].rows.take(0) =~= before);
            }
            while j < m
                invariant
                    j <= m,
                    m == rows.deep_view().len(),
                    rows.deep_view() == ps[i as int].rows,
                    0 <= i < ps.len(),
                    out.deep_view() == before + ps[i as int].rows.take(j as int),
                decreases m - j,
            {
                out.push(rows[j].clone());
                proof {
                    assert(rows.deep_view()[j as int] == rows@[j as int]@);
                    assert(before + ps[i as int].rows.take(j + 1) =~= (before + ps[
                        i as int
                    ].rows.take(j as int)).push(ps[i as int].rows[j as int]));
                }
                j = j + 1;
            }
            proof {
                assert(ps[i as int].rows.take(m as int) =~= ps[i as int].rows);
                let cur = rows_of(ps.take(i + 1));
                assert(cur =~= prefix.push(ps[i as int].rows));
                assert(cur.flatten() == prefix.push(ps[i as int].rows).flatten());
                prefix.lemma_flatten_push(ps[i as int].rows);
                assert(out.deep_view() =~= cur.flatten());
            }
            i = i + 1;
        }
        proof {
            assert(ps.take(n as int) =~= ps);
        }
        Ok(out)
    }

    /// Look one item up by its key attributes.
    pub fn get_item(&self, key: Item) -> (r: Option<Item>)
        ensures
            match r {
                Some(it) => spec_get_item(self@, key@) == Some(it@),
                None => spec_get_item(self@, key@) is None,
            },
    {
        let pv: String = {
            let pkv = match key.get(self.partition_key.as_str()) {
                Some(a) => a,
                None => {
                    return None;
                },
            };
            match pkv {
                Attribute::S(s) => s.clone(),
                _ => {
                    return None;
                },
            }
        };
        let pi = match self.find_partition_idx(pv.as_str()) {
            Some(i) => i,
            None => {
                return None;
            },
        };
        let partition = &self.partitions[pi];
        match &self.sort_key {
            None => partition.get_by_pk_only(),
            Some(sk) => {
                let sv: String = {
                    let skv = match key.get(sk.as_str()) {
                        Some(a) => a,
                        None => {
                            return None;
                        },
                    };
                    match skv {
                        Attribute::S(s) => s.clone(),
                        _ => {
                            return None;
                        },
                    }
                };
                partition.get_item(sk.as_str(), sv.as_str())
            },
        }
    }

    /// Evaluate a textual key condition: parse it, resolve placeholders
    /// against the supplied maps, and select the matching rows.
    pub fn query(
        &self,
        key_condition_expression: &str,
        expression_attribute_names: &Option<Vec<(String, String)>>,
        expression_attribute_values: &Option<Vec<(String, Attribute)>>,
    ) -> (r: Result<Vec<Item>, TableError>)
        ensures
            match spec_query_outcome(
                self@,
                key_condition_expression@,
                expression_attribute_names.deep_view(),
                expression_attribute_values.deep_view(),
            ) {
                QueryOutcome::Items(items) => r matches Ok(v) && v.deep_view() == items,
                QueryOutcome::ParseFail => r matches Err(TableError::ParseError(_)),
                QueryOutcome::MissingPlaceholder(k) => r matches Err(
                    TableError::NoAttributeValue(n),
                ) && n@ == k,
                QueryOutcome::BadMap => r matches Err(TableError::InvalidAttributeMap),
                QueryOutcome::BadPartitionKey => r matches Err(TableError::InvalidPartitionKey),
                QueryOutcome::Unsupported => r matches Err(TableError::UnsupportedType),
                QueryOutcome::Unimplemented => r matches Err(TableError::Unimplemented),
            },
    {
        let ast = match queries::parse(key_condition_expression) {
            Ok(a) => a,
            Err(queries::ParserError::UnsupportedComparator) => {
                return Err(TableError::Unimplemented);
            },
            Err(e) => {
                return Err(TableError::ParseError(e));
            },
        };
        let remover = NodeVisitor::new(expression_attribute_names, expression_attribute_values);
        let resolved = match remover.visit(ast) {
            Ok(a) => a,
            Err(e) => {
                return Err(e);
            },
        };
        self.eval_query(&resolved)
    }

    /// Select the rows a resolved condition tree names.
    fn eval_query(&self, ast: &Node) -> (r: Result<Vec<Item>, TableError>)
        ensures
            match spec_table_query(self@, node_view(*ast)) {
                Ok(items) => r matches Ok(v) && v.deep_view() == items,
                Err(QueryErrV::BadPartitionKey) => r matches Err(TableError::InvalidPartitionKey),
                Err(QueryErrV::Unsupported) => r matches Err(TableError::UnsupportedType),
                Err(QueryErrV::Unimplemented) => r matches Err(TableError::Unimplemented),
            },
    {
        match ast {
            Node::Binop { lhs, rhs, op } => {
                if *op == Operator::Eq {
                    match &**lhs {
                        Node::Attribute(k) => match &**rhs {
                            Node::Attribute(v) => {
                                proof {
                                    assert(node_view(**lhs) == NodeV::Attribute(k@));
                                    assert(node_view(**rhs) == NodeV::Attribute(v@));
                                }
                                if !str_eq(k.as_str(), self.partition_key.as_str()) {
                                    return Err(TableError::InvalidPartitionKey);
                                }
                                match self.find_partition_idx(v.as_str()) {
                                    Some(i) => Ok(clone_items(&self.partitions[i].rows)),
                                    None => {
                                        let out: Vec<Item> = Vec::new();
                                        proof {
                                            assert(out.deep_view() =~= Seq::<ItemV>::empty());
                                        }
                                        Ok(out)
                                    },
                                }
                            },
                            _ => Err(TableError::Unimplemented),
                        },
                        _ => Err(TableError::Unimplemented),
                    }
                } else {
                    match &**lhs {
                        Node::Binop { lhs: pl, rhs: pr, op: pop } => {
                            if *pop == Operator::Eq {
                                match &**pl {
                                    Node::Attribute(k) => match &**pr {
                                        Node::Attribute(v) => {
                                            proof {
                                                assert(node_view(**pl) == NodeV::Attribute(k@));
                                                assert(node_view(**pr) == NodeV::Attribute(v@));
                                                assert(node_view(**lhs) == NodeV::Binop {
                                                    lhs: Box::new(node_view(**pl)),
                                                    rhs: Box::new(node_view(**pr)),
                                                    op: Operator::Eq,
                                                });
                                            }
                                            if !str_eq(k.as_str(), self.partition_key.as_str()) {
                                                return Err(TableError::InvalidPartitionKey);
                                            }
                                            match self.find_partition_idx(v.as_str()) {
                                                Some(i) => self.partitions[i].query(&**rhs),
                                                None => Err(TableError::InvalidPartitionKey),
                                            }
                                        },
                                        _ => Err(TableError::Unimplemented),
                                    },
                                    _ => Err(TableError::Unimplemented),
                                }
                            } else {
                                Err(TableError::Unimplemented)
                            }
                        },
                        _ => Err(TableError::Unimplemented),
                    }
                }
            },
            _ => Err(TableError::Unimplemented),
        }
    }
}

} // verus!
