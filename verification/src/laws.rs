//! Laws of the store, stated over the same mathematical values the
//! operations' contracts use and proved from them.

use vstd::prelude::*;
use vstd::seq_lib::lemma_seq_concat_contains_all_elements;
use vstd::seq_lib::lemma_seq_contains_after_push;
use crate::queries::NodeV;
use crate::table::{
    find_partition, find_partition_from, find_row, find_row_from, PartitionV, rows_of, spec_get_item,
    spec_item_total, spec_scan, spec_table_insert, spec_table_query, table_wf, TableV,
};
use crate::table_manager::{
    AccountTablesV, find_in_accounts_from, find_in_regions_from, find_table_idx_from, ManagerV,
    names_in_accounts_from, names_in_regions_from, names_of_tables, Region, RegionTablesV,
    spec_batch_group_from, spec_find_path, spec_table_names, tables_not_named,
};
use crate::types::{AttrV, item_get, ItemV};
use crate::visitor::{assoc_get, ResolveErrV, spec_resolve};

verus! {

/// The total number of items of a table: the sum of its partitions' row
/// counts.
pub open spec fn sum_rows(ps: Seq<PartitionV>) -> int
    decreases ps.len(),
{
    if ps.len() == 0 {
        0
    } else {
        sum_rows(ps.drop_last()) + ps.last().rows.len()
    }
}

/// A scan returns exactly as many items as the table's partitions hold
/// together, so its count is the sum of the partition sizes.
pub proof fn lemma_scan_count_is_total(t: TableV)
    ensures
        spec_scan(t).len() == sum_rows(t.partitions),
        spec_item_total(t) == sum_rows(t.partitions),
    decreases t.partitions.len(),
{
    let ps = t.partitions;
    if ps.len() == 0 {
        assert(rows_of(ps) =~= Seq::<Seq<ItemV>>::empty());
        assert(rows_of(ps).flatten() =~= Seq::<ItemV>::empty());
    } else {
        let shorter = TableV { partitions: ps.drop_last(), ..t };
        lemma_scan_count_is_total(shorter);
        assert(rows_of(ps) =~= rows_of(ps.drop_last()).push(ps.last().rows));
        rows_of(ps.drop_last()).lemma_flatten_push(ps.last().rows);
    }
}

/// Every element of a filtered sequence is an element of the original.
proof fn lemma_filter_subset<A>(s: Seq<A>, pred: spec_fn(A) -> bool)
    ensures
        forall|i: int|
            0 <= i < s.filter(pred).len() ==> s.contains(#[trigger] s.filter(pred)[i]),
    decreases s.len(),
{
    reveal(Seq::filter);
    if s.len() > 0 {
        lemma_filter_subset(s.drop_last(), pred);
        let f = s.filter(pred);
        let fd = s.drop_last().filter(pred);
        assert forall|i: int| 0 <= i < f.len() implies s.contains(#[trigger] f[i]) by {
            if i < fd.len() {
                assert(fd[i] == f[i]);
                let j = choose|j: int| 0 <= j < s.drop_last().len() && s.drop_last()[j] == fd[i];
                assert(s[j] == fd[i]);
            } else {
                assert(f[i] == s.last());
            }
        }
    }
}

/// Every row of a partition of `ps` appears in the flattened rows.
proof fn lemma_rows_in_scan(ps: Seq<PartitionV>, i: int)
    requires
        0 <= i < ps.len(),
    ensures
        forall|j: int|
            0 <= j < ps[i].rows.len() ==> rows_of(ps).flatten().contains(#[trigger] ps[i].rows[j]),
    decreases ps.len(),
{
    assert(rows_of(ps.drop_last()).push(ps.last().rows) =~= rows_of(ps));
    rows_of(ps.drop_last()).lemma_flatten_push(ps.last().rows);
    if i == ps.len() - 1 {
        assert forall|j: int| 0 <= j < ps[i].rows.len() implies rows_of(ps).flatten().contains(
            #[trigger] ps[i].rows[j],
        ) by {
            assert(ps.last().rows.contains(ps[i].rows[j]));
            lemma_seq_concat_contains_all_elements(
                rows_of(ps.drop_last()).flatten(),
                ps.last().rows,
                ps[i].rows[j],
            );
        }
    } else {
        lemma_rows_in_scan(ps.drop_last(), i);
        assert(ps.drop_last()[i] == ps[i]);
        assert forall|j: int| 0 <= j < ps[i].rows.len() implies rows_of(ps).flatten().contains(
            #[trigger] ps[i].rows[j],
        ) by {
            assert(rows_of(ps.drop_last()).flatten().contains(ps[i].rows[j]));
            lemma_seq_concat_contains_all_elements(
                rows_of(ps.drop_last()).flatten(),
                ps.last().rows,
                ps[i].rows[j],
            );
        }
    }
}

/// Every item a query selects is an item a scan returns: query results
/// are a subset of the scan, filtered by the condition.
pub proof fn lemma_query_items_in_scan(t: TableV, ast: NodeV)
    requires
        spec_table_query(t, ast) is Ok,
    ensures
        forall|k: int|
            0 <= k < spec_table_query(t, ast)->Ok_0.len() ==> spec_scan(t).contains(
                #[trigger] spec_table_query(t, ast)->Ok_0[k],
            ),
{
    let items = spec_table_query(t, ast)->Ok_0;
    match ast {
        NodeV::Binop { lhs, rhs, op } => {
            if op == crate::queries::Operator::Eq {
                match find_partition(t.partitions, (*rhs)->Attribute_0) {
                    Some(i) => {
                        lemma_find_partition_in_range(t.partitions, 0, (*rhs)->Attribute_0);
                        lemma_rows_in_scan(t.partitions, i);
                    },
                    None => {},
                }
            } else {
                match *lhs {
                    NodeV::Binop { lhs: pl, rhs: pr, op: pop } => {
                        match find_partition(t.partitions, (*pr)->Attribute_0) {
                            Some(i) => {
                                lemma_find_partition_in_range(t.partitions, 0, (*pr)->Attribute_0);
                                lemma_rows_in_scan(t.partitions, i);
                                let rows = t.partitions[i].rows;
                                match *rhs {
                                    NodeV::Binop { lhs: ql, rhs: qr, op: qop } => {
                                        let k = (*ql)->Attribute_0;
                                        let v = (*qr)->Attribute_0;
                                        lemma_filter_subset(
                                            rows,
                                            |r: ItemV| item_get(r, k) == Some(AttrV::S(v)),
                                        );
                                        lemma_contained_in_scan(t, i, items, rows);
                                    },
                                    NodeV::FunctionCall { name, args } => {
                                        let k = args[0]->Attribute_0;
                                        let v = args[1]->Attribute_0;
                                        lemma_filter_subset(
                                            rows,
                                            |r: ItemV|
                                                item_get(r, k) matches Some(AttrV::S(s))
                                                    && crate::strutil::is_prefix_of(v, s),
                                        );
                                        lemma_contained_in_scan(t, i, items, rows);
                                    },
                                    _ => {},
                                }
                            },
                            None => {},
                        }
                    },
                    _ => {},
                }
            }
        },
        _ => {},
    }
}

/// Items drawn from the rows of one partition appear in the scan.
proof fn lemma_contained_in_scan(t: TableV, i: int, items: Seq<ItemV>, rows: Seq<ItemV>)
    requires
        0 <= i < t.partitions.len(),
        rows == t.partitions[i].rows,
        forall|k: int| 0 <= k < items.len() ==> rows.contains(#[trigger] items[k]),
    ensures
        forall|k: int| 0 <= k < items.len() ==> spec_scan(t).contains(#[trigger] items[k]),
{
    lemma_rows_in_scan(t.partitions, i);
    assert forall|k: int| 0 <= k < items.len() implies spec_scan(t).contains(
        #[trigger] items[k],
    ) by {
        let j = choose|j: int| 0 <= j < rows.len() && rows[j] == items[k];
        assert(rows_of(t.partitions).flatten().contains(t.partitions[i].rows[j]));
    }
}

/// A found partition index is in range and carries the sought key.
proof fn lemma_find_partition_in_range(ps: Seq<PartitionV>, i: int, key: Seq<char>)
    requires
        0 <= i,
    ensures
        find_partition_from(ps, i, key) matches Some(j) ==> i <= j < ps.len() && ps[j].key == key,
    decreases ps.len() - i,
{
    if i < ps.len() && !(ps[i].key == key) {
        lemma_find_partition_in_range(ps, i + 1, key);
    }
}

/// Updating a partition without changing its key leaves every partition
/// lookup unchanged.
proof fn lemma_find_partition_update(ps: Seq<PartitionV>, u: int, p2: PartitionV, key: Seq<char>, i: int)
    requires
        0 <= u < ps.len(),
        ps[u].key == p2.key,
        0 <= i,
    ensures
        find_partition_from(ps.update(u, p2), i, key) == find_partition_from(ps, i, key),
    decreases ps.len() - i,
{
    if i < ps.len() {
        lemma_find_partition_update(ps, u, p2, key, i + 1);
    }
}

/// Appending a partition with a fresh key: lookups of that key find the
/// new partition, lookups of other keys are unchanged.
proof fn lemma_find_partition_push(ps: Seq<PartitionV>, p: PartitionV, key: Seq<char>, i: int)
    requires
        0 <= i <= ps.len(),
    ensures
        find_partition_from(ps.push(p), i, key) == if find_partition_from(ps, i, key) is Some {
            find_partition_from(ps, i, key)
        } else if p.key == key {
            Some(ps.len() as int)
        } else {
            None::<int>
        },
    decreases ps.len() - i,
{
    if i < ps.len() {
        lemma_find_partition_push(ps, p, key, i + 1);
    } else {
        assert(find_partition_from(ps, i, key) is None);
        if p.key != key {
            assert(find_partition_from(ps.push(p), i + 1, key) is None);
        }
    }
}

/// Appending a row: lookups that missed find the new row when it matches;
/// earlier matches stay first.
proof fn lemma_find_row_push(rows: Seq<ItemV>, item: ItemV, sk: Seq<char>, sv: Seq<char>, i: int)
    requires
        0 <= i <= rows.len(),
    ensures
        find_row_from(rows.push(item), i, sk, sv) == if find_row_from(rows, i, sk, sv) is Some {
            find_row_from(rows, i, sk, sv)
        } else if item_get(item, sk) == Some(AttrV::S(sv)) {
            Some(rows.len() as int)
        } else {
            None::<int>
        },
    decreases rows.len() - i,
{
    if i < rows.len() {
        lemma_find_row_push(rows, item, sk, sv, i + 1);
    } else {
        assert(find_row_from(rows, i, sk, sv) is None);
        if item_get(item, sk) != Some(AttrV::S(sv)) {
            assert(find_row_from(rows.push(item), i + 1, sk, sv) is None);
        }
    }
}

/// Putting an item and then getting it by its own key yields that item,
/// provided no earlier item of the table answers the same key: for a
/// table with a sort key, no row of the item's partition carries its
/// sort-key value yet; for a table without one, its partition is absent
/// or empty.
pub proof fn lemma_put_then_get(t: TableV, item: ItemV)
    requires
        table_wf(t),
        item_get(item, t.partition_key) matches Some(AttrV::S(_)),
        match t.sort_key {
            Some(sk) => item_get(item, sk) matches Some(AttrV::S(_)),
            None => true,
        },
        ({
            let pv = item_get(item, t.partition_key)->Some_0->S_0;
            match find_partition(t.partitions, pv) {
                None => true,
                Some(i) => match t.sort_key {
                    None => t.partitions[i].rows.len() == 0,
                    Some(sk) => find_row(
                        t.partitions[i].rows,
                        sk,
                        item_get(item, sk)->Some_0->S_0,
                    ) is None,
                },
            }
        }),
    ensures
        spec_table_insert(t, item) is Ok,
        spec_get_item(spec_table_insert(t, item)->Ok_0, item) == Some(item),
{
    let pv = item_get(item, t.partition_key)->Some_0->S_0;
    let t2 = spec_table_insert(t, item)->Ok_0;
    match find_partition(t.partitions, pv) {
        Some(i) => {
            lemma_find_partition_in_range(t.partitions, 0, pv);
            let p2 = PartitionV { key: t.partitions[i].key, rows: t.partitions[i].rows.push(item) };
            lemma_find_partition_update(t.partitions, i, p2, pv, 0);
            assert(find_partition(t2.partitions, pv) == Some(i));
            match t.sort_key {
                None => {},
                Some(sk) => {
                    let sv = item_get(item, sk)->Some_0->S_0;
                    lemma_find_row_push(t.partitions[i].rows, item, sk, sv, 0);
                },
            }
        },
        None => {
            let p = PartitionV { key: pv, rows: seq![item] };
            lemma_find_partition_push(t.partitions, p, pv, 0);
            assert(find_partition(t2.partitions, pv) == Some(t.partitions.len() as int));
            match t.sort_key {
                None => {},
                Some(sk) => {
                    let sv = item_get(item, sk)->Some_0->S_0;
                    assert(find_row(seq![item], sk, sv) == Some(0int));
                },
            }
        },
    }
}

/// After putting two items under distinct partition-key values, a query
/// equating the partition key with the first item's value selects a row
/// list that contains the first item.
pub proof fn lemma_put_two_then_query(t: TableV, item1: ItemV, item2: ItemV)
    requires
        table_wf(t),
        item_get(item1, t.partition_key) matches Some(AttrV::S(_)),
        item_get(item2, t.partition_key) matches Some(AttrV::S(_)),
        item_get(item1, t.partition_key) != item_get(item2, t.partition_key),
    ensures
        spec_table_insert(t, item1) is Ok,
        spec_table_insert(spec_table_insert(t, item1)->Ok_0, item2) is Ok,
        ({
            let t2 = spec_table_insert(spec_table_insert(t, item1)->Ok_0, item2)->Ok_0;
            let pv1 = item_get(item1, t.partition_key)->Some_0->S_0;
            let q = NodeV::Binop {
                lhs: Box::new(NodeV::Attribute(t.partition_key)),
                rhs: Box::new(NodeV::Attribute(pv1)),
                op: crate::queries::Operator::Eq,
            };
            spec_table_query(t2, q) matches Ok(items) && items.contains(item1)
        }),
{
    let pv1 = item_get(item1, t.partition_key)->Some_0->S_0;
    let pv2 = item_get(item2, t.partition_key)->Some_0->S_0;
    let t1 = spec_table_insert(t, item1)->Ok_0;
    let t2 = spec_table_insert(t1, item2)->Ok_0;
    assert(t1.partition_key == t.partition_key);
    // After the first insert, the partition keyed pv1 holds item1 last.
    let i1 = match find_partition(t.partitions, pv1) {
        Some(i) => {
            lemma_find_partition_in_range(t.partitions, 0, pv1);
            let p2 = PartitionV {
                key: t.partitions[i].key,
                rows: t.partitions[i].rows.push(item1),
            };
            lemma_find_partition_update(t.partitions, i, p2, pv1, 0);
            lemma_find_partition_update(t.partitions, i, p2, pv2, 0);
            i
        },
        None => {
            let p = PartitionV { key: pv1, rows: seq![item1] };
            lemma_find_partition_push(t.partitions, p, pv1, 0);
            lemma_find_partition_push(t.partitions, p, pv2, 0);
            t.partitions.len() as int
        },
    };
    assert(find_partition(t1.partitions, pv1) == Some(i1));
    assert(t1.partitions[i1].rows.last() == item1);
    // The second insert goes to a different partition and leaves pv1's
    // partition unchanged.
    lemma_find_partition_in_range(t1.partitions, 0, pv1);
    match find_partition(t1.partitions, pv2) {
        Some(j) => {
            lemma_find_partition_in_range(t1.partitions, 0, pv2);
            let p2 = PartitionV {
                key: t1.partitions[j].key,
                rows: t1.partitions[j].rows.push(item2),
            };
            lemma_find_partition_update(t1.partitions, j, p2, pv1, 0);
            assert(j != i1);
        },
        None => {
            let p = PartitionV { key: pv2, rows: seq![item2] };
            lemma_find_partition_push(t1.partitions, p, pv1, 0);
        },
    }
    assert(find_partition(t2.partitions, pv1) == Some(i1));
    assert(t2.partitions[i1].rows.last() == item1);
    let items = spec_table_query(t2, NodeV::Binop {
        lhs: Box::new(NodeV::Attribute(t.partition_key)),
        rhs: Box::new(NodeV::Attribute(pv1)),
        op: crate::queries::Operator::Eq,
    })->Ok_0;
    assert(items == t2.partitions[i1].rows);
    assert(items.contains(item1)) by {
        assert(items[items.len() - 1] == item1);
    }
}

/// Looking an item up under a partition-key value no partition carries is
/// a miss, not a failure.
pub proof fn lemma_get_item_absent_partition(t: TableV, key: ItemV)
    requires
        match item_get(key, t.partition_key) {
            Some(AttrV::S(pv)) => find_partition(t.partitions, pv) is None,
            _ => true,
        },
    ensures
        spec_get_item(t, key) is None,
{
}

/// A partition-only query naming a partition-key value no partition
/// carries selects no rows, and is not a failure.
pub proof fn lemma_query_absent_partition(t: TableV, v: Seq<char>)
    requires
        find_partition(t.partitions, v) is None,
    ensures
        spec_table_query(
            t,
            NodeV::Binop {
                lhs: Box::new(NodeV::Attribute(t.partition_key)),
                rhs: Box::new(NodeV::Attribute(v)),
                op: crate::queries::Operator::Eq,
            },
        ) == Ok::<Seq<ItemV>, crate::table::QueryErrV>(Seq::empty()),
{
}

/// A found account index is in range and carries the sought name.
proof fn lemma_find_account_in_range(accs: Seq<AccountTablesV>, i: int, account: Seq<char>)
    requires
        0 <= i,
    ensures
        crate::table_manager::find_account_from(accs, i, account) matches Some(j) ==> i <= j
            < accs.len() && accs[j].account == account,
    decreases accs.len() - i,
{
    if i < accs.len() && !(accs[i].account == account) {
        lemma_find_account_in_range(accs, i + 1, account);
    }
}

/// A found region index is in range and carries the sought region.
proof fn lemma_find_region_in_range(rs: Seq<RegionTablesV>, i: int, region: Region)
    requires
        0 <= i,
    ensures
        crate::table_manager::find_region_from(rs, i, region) matches Some(j) ==> i <= j
            < rs.len() && rs[j].region == region,
    decreases rs.len() - i,
{
    if i < rs.len() && !(rs[i].region == region) {
        lemma_find_region_in_range(rs, i + 1, region);
    }
}

/// Appending a table of the sought name to a list without one: the lookup
/// finds it at the end.
proof fn lemma_find_table_push_named(ts: Seq<TableV>, t: TableV, name: Seq<char>, i: int)
    requires
        0 <= i <= ts.len(),
        find_table_idx_from(ts, i, name) is None,
        t.name == name,
    ensures
        find_table_idx_from(ts.push(t), i, name) == Some(ts.len() as int),
    decreases ts.len() - i,
{
    if i < ts.len() {
        lemma_find_table_push_named(ts, t, name, i + 1);
    } else {
        assert(find_table_idx_from(ts.push(t), i + 1, name) is None);
    }
}

/// When no table of an account carries the name, the search over accounts
/// at or after `a` finds nothing within any one of them.
proof fn lemma_accounts_none_regions_none(accs: Seq<AccountTablesV>, a0: int, a: int, name: Seq<char>)
    requires
        0 <= a0 <= a < accs.len(),
        find_in_accounts_from(accs, a0, name) is None,
    ensures
        find_in_regions_from(accs[a].tables.tables, 0, name) is None,
    decreases a - a0,
{
    if a0 < a {
        lemma_accounts_none_regions_none(accs, a0 + 1, a, name);
    }
}

/// When no region of an account holds the name, each region's own table
/// lookup misses.
proof fn lemma_regions_none_tables_none(rs: Seq<RegionTablesV>, r0: int, r: int, name: Seq<char>)
    requires
        0 <= r0 <= r < rs.len(),
        find_in_regions_from(rs, r0, name) is None,
    ensures
        find_table_idx_from(rs[r].tables, 0, name) is None,
    decreases r - r0,
{
    if r0 < r {
        lemma_regions_none_tables_none(rs, r0 + 1, r, name);
    }
}

/// Pushing the sought table into region `ri` of a list where the name was
/// absent: the region search finds it there.
proof fn lemma_find_regions_update_push(
    rs: Seq<RegionTablesV>,
    ri: int,
    t: TableV,
    name: Seq<char>,
    r: int,
)
    requires
        0 <= r <= rs.len(),
        0 <= ri < rs.len(),
        find_in_regions_from(rs, 0, name) is None,
        t.name == name,
    ensures
        find_in_regions_from(
            rs.update(
                ri,
                RegionTablesV { region: rs[ri].region, tables: rs[ri].tables.push(t) },
            ),
            r,
            name,
        ) == if r <= ri {
            Some((ri, rs[ri].tables.len() as int))
        } else {
            None::<(int, int)>
        },
    decreases rs.len() - r,
{
    let rs2 = rs.update(ri, RegionTablesV { region: rs[ri].region, tables: rs[ri].tables.push(t) });
    if r < rs.len() {
        lemma_find_regions_update_push(rs, ri, t, name, r + 1);
        lemma_regions_none_tables_none(rs, 0, r, name);
        if r == ri {
            lemma_find_table_push_named(rs[ri].tables, t, name, 0);
            assert(rs2[r].tables == rs[ri].tables.push(t));
        } else {
            assert(rs2[r] == rs[r]);
        }
    }
}

/// Pushing a fresh region holding only the sought table: the region
/// search finds it there.
proof fn lemma_find_regions_push_new(
    rs: Seq<RegionTablesV>,
    region: Region,
    t: TableV,
    name: Seq<char>,
    r: int,
)
    requires
        0 <= r <= rs.len(),
        find_in_regions_from(rs, 0, name) is None,
        t.name == name,
    ensures
        find_in_regions_from(
            rs.push(RegionTablesV { region, tables: seq![t] }),
            r,
            name,
        ) == Some((rs.len() as int, 0int)),
    decreases rs.len() - r,
{
    let rs2 = rs.push(RegionTablesV { region, tables: seq![t] });
    if r < rs.len() {
        lemma_find_regions_push_new(rs, region, t, name, r + 1);
        lemma_regions_none_tables_none(rs, 0, r, name);
        assert(rs2[r] == rs[r]);
    } else {
        assert(rs2[r].tables == seq![t]);
        assert(find_table_idx_from(seq![t], 0, name) == Some(0int));
    }
}

/// Replacing account `ai`'s tables with ones whose search finds the name
/// at `(ri, ti)`, where no account held the name: the account search finds
/// it there.
proof fn lemma_find_accounts_update(
    accs: Seq<AccountTablesV>,
    ai: int,
    tables2: Seq<RegionTablesV>,
    name: Seq<char>,
    ri: int,
    ti: int,
    a: int,
)
    requires
        0 <= a <= accs.len(),
        0 <= ai < accs.len(),
        find_in_accounts_from(accs, 0, name) is None,
        find_in_regions_from(tables2, 0, name) == Some((ri, ti)),
    ensures
        find_in_accounts_from(
            accs.update(
                ai,
                AccountTablesV {
                    account: accs[ai].account,
                    tables: crate::table_manager::TablesPerRegionV { tables: tables2 },
                },
            ),
            a,
            name,
        ) == if a <= ai {
            Some((ai, ri, ti))
        } else {
            None::<(int, int, int)>
        },
    decreases accs.len() - a,
{
    let accs2 = accs.update(
        ai,
        AccountTablesV {
            account: accs[ai].account,
            tables: crate::table_manager::TablesPerRegionV { tables: tables2 },
        },
    );
    if a < accs.len() {
        lemma_find_accounts_update(accs, ai, tables2, name, ri, ti, a + 1);
        lemma_accounts_none_regions_none(accs, 0, a, name);
        if a == ai {
            assert(accs2[a].tables.tables == tables2);
        } else {
            assert(accs2[a] == accs[a]);
        }
    }
}

/// Pushing a fresh account whose region search finds the name at
/// `(0, 0)`, where no account held the name: the account search finds it
/// at the end.
proof fn lemma_find_accounts_push(
    accs: Seq<AccountTablesV>,
    acct: AccountTablesV,
    name: Seq<char>,
    a: int,
)
    requires
        0 <= a <= accs.len(),
        find_in_accounts_from(accs, 0, name) is None,
        find_in_regions_from(acct.tables.tables, 0, name) == Some((0int, 0int)),
    ensures
        find_in_accounts_from(accs.push(acct), a, name) == Some((accs.len() as int, 0int, 0int)),
    decreases accs.len() - a,
{
    let accs2 = accs.push(acct);
    if a < accs.len() {
        lemma_find_accounts_push(accs, acct, name, a + 1);
        lemma_accounts_none_regions_none(accs, 0, a, name);
        assert(accs2[a] == accs[a]);
    } else {
        assert(accs2[a] == acct);
    }
}

/// Creating a table under a name no table carries, then describing that
/// name, finds exactly the created table; and a created table holds no
/// items, so its reported item count is zero.
pub proof fn lemma_create_then_describe(m: ManagerV, account: Seq<char>, region: Region, tv: TableV)
    requires
        spec_find_path(m, tv.name) is None,
        tv.partitions.len() == 0,
    ensures
        crate::table_manager::spec_get_table(
            crate::table_manager::spec_add_table(m, account, region, tv),
            tv.name,
        ) == Some(tv),
        spec_item_total(tv) == 0,
{
    lemma_scan_count_is_total(tv);
    let name = tv.name;
    let m2 = crate::table_manager::spec_add_table(m, account, region, tv);
    match crate::table_manager::find_account_from(m.per_account, 0, account) {
        Some(ai) => {
            lemma_find_account_in_range(m.per_account, 0, account);
            let acct = m.per_account[ai];
            lemma_accounts_none_regions_none(m.per_account, 0, ai, name);
            match crate::table_manager::find_region_from(acct.tables.tables, 0, region) {
                Some(ri) => {
                    lemma_find_region_in_range(acct.tables.tables, 0, region);
                    lemma_find_regions_update_push(acct.tables.tables, ri, tv, name, 0);
                    let tables2 = acct.tables.tables.update(
                        ri,
                        RegionTablesV {
                            region: acct.tables.tables[ri].region,
                            tables: acct.tables.tables[ri].tables.push(tv),
                        },
                    );
                    lemma_find_accounts_update(
                        m.per_account,
                        ai,
                        tables2,
                        name,
                        ri,
                        acct.tables.tables[ri].tables.len() as int,
                        0,
                    );
                    assert(m2.per_account =~= m.per_account.update(
                        ai,
                        AccountTablesV {
                            account: acct.account,
                            tables: crate::table_manager::TablesPerRegionV { tables: tables2 },
                        },
                    ));
                },
                None => {
                    lemma_find_regions_push_new(acct.tables.tables, region, tv, name, 0);
                    let tables2 = acct.tables.tables.push(
                        RegionTablesV { region, tables: seq![tv] },
                    );
                    lemma_find_accounts_update(
                        m.per_account,
                        ai,
                        tables2,
                        name,
                        acct.tables.tables.len() as int,
                        0,
                        0,
                    );
                    assert(m2.per_account =~= m.per_account.update(
                        ai,
                        AccountTablesV {
                            account: acct.account,
                            tables: crate::table_manager::TablesPerRegionV { tables: tables2 },
                        },
                    ));
                },
            }
        },
        None => {
            let acct = AccountTablesV {
                account,
                tables: crate::table_manager::TablesPerRegionV {
                    tables: seq![RegionTablesV { region, tables: seq![tv] }],
                },
            };
            assert(find_table_idx_from(seq![tv], 0, name) == Some(0int));
            assert(find_in_regions_from(acct.tables.tables, 0, name) == Some((0int, 0int)));
            lemma_find_accounts_push(m.per_account, acct, name, 0);
            assert(m2.per_account =~= m.per_account.push(acct));
        },
    }
}

/// A one-element sequence contains exactly its element.
proof fn lemma_singleton_contains<A>(a: A, x: A)
    ensures
        seq![a].contains(x) <==> a == x,
{
    if seq![a].contains(x) {
        let i = choose|i: int| 0 <= i < seq![a].len() && seq![a][i] == x;
        assert(seq![a][0] == x);
    }
    if a == x {
        assert(seq![a][0] == x);
        assert(seq![a].contains(x));
    }
}

/// A pushed table adds exactly its name to a table list's names.
proof fn lemma_names_tables_push(ts: Seq<TableV>, t: TableV)
    ensures
        names_of_tables(ts.push(t)) =~= names_of_tables(ts).push(t.name),
{
}

/// Name membership across one account's regions after pushing a table
/// into region `ri`: the new name joins, all others stay.
proof fn lemma_names_regions_update_push(rs: Seq<RegionTablesV>, ri: int, t: TableV, r: int, x: Seq<char>)
    requires
        0 <= r <= rs.len(),
        0 <= ri < rs.len(),
    ensures
        names_in_regions_from(
            rs.update(
                ri,
                RegionTablesV { region: rs[ri].region, tables: rs[ri].tables.push(t) },
            ),
            r,
        ).contains(x) <==> (names_in_regions_from(rs, r).contains(x) || (r <= ri && x == t.name)),
    decreases rs.len() - r,
{
    broadcast use lemma_seq_concat_contains_all_elements;
    broadcast use lemma_seq_contains_after_push;

    let rs2 = rs.update(ri, RegionTablesV { region: rs[ri].region, tables: rs[ri].tables.push(t) });
    if r < rs.len() {
        lemma_names_regions_update_push(rs, ri, t, r + 1, x);
        if r == ri {
            lemma_names_tables_push(rs[ri].tables, t);
            assert(rs2[r].tables == rs[ri].tables.push(t));
        } else {
            assert(rs2[r] == rs[r]);
        }
    }
}

/// Name membership across one account's regions after pushing a fresh
/// region holding one table.
proof fn lemma_names_regions_push_new(rs: Seq<RegionTablesV>, region: Region, t: TableV, r: int, x: Seq<char>)
    requires
        0 <= r <= rs.len(),
    ensures
        names_in_regions_from(rs.push(RegionTablesV { region, tables: seq![t] }), r).contains(x)
            <==> (names_in_regions_from(rs, r).contains(x) || x == t.name),
    decreases rs.len() - r,
{
    broadcast use lemma_seq_concat_contains_all_elements;

    let rs2 = rs.push(RegionTablesV { region, tables: seq![t] });
    if r < rs.len() {
        lemma_names_regions_push_new(rs, region, t, r + 1, x);
        assert(rs2[r] == rs[r]);
    } else {
        assert(names_of_tables(seq![t]) =~= seq![t.name]);
        assert(names_in_regions_from(rs2, rs.len() as int) =~= seq![t.name]
            + names_in_regions_from(rs2, rs.len() as int + 1));
        assert(names_in_regions_from(rs2, rs.len() as int + 1) =~= Seq::<Seq<char>>::empty());
        assert(names_in_regions_from(rs, r) =~= Seq::<Seq<char>>::empty());
        assert(names_in_regions_from(rs2, r) =~= seq![t.name]);
        lemma_singleton_contains(t.name, x);
    }
}

/// Name membership across accounts after replacing one account's tables
/// with ones holding exactly one more name.
proof fn lemma_names_accounts_update(
    accs: Seq<AccountTablesV>,
    ai: int,
    tables2: Seq<RegionTablesV>,
    nm: Seq<char>,
    a: int,
    x: Seq<char>,
)
    requires
        0 <= a <= accs.len(),
        0 <= ai < accs.len(),
        names_in_regions_from(tables2, 0).contains(x) <==> (names_in_regions_from(
            accs[ai].tables.tables,
            0,
        ).contains(x) || x == nm),
    ensures
        names_in_accounts_from(
            accs.update(
                ai,
                AccountTablesV {
                    account: accs[ai].account,
                    tables: crate::table_manager::TablesPerRegionV { tables: tables2 },
                },
            ),
            a,
        ).contains(x) <==> (names_in_accounts_from(accs, a).contains(x) || (a <= ai && x == nm)),
    decreases accs.len() - a,
{
    broadcast use lemma_seq_concat_contains_all_elements;

    let accs2 = accs.update(
        ai,
        AccountTablesV {
            account: accs[ai].account,
            tables: crate::table_manager::TablesPerRegionV { tables: tables2 },
        },
    );
    if a < accs.len() {
        lemma_names_accounts_update(accs, ai, tables2, nm, a + 1, x);
        if a == ai {
            assert(accs2[a].tables.tables == tables2);
        } else {
            assert(accs2[a] == accs[a]);
        }
    }
}

/// Name membership across accounts after pushing a fresh account holding
/// exactly one table.
proof fn lemma_names_accounts_push(
    accs: Seq<AccountTablesV>,
    acct: AccountTablesV,
    nm: Seq<char>,
    a: int,
    x: Seq<char>,
)
    requires
        0 <= a <= accs.len(),
        names_in_regions_from(acct.tables.tables, 0).contains(x) <==> (x == nm),
    ensures
        names_in_accounts_from(accs.push(acct), a).contains(x) <==> (names_in_accounts_from(
            accs,
            a,
        ).contains(x) || x == nm),
    decreases accs.len() - a,
{
    broadcast use lemma_seq_concat_contains_all_elements;

    let accs2 = accs.push(acct);
    if a < accs.len() {
        lemma_names_accounts_push(accs, acct, nm, a + 1, x);
        assert(accs2[a] == accs[a]);
    } else {
        assert(accs2[a] == acct);
        assert(names_in_accounts_from(accs2, accs.len() as int + 1) =~= Seq::<Seq<char>>::empty());
        assert(names_in_accounts_from(accs, a) =~= Seq::<Seq<char>>::empty());
    }
}

/// Creating a table adds exactly its name to the listed table names:
/// afterwards a name is listed exactly when it was listed before or is
/// the new table's.
pub proof fn lemma_table_names_add(
    m: ManagerV,
    account: Seq<char>,
    region: Region,
    t: TableV,
    x: Seq<char>,
)
    ensures
        spec_table_names(crate::table_manager::spec_add_table(m, account, region, t)).contains(x)
            <==> (spec_table_names(m).contains(x) || x == t.name),
{
    let m2 = crate::table_manager::spec_add_table(m, account, region, t);
    match crate::table_manager::find_account_from(m.per_account, 0, account) {
        Some(ai) => {
            lemma_find_account_in_range(m.per_account, 0, account);
            let acct = m.per_account[ai];
            match crate::table_manager::find_region_from(acct.tables.tables, 0, region) {
                Some(ri) => {
                    lemma_find_region_in_range(acct.tables.tables, 0, region);
                    lemma_names_regions_update_push(acct.tables.tables, ri, t, 0, x);
                    let tables2 = acct.tables.tables.update(
                        ri,
                        RegionTablesV {
                            region: acct.tables.tables[ri].region,
                            tables: acct.tables.tables[ri].tables.push(t),
                        },
                    );
                    lemma_names_accounts_update(m.per_account, ai, tables2, t.name, 0, x);
                    assert(m2.per_account =~= m.per_account.update(
                        ai,
                        AccountTablesV {
                            account: acct.account,
                            tables: crate::table_manager::TablesPerRegionV { tables: tables2 },
                        },
                    ));
                },
                None => {
                    lemma_names_regions_push_new(acct.tables.tables, region, t, 0, x);
                    let tables2 = acct.tables.tables.push(
                        RegionTablesV { region, tables: seq![t] },
                    );
                    lemma_names_accounts_update(m.per_account, ai, tables2, t.name, 0, x);
                    assert(m2.per_account =~= m.per_account.update(
                        ai,
                        AccountTablesV {
                            account: acct.account,
                            tables: crate::table_manager::TablesPerRegionV { tables: tables2 },
                        },
                    ));
                },
            }
        },
        None => {
            let acct = AccountTablesV {
                account,
                tables: crate::table_manager::TablesPerRegionV {
                    tables: seq![RegionTablesV { region, tables: seq![t] }],
                },
            };
            assert(names_of_tables(seq![t]) =~= seq![t.name]);
            assert(names_in_regions_from(acct.tables.tables, 1) =~= Seq::<Seq<char>>::empty());
            assert(names_in_regions_from(acct.tables.tables, 0) =~= seq![t.name]);
            lemma_singleton_contains(t.name, x);
            assert(names_in_regions_from(acct.tables.tables, 0).contains(x) <==> (x == t.name));
            lemma_names_accounts_push(m.per_account, acct, t.name, 0, x);
            assert(m2.per_account =~= m.per_account.push(acct));
        },
    }
}

/// Filtering tables by name keeps exactly the other names.
proof fn lemma_names_filter(ts: Seq<TableV>, name: Seq<char>, x: Seq<char>)
    ensures
        names_of_tables(tables_not_named(ts, name)).contains(x) <==> (names_of_tables(
            ts,
        ).contains(x) && x != name),
    decreases ts.len(),
{
    broadcast use lemma_seq_contains_after_push;

    reveal(Seq::filter);
    if ts.len() > 0 {
        lemma_names_filter(ts.drop_last(), name, x);
        assert(names_of_tables(ts) =~= names_of_tables(ts.drop_last()).push(ts.last().name));
        if ts.last().name != name {
            assert(tables_not_named(ts, name) == tables_not_named(ts.drop_last(), name).push(
                ts.last(),
            ));
            lemma_names_tables_push(tables_not_named(ts.drop_last(), name), ts.last());
        } else {
            assert(tables_not_named(ts, name) == tables_not_named(ts.drop_last(), name));
        }
    } else {
        assert(tables_not_named(ts, name) =~= ts);
        assert(names_of_tables(ts) =~= Seq::<Seq<char>>::empty());
    }
}

/// Name membership across one account's regions after removing a name.
proof fn lemma_names_regions_delete(rs: Seq<RegionTablesV>, name: Seq<char>, r: int, x: Seq<char>)
    requires
        0 <= r <= rs.len(),
    ensures
        names_in_regions_from(
            crate::table_manager::spec_remove_tables(
                crate::table_manager::TablesPerRegionV { tables: rs },
                name,
            ).tables,
            r,
        ).contains(x) <==> (names_in_regions_from(rs, r).contains(x) && x != name),
    decreases rs.len() - r,
{
    broadcast use lemma_seq_concat_contains_all_elements;

    let rs2 = crate::table_manager::spec_remove_tables(
        crate::table_manager::TablesPerRegionV { tables: rs },
        name,
    ).tables;
    assert(rs2.len() == rs.len());
    if r < rs.len() {
        lemma_names_regions_delete(rs, name, r + 1, x);
        lemma_names_filter(rs[r].tables, name, x);
        assert(rs2[r].tables == tables_not_named(rs[r].tables, name));
    }
}

/// Deleting a table name keeps exactly the other names: afterwards a name
/// is listed exactly when it was listed before and is not the deleted one.
pub proof fn lemma_table_names_delete(m: ManagerV, name: Seq<char>, x: Seq<char>)
    ensures
        spec_table_names(crate::table_manager::spec_delete_table(m, name)).contains(x) <==> (
        spec_table_names(m).contains(x) && x != name),
{
    lemma_names_accounts_delete(m.per_account, name, 0, x);
    assert(crate::table_manager::spec_delete_table(m, name).per_account
        =~= m.per_account.map_values(
        |a: AccountTablesV|
            AccountTablesV {
                account: a.account,
                tables: crate::table_manager::spec_remove_tables(a.tables, name),
            },
    ));
}

/// Name membership across accounts after removing a name everywhere.
proof fn lemma_names_accounts_delete(accs: Seq<AccountTablesV>, name: Seq<char>, a: int, x: Seq<char>)
    requires
        0 <= a <= accs.len(),
    ensures
        names_in_accounts_from(
            accs.map_values(
                |ac: AccountTablesV|
                    AccountTablesV {
                        account: ac.account,
                        tables: crate::table_manager::spec_remove_tables(ac.tables, name),
                    },
            ),
            a,
        ).contains(x) <==> (names_in_accounts_from(accs, a).contains(x) && x != name),
    decreases accs.len() - a,
{
    broadcast use lemma_seq_concat_contains_all_elements;

    let accs2 = accs.map_values(
        |ac: AccountTablesV|
            AccountTablesV {
                account: ac.account,
                tables: crate::table_manager::spec_remove_tables(ac.tables, name),
            },
    );
    assert(accs2.len() == accs.len());
    if a < accs.len() {
        lemma_names_accounts_delete(accs, name, a + 1, x);
        lemma_names_regions_delete(accs[a].tables.tables, name, 0, x);
        assert(accs2[a].tables == crate::table_manager::spec_remove_tables(
            accs[a].tables,
            name,
        ));
    }
}

/// Listing tables after creating `a` and `b` shows both names; after then
/// deleting `a`'s name, it shows `b`'s name and not `a`'s, provided the
/// two differ.
pub proof fn lemma_list_after_create_create_delete(
    m: ManagerV,
    account: Seq<char>,
    region: Region,
    ta: TableV,
    tb: TableV,
)
    requires
        ta.name != tb.name,
    ensures
        ({
            let m1 = crate::table_manager::spec_add_table(m, account, region, ta);
            let m2 = crate::table_manager::spec_add_table(m1, account, region, tb);
            let m3 = crate::table_manager::spec_delete_table(m2, ta.name);
            &&& spec_table_names(m2).contains(ta.name)
            &&& spec_table_names(m2).contains(tb.name)
            &&& spec_table_names(m3).contains(tb.name)
            &&& !spec_table_names(m3).contains(ta.name)
        }),
{
    let m1 = crate::table_manager::spec_add_table(m, account, region, ta);
    let m2 = crate::table_manager::spec_add_table(m1, account, region, tb);
    lemma_table_names_add(m, account, region, ta, ta.name);
    lemma_table_names_add(m1, account, region, tb, ta.name);
    lemma_table_names_add(m1, account, region, tb, tb.name);
    lemma_table_names_delete(m2, ta.name, tb.name);
    lemma_table_names_delete(m2, ta.name, ta.name);
}

/// A batch group naming a table that does not exist comes back verbatim,
/// and the store is unchanged.
pub proof fn lemma_batch_missing_table(m: ManagerV, name: Seq<char>, items: Seq<ItemV>, j: int)
    requires
        spec_find_path(m, name) is None,
        0 <= j <= items.len(),
    ensures
        spec_batch_group_from(m, name, items, j) == (m, items.skip(j)),
    decreases items.len() - j,
{
    if j < items.len() {
        lemma_batch_missing_table(m, name, items, j + 1);
        assert(seq![items[j]] + items.skip(j + 1) =~= items.skip(j));
    } else {
        assert(items.skip(j) =~= Seq::<ItemV>::empty());
    }
}

/// A placeholder-only equality resolves to the same tree as the literal
/// equality the maps spell out, and a literal tree resolves to itself.
pub proof fn lemma_placeholders_resolve_as_literals(
    k1: Seq<char>,
    k2: Seq<char>,
    names: Seq<(Seq<char>, Seq<char>)>,
    values: Seq<(Seq<char>, AttrV)>,
    pk: Seq<char>,
    v: Seq<char>,
)
    requires
        assoc_get(names, seq!['#'] + k1) == Some(pk),
        assoc_get(values, seq![':'] + k2) == Some(AttrV::S(v)),
        assoc_get(names, seq!['#'] + k2) is None,
    ensures
        spec_resolve(
            NodeV::Binop {
                lhs: Box::new(NodeV::Placeholder(k1)),
                rhs: Box::new(NodeV::Placeholder(k2)),
                op: crate::queries::Operator::Eq,
            },
            Some(names),
            Some(values),
        ) == Ok::<NodeV, ResolveErrV>(
            NodeV::Binop {
                lhs: Box::new(NodeV::Attribute(pk)),
                rhs: Box::new(NodeV::Attribute(v)),
                op: crate::queries::Operator::Eq,
            },
        ),
        spec_resolve(
            NodeV::Binop {
                lhs: Box::new(NodeV::Attribute(pk)),
                rhs: Box::new(NodeV::Attribute(v)),
                op: crate::queries::Operator::Eq,
            },
            Some(names),
            Some(values),
        ) == Ok::<NodeV, ResolveErrV>(
            NodeV::Binop {
                lhs: Box::new(NodeV::Attribute(pk)),
                rhs: Box::new(NodeV::Attribute(v)),
                op: crate::queries::Operator::Eq,
            },
        ),
{
    assert(spec_resolve(NodeV::Placeholder(k1), Some(names), Some(values))
        == Ok::<NodeV, ResolveErrV>(NodeV::Attribute(pk)));
    assert(spec_resolve(NodeV::Placeholder(k2), Some(names), Some(values))
        == Ok::<NodeV, ResolveErrV>(NodeV::Attribute(v)));
    assert(spec_resolve(NodeV::Attribute(pk), Some(names), Some(values))
        == Ok::<NodeV, ResolveErrV>(NodeV::Attribute(pk)));
    assert(spec_resolve(NodeV::Attribute(v), Some(names), Some(values))
        == Ok::<NodeV, ResolveErrV>(NodeV::Attribute(v)));
}

} // verus!
