//! The table manager: a two-level index from account and region to the
//! tables created there, with creation, lookup, deletion, and batch writes.

use vstd::prelude::*;
use vstd::string::*;
use crate::errors::TableError;
use crate::table::{
    spec_arn, spec_schema_partition_key, spec_schema_sort_key, spec_valid_key_schema, Table,
    table_wf, TableOptions, TableV,
};
use crate::table::spec_table_insert;
use crate::types::{BatchPutRequest, BatchWriteInput, CreateTableInput, Item, ItemV};

verus! {

broadcast use {
    vstd::std_specs::vec::group_vec_axioms,
    crate::types::lemma_vec_deep_view_index,
    crate::types::lemma_vec_deep_view_len,
};

/// A deployment region. The store models a single one.
#[derive(Debug, Clone, Copy, PartialEq, Eq, Structural, Hash)]
pub enum Region {
    UsEast1,
}

/// The canonical AWS name of each region.
pub open spec fn spec_region_name(r: Region) -> Seq<char> {
    match r {
        Region::UsEast1 => "us-east-1"@,
    }
}

impl Region {
    /// The canonical AWS name of this region.
    pub fn name(&self) -> (r: String)
        ensures
            r@ == spec_region_name(*self),
    {
        match self {
            Region::UsEast1 => "us-east-1".to_owned(),
        }
    }
}

impl Default for Region {
    fn default() -> (r: Self)
        ensures
            r == Region::UsEast1,
    {
        Region::UsEast1
    }
}

/// Mathematical value of the tables of one region.
#[verifier::ext_equal]
pub struct RegionTablesV {
    pub region: Region,
    pub tables: Seq<TableV>,
}

/// The tables of one region of one account.
#[derive(Debug)]
pub struct RegionTables {
    pub region: Region,
    pub tables: Vec<Table>,
}

impl View for RegionTables {
    type V = RegionTablesV;

    open spec fn view(&self) -> RegionTablesV {
        RegionTablesV { region: self.region, tables: self.tables.deep_view() }
    }
}

impl DeepView for RegionTables {
    type V = RegionTablesV;

    open spec fn deep_view(&self) -> RegionTablesV {
        self.view()
    }
}

/// Mathematical value of [`TablesPerRegion`].
#[verifier::ext_equal]
pub struct TablesPerRegionV {
    pub tables: Seq<RegionTablesV>,
}

/// The tables of one account, grouped by region.
#[derive(Debug)]
pub struct TablesPerRegion {
    pub tables: Vec<RegionTables>,
}

impl View for TablesPerRegion {
    type V = TablesPerRegionV;

    open spec fn view(&self) -> TablesPerRegionV {
        TablesPerRegionV { tables: self.tables.deep_view() }
    }
}

impl DeepView for TablesPerRegion {
    type V = TablesPerRegionV;

    open spec fn deep_view(&self) -> TablesPerRegionV {
        self.view()
    }
}

/// Mathematical value of one account's entry.
#[verifier::ext_equal]
pub struct AccountTablesV {
    pub account: Seq<char>,
    pub tables: TablesPerRegionV,
}

/// One account and its tables.
#[derive(Debug)]
pub struct AccountTables {
    pub account: String,
    pub tables: TablesPerRegion,
}

impl View for AccountTables {
    type V = AccountTablesV;

    open spec fn view(&self) -> AccountTablesV {
        AccountTablesV { account: self.account@, tables: self.tables@ }
    }
}

impl DeepView for AccountTables {
    type V = AccountTablesV;

    open spec fn deep_view(&self) -> AccountTablesV {
        self.view()
    }
}

/// Mathematical value of the [`TableManager`].
#[verifier::ext_equal]
pub struct ManagerV {
    pub per_account: Seq<AccountTablesV>,
}

/// Handles the creation, lookup, and destruction of tables, indexed by
/// account and region.
#[derive(Debug)]
pub struct TableManager {
    pub per_account: Vec<AccountTables>,
}

impl View for TableManager {
    type V = ManagerV;

    open spec fn view(&self) -> ManagerV {
        ManagerV { per_account: self.per_account.deep_view() }
    }
}

/// The names of a list of tables, in order.
pub open spec fn names_of_tables(ts: Seq<TableV>) -> Seq<Seq<char>> {
    ts.map_values(|t: TableV| t.name)
}

/// The table names of an account, scanning regions from `r` on.
pub open spec fn names_in_regions_from(rs: Seq<RegionTablesV>, r: int) -> Seq<Seq<char>>
    decreases rs.len() - r,
{
    if r < 0 || r >= rs.len() {
        Seq::empty()
    } else {
        names_of_tables(rs[r].tables) + names_in_regions_from(rs, r + 1)
    }
}

/// The table names of the manager, scanning accounts from `a` on.
pub open spec fn names_in_accounts_from(accs: Seq<AccountTablesV>, a: int) -> Seq<Seq<char>>
    decreases accs.len() - a,
{
    if a < 0 || a >= accs.len() {
        Seq::empty()
    } else {
        names_in_regions_from(accs[a].tables.tables, 0) + names_in_accounts_from(accs, a + 1)
    }
}

/// The names of all tables, in the manager's iteration order.
pub open spec fn spec_table_names(m: ManagerV) -> Seq<Seq<char>> {
    names_in_accounts_from(m.per_account, 0)
}

/// The manager is well-formed: account names are pairwise distinct,
/// regions within an account are pairwise distinct, and every table is.
pub open spec fn manager_wf(m: ManagerV) -> bool {
    (forall|i: int, j: int|
        0 <= i < j < m.per_account.len() ==> (#[trigger] m.per_account[i].account) != (
        #[trigger] m.per_account[j].account)) && (forall|a: int, i: int, j: int|
        0 <= a < m.per_account.len() && 0 <= i < j < m.per_account[a].tables.tables.len()
            ==> (#[trigger] m.per_account[a].tables.tables[i].region) != (
        #[trigger] m.per_account[a].tables.tables[j].region)) && (forall|a: int, r: int, t: int|
        0 <= a < m.per_account.len() && 0 <= r < m.per_account[a].tables.tables.len() && 0 <= t
            < m.per_account[a].tables.tables[r].tables.len() ==> table_wf(
            #[trigger] m.per_account[a].tables.tables[r].tables[t],
        ))
}

/// Index of the first table named `name` in one region's list, from `i` on.
pub open spec fn find_table_idx_from(ts: Seq<TableV>, i: int, name: Seq<char>) -> Option<int>
    decreases ts.len() - i,
{
    if i < 0 || i >= ts.len() {
        None
    } else if ts[i].name == name {
        Some(i)
    } else {
        find_table_idx_from(ts, i + 1, name)
    }
}

/// Position of the first table named `name` within an account, scanning
/// regions from `r` on: the region index and the table index.
pub open spec fn find_in_regions_from(rs: Seq<RegionTablesV>, r: int, name: Seq<char>) -> Option<
    (int, int),
>
    decreases rs.len() - r,
{
    if r < 0 || r >= rs.len() {
        None
    } else {
        match find_table_idx_from(rs[r].tables, 0, name) {
            Some(t) => Some((r, t)),
            None => find_in_regions_from(rs, r + 1, name),
        }
    }
}

/// Position of the first table named `name`, scanning accounts from `a`
/// on: the account, region, and table indices.
pub open spec fn find_in_accounts_from(
    accs: Seq<AccountTablesV>,
    a: int,
    name: Seq<char>,
) -> Option<(int, int, int)>
    decreases accs.len() - a,
{
    if a < 0 || a >= accs.len() {
        None
    } else {
        match find_in_regions_from(accs[a].tables.tables, 0, name) {
            Some((r, t)) => Some((a, r, t)),
            None => find_in_accounts_from(accs, a + 1, name),
        }
    }
}

/// Position of the first table named `name` in the manager's order.
pub open spec fn spec_find_path(m: ManagerV, name: Seq<char>) -> Option<(int, int, int)> {
    find_in_accounts_from(m.per_account, 0, name)
}

/// The position `p` names a table of `m`.
pub open spec fn path_in_range(m: ManagerV, p: (int, int, int)) -> bool {
    0 <= p.0 < m.per_account.len() && 0 <= p.1 < m.per_account[p.0].tables.tables.len() && 0
        <= p.2 < m.per_account[p.0].tables.tables[p.1].tables.len()
}

/// The table at position `p` of `m`.
pub open spec fn table_at(m: ManagerV, p: (int, int, int)) -> TableV {
    m.per_account[p.0].tables.tables[p.1].tables[p.2]
}

/// The first table named `name`, if any.
pub open spec fn spec_get_table(m: ManagerV, name: Seq<char>) -> Option<TableV> {
    match spec_find_path(m, name) {
        Some(p) => Some(table_at(m, p)),
        None => None,
    }
}

/// `m` with the table at position `p` replaced by `t2`.
pub open spec fn manager_update_at(m: ManagerV, p: (int, int, int), t2: TableV) -> ManagerV {
    let acct = m.per_account[p.0];
    let region = acct.tables.tables[p.1];
    ManagerV {
        per_account: m.per_account.update(
            p.0,
            AccountTablesV {
                account: acct.account,
                tables: TablesPerRegionV {
                    tables: acct.tables.tables.update(
                        p.1,
                        RegionTablesV { region: region.region, tables: region.tables.update(p.2, t2) },
                    ),
                },
            },
        ),
    }
}

/// How putting one item into a named table comes out.
#[verifier::ext_equal]
pub enum PutOutcomeV {
    /// The item was appended to the named table.
    Applied,
    /// No table carries the name; nothing changed.
    NoTable,
    /// The named table rejected the item; nothing changed.
    Rejected(crate::table::InsertErrV),
}

/// The manager after putting `item` into the first table named `name`,
/// and how that went.
pub open spec fn spec_manager_put(m: ManagerV, name: Seq<char>, item: ItemV) -> (
    ManagerV,
    PutOutcomeV,
) {
    match spec_find_path(m, name) {
        None => (m, PutOutcomeV::NoTable),
        Some(p) => match crate::table::spec_table_insert(table_at(m, p), item) {
            Ok(t2) => (manager_update_at(m, p, t2), PutOutcomeV::Applied),
            Err(e) => (m, PutOutcomeV::Rejected(e)),
        },
    }
}

/// The tables of `ts` not named `name`, in order.
pub open spec fn tables_not_named(ts: Seq<TableV>, name: Seq<char>) -> Seq<TableV> {
    ts.filter(|t: TableV| t.name != name)
}

/// One account's tables with every table named `name` removed.
pub open spec fn spec_remove_tables(tpr: TablesPerRegionV, name: Seq<char>) -> TablesPerRegionV {
    TablesPerRegionV {
        tables: tpr.tables.map_values(
            |r: RegionTablesV|
                RegionTablesV { region: r.region, tables: tables_not_named(r.tables, name) },
        ),
    }
}

/// The manager with every table named `name` removed, in every account
/// and region.
pub open spec fn spec_delete_table(m: ManagerV, name: Seq<char>) -> ManagerV {
    ManagerV {
        per_account: m.per_account.map_values(
            |a: AccountTablesV|
                AccountTablesV { account: a.account, tables: spec_remove_tables(a.tables, name) },
        ),
    }
}

/// The manager after adding table `t` under `account` and `region`,
/// creating the account and region entries as needed.
pub open spec fn spec_add_table(
    m: ManagerV,
    account: Seq<char>,
    region: Region,
    t: TableV,
) -> ManagerV {
    match find_account_from(m.per_account, 0, account) {
        Some(ai) => {
            let acct = m.per_account[ai];
            let tables2 = match find_region_from(acct.tables.tables, 0, region) {
                Some(ri) => {
                    let re = acct.tables.tables[ri];
                    acct.tables.tables.update(
                        ri,
                        RegionTablesV { region: re.region, tables: re.tables.push(t) },
                    )
                },
                None => acct.tables.tables.push(
                    RegionTablesV { region, tables: seq![t] },
                ),
            };
            ManagerV {
                per_account: m.per_account.update(
                    ai,
                    AccountTablesV {
                        account: acct.account,
                        tables: TablesPerRegionV { tables: tables2 },
                    },
                ),
            }
        },
        None => ManagerV {
            per_account: m.per_account.push(
                AccountTablesV {
                    account,
                    tables: TablesPerRegionV {
                        tables: seq![RegionTablesV { region, tables: seq![t] }],
                    },
                },
            ),
        },
    }
}

/// Index of the first account named `account`, from `i` on.
pub open spec fn find_account_from(
    accs: Seq<AccountTablesV>,
    i: int,
    account: Seq<char>,
) -> Option<int>
    decreases accs.len() - i,
{
    if i < 0 || i >= accs.len() {
        None
    } else if accs[i].account == account {
        Some(i)
    } else {
        find_account_from(accs, i + 1, account)
    }
}

/// Index of the first entry for `region`, from `i` on.
pub open spec fn find_region_from(rs: Seq<RegionTablesV>, i: int, region: Region) -> Option<int>
    decreases rs.len() - i,
{
    if i < 0 || i >= rs.len() {
        None
    } else if rs[i].region == region {
        Some(i)
    } else {
        find_region_from(rs, i + 1, region)
    }
}

/// The number of (account, region) entries the manager holds.
pub open spec fn region_entry_count(accs: Seq<AccountTablesV>) -> int
    decreases accs.len(),
{
    if accs.len() == 0 {
        0
    } else {
        region_entry_count(accs.drop_last()) + accs.last().tables.tables.len()
    }
}


/// The manager and the unprocessed items after putting the items of one
/// group, in order, into the table named `name`, from item `j` on.
pub open spec fn spec_batch_group_from(
    m: ManagerV,
    name: Seq<char>,
    items: Seq<ItemV>,
    j: int,
) -> (ManagerV, Seq<ItemV>)
    decreases items.len() - j,
{
    if j < 0 || j >= items.len() {
        (m, Seq::empty())
    } else {
        let (m1, oc) = spec_manager_put(m, name, items[j]);
        let (m2, rest) = spec_batch_group_from(m1, name, items, j + 1);
        (
            m2,
            if oc is Applied {
                rest
            } else {
                seq![items[j]] + rest
            },
        )
    }
}

/// The manager and the unprocessed groups after writing a whole batch,
/// group by group, from group `g` on. A group appears in the result only
/// when some of its requests were not applied.
pub open spec fn spec_batch_write_from(
    m: ManagerV,
    groups: Seq<(Seq<char>, Seq<ItemV>)>,
    g: int,
) -> (ManagerV, Seq<(Seq<char>, Seq<ItemV>)>)
    decreases groups.len() - g,
{
    if g < 0 || g >= groups.len() {
        (m, Seq::empty())
    } else {
        let (m1, un) = spec_batch_group_from(m, groups[g].0, groups[g].1, 0);
        let (m2, rest) = spec_batch_write_from(m1, groups, g + 1);
        (
            m2,
            if un.len() == 0 {
                rest
            } else {
                seq![(groups[g].0, un)] + rest
            },
        )
    }
}

/// How putting one item into a named table fails.
#[derive(Debug, PartialEq, Eq)]
pub enum PutItemError {
    /// No table carries the requested name.
    NoSuchTable,
    /// The named table rejected the item.
    Rejected(TableError),
}

/// Append the names of `ts` to `out`.
fn push_table_names(ts: &Vec<Table>, out: &mut Vec<String>)
    ensures
        final(out).deep_view() =~= old(out).deep_view() + names_of_tables(ts.deep_view()),
{
    let ghost tv = ts.deep_view();
    let ghost base = old(out).deep_view();
    let n = ts.len();
    let mut i: usize = 0;
    proof {
        assert(out.deep_view() =~= base + names_of_tables(tv.take(0)));
    }
    while i < n
        invariant
            i <= n,
            n == tv.len(),
            tv =~= ts.deep_view(),
            out.deep_view() =~= base + names_of_tables(tv.take(i as int)),
            base == old(out).deep_view(),
        decreases n - i,
    {
        let ghost prev = out.deep_view();
        assert(tv[i as int] == ts@[i as int]@);
        out.push(ts[i].name_string());
        proof {
            assert(out.deep_view() =~= prev.push(tv[i as int].name));
            assert(names_of_tables(tv.take(i + 1)) =~= names_of_tables(tv.take(i as int)).push(
                tv[i as int].name,
            ));
        }
        i = i + 1;
    }
    proof {
        assert(tv.take(n as int) =~= tv);
    }
}

/// Append the names of all tables of one account to `out`.
fn push_region_names(rs: &Vec<RegionTables>, out: &mut Vec<String>)
    ensures
        final(out).deep_view() =~= old(out).deep_view() + names_in_regions_from(
            rs.deep_view(),
            0,
        ),
{
    let ghost rv = rs.deep_view();
    let ghost base = old(out).deep_view();
    let n = rs.len();
    let mut r: usize = 0;
    proof {
        assert(out.deep_view() + names_in_regions_from(rv, 0) =~= base + names_in_regions_from(
            rv,
            0,
        ));
    }
    while r < n
        invariant
            r <= n,
            n == rv.len(),
            rv =~= rs.deep_view(),
            out.deep_view() + names_in_regions_from(rv, r as int) =~= base
                + names_in_regions_from(rv, 0),
            base == old(out).deep_view(),
        decreases n - r,
    {
        let ghost prev = out.deep_view();
        assert(rv[r as int] == rs@[r as int]@);
        push_table_names(&rs[r].tables, out);
        proof {
            assert(out.deep_view() + names_in_regions_from(rv, r + 1) =~= prev
                + names_in_regions_from(rv, r as int));
        }
        r = r + 1;
    }
    proof {
        assert(names_in_regions_from(rv, n as int) =~= Seq::<Seq<char>>::empty());
        assert(out.deep_view() =~= out.deep_view() + names_in_regions_from(rv, n as int));
    }
}

/// Keep the tables of `ts` not named `name`, in order.
fn filter_tables(ts: Vec<Table>, name: &str) -> (r: Vec<Table>)
    ensures
        r.deep_view() =~= tables_not_named(ts.deep_view(), name@),
{
    let ghost tv = ts.deep_view();
    let ghost pred = |t: TableV| t.name != name@;
    let mut rest = ts;
    let mut kept: Vec<Table> = Vec::new();
    let n = rest.len();
    let mut k: usize = 0;
    proof {
        reveal(Seq::filter);
        assert(rest.deep_view() =~= tv.skip(0));
        assert(kept.deep_view() =~= tv.take(0).filter(pred));
    }
    while k < n
        invariant
            k <= n,
            n == tv.len(),
            rest.deep_view() =~= tv.skip(k as int),
            kept.deep_view() =~= tv.take(k as int).filter(pred),
            pred == (|t: TableV| t.name != name@),
        decreases n - k,
    {
        let ghost prev = kept.deep_view();
        let ghost pre = rest@;
        proof {
            assert(rest.deep_view().len() == tv.skip(k as int).len());
            assert(rest@.len() == rest.deep_view().len());
        }
        let t = rest.remove(0);
        proof {
            assert(t@ == pre[0].deep_view());
            assert(pre[0].deep_view() == tv.skip(k as int)[0]);
            assert(t@ == tv[k as int]);
            assert forall|j: int| 0 <= j < rest.deep_view().len() implies rest.deep_view()[j]
                == tv.skip(k + 1)[j] by {
                assert(rest@[j] == pre[j + 1]);
                assert(rest.deep_view()[j] == rest@[j].deep_view());
                assert(tv.skip(k as int)[j + 1] == pre[j + 1].deep_view());
            }
            assert(rest.deep_view() =~= tv.skip(k + 1));
        }
        let keep = !t.has_name(name);
        if keep {
            kept.push(t);
        }
        proof {
            reveal(Seq::filter);
            let cur = tv.take(k + 1);
            assert(cur.drop_last() =~= tv.take(k as int));
            assert(cur.last() == tv[k as int]);
            if pred(tv[k as int]) {
                assert(kept.deep_view() =~= prev.push(tv[k as int]));
            } else {
                assert(kept.deep_view() =~= prev);
            }
        }
        k = k + 1;
    }
    proof {
        assert(tv.take(n as int) =~= tv);
    }
    kept
}

impl TablesPerRegion {
    /// Remove every table named `table_name`, in every region.
    fn remove(&mut self, table_name: &str)
        ensures
            final(self)@ =~~= spec_remove_tables(old(self)@, table_name@),
    {
        let ghost rv = old(self)@.tables;
        let ghost target = spec_remove_tables(old(self)@, table_name@);
        let n = self.tables.len();
        let mut out: Vec<RegionTables> = Vec::new();
        let mut k: usize = 0;
        while k < n
            invariant
                k <= n,
                n == rv.len(),
                self.tables.deep_view() =~= rv.skip(k as int),
                out.deep_view() =~= target.tables.take(k as int),
                target == spec_remove_tables(TablesPerRegionV { tables: rv }, table_name@),
            decreases n - k,
        {
            let ghost pre = self.tables@;
            proof {
                assert(self.tables.deep_view().len() == rv.skip(k as int).len());
                assert(self.tables@.len() == self.tables.deep_view().len());
            }
            let re = self.tables.remove(0);
            proof {
                assert(re@ == pre[0].deep_view());
                assert(pre[0].deep_view() == rv.skip(k as int)[0]);
                assert(re@ == rv[k as int]);
                assert forall|j: int| 0 <= j < self.tables.deep_view().len() implies self
                    .tables.deep_view()[j] == rv.skip(k + 1)[j] by {
                    assert(self.tables@[j] == pre[j + 1]);
                    assert(self.tables.deep_view()[j] == self.tables@[j].deep_view());
                    assert(rv.skip(k as int)[j + 1] == pre[j + 1].deep_view());
                }
                assert(self.tables.deep_view() =~= rv.skip(k + 1));
            }
            let ghost rev = re@;
            let ghost outprev = out.deep_view();
            let region = re.region;
            let kept = filter_tables(re.tables, table_name);
            let ghost keptv = kept.deep_view();
            out.push(RegionTables { region, tables: kept });
            proof {
                assert(keptv =~= tables_not_named(rev.tables, table_name@));
                assert(out.deep_view() =~= outprev.push(
                    RegionTablesV { region: rev.region, tables: keptv },
                ));
                assert(target.tables[k as int] == RegionTablesV {
                    region: rev.region,
                    tables: tables_not_named(rev.tables, table_name@),
                });
                assert(out.deep_view() =~= target.tables.take(k + 1));
            }
            k = k + 1;
        }
        self.tables = out;
        proof {
            assert(target.tables.take(n as int) =~= target.tables);
            assert(self@ =~~= target);
        }
    }
}

/// Every table of a filtered list is a table of the original list.
proof fn lemma_filter_elems(ts: Seq<TableV>, name: Seq<char>)
    ensures
        forall|i: int|
            0 <= i < tables_not_named(ts, name).len() ==> ts.contains(
                #[trigger] tables_not_named(ts, name)[i],
            ),
    decreases ts.len(),
{
    reveal(Seq::filter);
    if ts.len() > 0 {
        lemma_filter_elems(ts.drop_last(), name);
        let f = tables_not_named(ts, name);
        let fd = tables_not_named(ts.drop_last(), name);
        assert forall|i: int| 0 <= i < f.len() implies ts.contains(#[trigger] f[i]) by {
            if i < fd.len() {
                assert(fd[i] == f[i]);
                let j = choose|j: int| 0 <= j < ts.drop_last().len() && ts.drop_last()[j] == fd[i];
                assert(ts[j] == fd[i]);
            } else {
                assert(f[i] == ts.last());
            }
        }
    }
}

/// Removing tables by name keeps the manager well-formed.
proof fn lemma_delete_preserves_wf(m: ManagerV, name: Seq<char>)
    requires
        manager_wf(m),
    ensures
        manager_wf(spec_delete_table(m, name)),
{
    let m2 = spec_delete_table(m, name);
    assert forall|a: int, r: int, t: int|
        0 <= a < m2.per_account.len() && 0 <= r < m2.per_account[a].tables.tables.len() && 0 <= t
            < m2.per_account[a].tables.tables[r].tables.len() implies table_wf(
        #[trigger] m2.per_account[a].tables.tables[r].tables[t],
    ) by {
        let ts = m.per_account[a].tables.tables[r].tables;
        lemma_filter_elems(ts, name);
        assert(m2.per_account[a].tables.tables[r].tables == tables_not_named(ts, name));
        let elem = m2.per_account[a].tables.tables[r].tables[t];
        assert(ts.contains(elem));
        let j = choose|j: int| 0 <= j < ts.len() && ts[j] == elem;
        assert(table_wf(ts[j]));
    }
}

impl Default for TableManager {
    fn default() -> (r: Self)
        ensures
            r@.per_account =~= Seq::<AccountTablesV>::empty(),
            manager_wf(r@),
    {
        TableManager { per_account: Vec::new() }
    }
}

/// Index of the first table named `name` in a table list.
fn find_table_idx(ts: &Vec<Table>, name: &str) -> (r: Option<usize>)
    ensures
        match r {
            Some(i) => i < ts@.len() && find_table_idx_from(ts.deep_view(), 0, name@) == Some(
                i as int,
            ),
            None => find_table_idx_from(ts.deep_view(), 0, name@) is None,
        },
{
    let ghost tv = ts.deep_view();
    let n = ts.len();
    let mut i: usize = 0;
    while i < n
        invariant
            i <= n,
            n == tv.len(),
            tv =~= ts.deep_view(),
            find_table_idx_from(tv, 0, name@) == find_table_idx_from(tv, i as int, name@),
        decreases n - i,
    {
        assert(tv[i as int] == ts@[i as int]@);
        if ts[i].has_name(name) {
            return Some(i);
        }
        i = i + 1;
    }
    None
}

/// Position of the first table named `name` within one account.
fn find_in_account(rs: &Vec<RegionTables>, name: &str) -> (r: Option<(usize, usize)>)
    ensures
        match r {
            Some((ri, ti)) => ri < rs@.len() && ti < rs@[ri as int].tables@.len()
                && find_in_regions_from(rs.deep_view(), 0, name@) == Some(
                (ri as int, ti as int),
            ),
            None => find_in_regions_from(rs.deep_view(), 0, name@) is None,
        },
{
    let ghost rv = rs.deep_view();
    let n = rs.len();
    let mut r: usize = 0;
    while r < n
        invariant
            r <= n,
            n == rv.len(),
            rv =~= rs.deep_view(),
            find_in_regions_from(rv, 0, name@) == find_in_regions_from(rv, r as int, name@),
        decreases n - r,
    {
        assert(rv[r as int] == rs@[r as int]@);
        match find_table_idx(&rs[r].tables, name) {
            Some(t) => {
                assert(find_in_regions_from(rv, r as int, name@) == Some((r as int, t as int)));
                return Some((r, t));
            },
            None => {
                assert(find_in_regions_from(rv, r as int, name@) == find_in_regions_from(
                    rv,
                    r + 1,
                    name@,
                ));
            },
        }
        r = r + 1;
    }
    None
}

/// Index of the first account named `account`.
fn find_account_idx(accs: &Vec<AccountTables>, account: &str) -> (r: Option<usize>)
    ensures
        match r {
            Some(i) => i < accs@.len() && find_account_from(accs.deep_view(), 0, account@)
                == Some(i as int),
            None => find_account_from(accs.deep_view(), 0, account@) is None && (forall|j: int|
                0 <= j < accs.deep_view().len() ==> (#[trigger] accs.deep_view()[j].account)
                    != account@),
        },
{
    let ghost av = accs.deep_view();
    let n = accs.len();
    let mut i: usize = 0;
    while i < n
        invariant
            i <= n,
            n == av.len(),
            av =~= accs.deep_view(),
            find_account_from(av, 0, account@) == find_account_from(av, i as int, account@),
            forall|j: int| 0 <= j < i ==> (#[trigger] av[j].account) != account@,
        decreases n - i,
    {
        assert(av[i as int] == accs@[i as int]@);
        if crate::strutil::str_eq(accs[i].account.as_str(), account) {
            return Some(i);
        }
        i = i + 1;
    }
    None
}

/// Index of the first entry for `region` in one account.
fn find_region_idx(rs: &Vec<RegionTables>, region: Region) -> (r: Option<usize>)
    ensures
        match r {
            Some(i) => i < rs@.len() && find_region_from(rs.deep_view(), 0, region) == Some(
                i as int,
            ),
            None => find_region_from(rs.deep_view(), 0, region) is None && (forall|j: int|
                0 <= j < rs.deep_view().len() ==> (#[trigger] rs.deep_view()[j].region)
                    != region),
        },
{
    let ghost rv = rs.deep_view();
    let n = rs.len();
    let mut i: usize = 0;
    while i < n
        invariant
            i <= n,
            n == rv.len(),
            rv =~= rs.deep_view(),
            find_region_from(rv, 0, region) == find_region_from(rv, i as int, region),
            forall|j: int| 0 <= j < i ==> (#[trigger] rv[j].region) != region,
        decreases n - i,
    {
        assert(rv[i as int] == rs@[i as int]@);
        if rs[i].region == region {
            return Some(i);
        }
        i = i + 1;
    }
    None
}

impl TableManager {
    /// Position of the first table named `name`, if any.
    fn find_table_path(&self, name: &str) -> (r: Option<(usize, usize, usize)>)
        ensures
            match r {
                Some((a, ri, ti)) => spec_find_path(self@, name@) == Some(
                    (a as int, ri as int, ti as int),
                ) && path_in_range(self@, (a as int, ri as int, ti as int)),
                None => spec_find_path(self@, name@) is None,
            },
    {
        let ghost av = self@.per_account;
        let n = self.per_account.len();
        let mut a: usize = 0;
        while a < n
            invariant
                a <= n,
                n == av.len(),
                av =~= self@.per_account,
                find_in_accounts_from(av, 0, name@) == find_in_accounts_from(av, a as int, name@),
            decreases n - a,
        {
            assert(av[a as int] == self.per_account@[a as int]@);
            match find_in_account(&self.per_account[a].tables.tables, name) {
                Some((ri, ti)) => {
                    assert(find_in_accounts_from(av, a as int, name@) == Some(
                        (a as int, ri as int, ti as int),
                    ));
                    return Some((a, ri, ti));
                },
                None => {
                    assert(find_in_accounts_from(av, a as int, name@) == find_in_accounts_from(
                        av,
                        a + 1,
                        name@,
                    ));
                },
            }
            a = a + 1;
        }
        None
    }

    /// The first table named `table_name`, if any.
    pub fn get_table(&self, table_name: &str) -> (r: Option<&Table>)
        ensures
            match r {
                Some(t) => spec_get_table(self@, table_name@) == Some(t@),
                None => spec_get_table(self@, table_name@) is None,
            },
    {
        match self.find_table_path(table_name) {
            Some((a, ri, ti)) => {
                let t = &self.per_account[a].tables.tables[ri].tables[ti];
                proof {
                    assert(self@.per_account[a as int] == self.per_account@[a as int]@);
                    assert(self@.per_account[a as int].tables.tables[ri as int]
                        == self.per_account@[a as int].tables.tables@[ri as int]@);
                    assert(table_at(self@, (a as int, ri as int, ti as int)) == t@);
                }
                Some(t)
            },
            None => None,
        }
    }

    /// The first table named `table_name`, for writing. The new value the
    /// caller leaves in the table is what the manager then holds at that
    /// table's position.
    pub fn get_table_mut(&mut self, table_name: &str) -> (r: Option<&mut Table>)
        ensures
            match r {
                Some(t) => spec_find_path(old(self)@, table_name@) matches Some(p) && (*t)@
                    == table_at(old(self)@, p) && final(self)@ =~~= manager_update_at(
                    old(self)@,
                    p,
                    (*final(t))@,
                ),
                None => spec_find_path(old(self)@, table_name@) is None && final(self)@ == old(
                    self,
                )@,
            },
    {
        match self.find_table_path(table_name) {
            Some((a, ri, ti)) => {
                proof {
                    assert(old(self)@.per_account[a as int] == old(self).per_account@[a as int]@);
                    assert(old(self)@.per_account[a as int].tables.tables[ri as int] == old(
                        self,
                    ).per_account@[a as int].tables.tables@[ri as int]@);
                }
                let t = &mut self.per_account[a].tables.tables[ri].tables[ti];
                Some(t)
            },
            None => None,
        }
    }

    /// Create a table under `account` and `region` from a creation
    /// request, and return a handle to it.
    pub fn new_table(&mut self, account: &str, region: Region, input: CreateTableInput) -> (r:
        Result<Table, TableError>)
        requires
            manager_wf(old(self)@),
        ensures
            manager_wf(final(self)@),
            match r {
                Ok(t) => spec_valid_key_schema(input.key_schema.deep_view()) && t@.name
                    == input.table_name@ && t@.partition_key == spec_schema_partition_key(
                    input.key_schema.deep_view(),
                ) && t@.sort_key == spec_schema_sort_key(input.key_schema.deep_view())
                    && t@.attribute_definitions == input.attribute_definitions.deep_view()
                    && t@.arn == spec_arn(region, account@, input.table_name@) && t@.partitions
                    =~= Seq::<crate::table::PartitionV>::empty() && t@.provisioned_throughput
                    == crate::types::spec_default_throughput() && table_wf(t@) && final(self)@
                    == spec_add_table(old(self)@, account@, region, t@),
                Err(e) => !spec_valid_key_schema(input.key_schema.deep_view()) && (e
                    matches TableError::InvalidKeySchema) && final(self)@ == old(self)@,
            },
    {
        let opts = match TableOptions::from_input(input) {
            Ok(o) => o,
            Err(e) => {
                return Err(e);
            },
        };
        let table = Table::new(region, account, opts);
        let handle = table.clone();
        match find_account_idx(&self.per_account, account) {
            Some(ai) => {
                let ghost oldm = self@;
                let mut acct = self.per_account.remove(ai);
                proof {
                    assert(acct@ == oldm.per_account[ai as int]);
                }
                match find_region_idx(&acct.tables.tables, region) {
                    Some(ri) => {
                        let mut re = acct.tables.tables.remove(ri);
                        re.tables.push(table);
                        acct.tables.tables.insert(ri, re);
                        self.per_account.insert(ai, acct);
                        proof {
                            assert(final(self)@ =~~= spec_add_table(
                                oldm,
                                account@,
                                region,
                                handle@,
                            ));
                        }
                    },
                    None => {
                        let mut ts: Vec<Table> = Vec::new();
                        ts.push(table);
                        acct.tables.tables.push(RegionTables { region, tables: ts });
                        self.per_account.insert(ai, acct);
                        proof {
                            assert(final(self)@ =~~= spec_add_table(
                                oldm,
                                account@,
                                region,
                                handle@,
                            ));
                        }
                    },
                }
            },
            None => {
                let mut ts: Vec<Table> = Vec::new();
                ts.push(table);
                let mut rts: Vec<RegionTables> = Vec::new();
                rts.push(RegionTables { region, tables: ts });
                self.per_account.push(
                    AccountTables {
                        account: account.to_owned(),
                        tables: TablesPerRegion { tables: rts },
                    },
                );
                proof {
                    assert(final(self)@ =~~= spec_add_table(old(self)@, account@, region, handle@));
                }
            },
        }
        proof {
            assert(manager_wf(self@));
        }
        Ok(handle)
    }

    /// The names of all tables, in the manager's iteration order.
    pub fn table_names(&self) -> (r: Vec<String>)
        ensures
            r.deep_view() == spec_table_names(self@),
    {
        let ghost av = self@.per_account;
        let n = self.per_account.len();
        let mut out: Vec<String> = Vec::new();
        let mut a: usize = 0;
        proof {
            assert(out.deep_view() + names_in_accounts_from(av, 0) =~= names_in_accounts_from(
                av,
                0,
            ));
        }
        while a < n
            invariant
                a <= n,
                n == av.len(),
                av =~= self@.per_account,
                out.deep_view() + names_in_accounts_from(av, a as int) =~= names_in_accounts_from(
                    av,
                    0,
                ),
            decreases n - a,
        {
            let ghost prev = out.deep_view();
            assert(av[a as int] == self.per_account@[a as int]@);
            push_region_names(&self.per_account[a].tables.tables, &mut out);
            proof {
                assert(out.deep_view() + names_in_accounts_from(av, a + 1) =~= prev
                    + names_in_accounts_from(av, a as int));
            }
            a = a + 1;
        }
        proof {
            assert(names_in_accounts_from(av, n as int) =~= Seq::<Seq<char>>::empty());
            assert(out.deep_view() =~= out.deep_view() + names_in_accounts_from(av, n as int));
        }
        out
    }

    /// Put `item` into the first table named `table_name`.
    pub fn insert_item(&mut self, table_name: &str, item: Item) -> (r: Result<(), PutItemError>)
        requires
            manager_wf(old(self)@),
        ensures
            manager_wf(final(self)@),
            ({
                let (m2, oc) = spec_manager_put(old(self)@, table_name@, item@);
                (final(self)@ =~~= m2) && match oc {
                    PutOutcomeV::Applied => r is Ok,
                    PutOutcomeV::NoTable => r matches Err(PutItemError::NoSuchTable),
                    PutOutcomeV::Rejected(e) => r matches Err(PutItemError::Rejected(te))
                        && match e {
                        crate::table::InsertErrV::MissingKey => te
                            matches TableError::MissingPartitionKey,
                        crate::table::InsertErrV::NotString => te
                            matches TableError::UnsupportedKeyType,
                    },
                }
            }),
    {
        let (a, ri, ti) = match self.find_table_path(table_name) {
            Some(p) => p,
            None => {
                return Err(PutItemError::NoSuchTable);
            },
        };
        let ghost oldm = self@;
        proof {
            assert(oldm.per_account[a as int] == self.per_account@[a as int]@);
            assert(oldm.per_account[a as int].tables.tables[ri as int] == self.per_account@[
                a as int
            ].tables.tables@[ri as int]@);
            assert(table_at(oldm, (a as int, ri as int, ti as int)) == self.per_account@[
                a as int
            ].tables.tables@[ri as int].tables@[ti as int]@);
        }
        let mut acct = self.per_account.remove(a);
        let mut re = acct.tables.tables.remove(ri);
        let mut tb = re.tables.remove(ti);
        proof {
            assert(tb@ == table_at(oldm, (a as int, ri as int, ti as int)));
            assert(table_wf(tb@));
        }
        let out = match tb.insert(item) {
            Ok(()) => Ok(()),
            Err(e) => Err(PutItemError::Rejected(e)),
        };
        let ghost tbv = tb@;
        re.tables.insert(ti, tb);
        acct.tables.tables.insert(ri, re);
        self.per_account.insert(a, acct);
        proof {
            assert(self@ =~~= manager_update_at(oldm, (a as int, ri as int, ti as int), tbv));
            if spec_table_insert(table_at(oldm, (a as int, ri as int, ti as int)), item@) is Err {
                assert(self@ =~~= oldm);
            }
            assert(manager_wf(self@));
        }
        out
    }

    /// Remove every table named `table_name`, in every account and region.
    pub fn delete_table(&mut self, table_name: &str) -> (r: Result<(), TableError>)
        requires
            manager_wf(old(self)@),
        ensures
            manager_wf(final(self)@),
            r is Ok,
            final(self)@ =~~= spec_delete_table(old(self)@, table_name@),
    {
        let ghost av = old(self)@.per_account;
        let ghost target = spec_delete_table(old(self)@, table_name@);
        let n = self.per_account.len();
        let mut out: Vec<AccountTables> = Vec::new();
        let mut k: usize = 0;
        while k < n
            invariant
                k <= n,
                n == av.len(),
                self.per_account.deep_view() =~= av.skip(k as int),
                out.deep_view() =~= target.per_account.take(k as int),
                target == spec_delete_table(ManagerV { per_account: av }, table_name@),
            decreases n - k,
        {
            let ghost pre = self.per_account@;
            proof {
                assert(self.per_account.deep_view().len() == av.skip(k as int).len());
                assert(self.per_account@.len() == self.per_account.deep_view().len());
            }
            let mut acct = self.per_account.remove(0);
            proof {
                assert(acct@ == pre[0].deep_view());
                assert(pre[0].deep_view() == av.skip(k as int)[0]);
                assert(acct@ == av[k as int]);
                assert forall|j: int| 0 <= j < self.per_account.deep_view().len() implies self
                    .per_account.deep_view()[j] == av.skip(k + 1)[j] by {
                    assert(self.per_account@[j] == pre[j + 1]);
                    assert(self.per_account.deep_view()[j] == self.per_account@[j].deep_view());
                    assert(av.skip(k as int)[j + 1] == pre[j + 1].deep_view());
                }
                assert(self.per_account.deep_view() =~= av.skip(k + 1));
            }
            let ghost acctv_pre = acct@;
            acct.tables.remove(table_name);
            let ghost outprev = out.deep_view();
            let ghost acctv = acct@;
            out.push(acct);
            proof {
                assert(acctv.tables =~~= spec_remove_tables(acctv_pre.tables, table_name@));
                assert(out.deep_view() =~= outprev.push(acctv));
                assert(target.per_account[k as int] == AccountTablesV {
                    account: acctv_pre.account,
                    tables: spec_remove_tables(acctv_pre.tables, table_name@),
                });
                assert(out.deep_view() =~~= target.per_account.take(k + 1));
                assert(out.deep_view() =~= target.per_account.take(k + 1));
            }
            k = k + 1;
        }
        self.per_account = out;
        proof {
            assert(target.per_account.take(n as int) =~= target.per_account);
            assert(self@ =~~= target);
            lemma_delete_preserves_wf(old(self)@, table_name@);
        }
        Ok(())
    }

    /// Write a batch of put requests, grouped by table name, and return
    /// the requests that were not applied, grouped the same way.
    pub fn batch_write_item(&mut self, input: BatchWriteInput) -> (r: Vec<
        (String, Vec<BatchPutRequest>),
    >)
        requires
            manager_wf(old(self)@),
        ensures
            manager_wf(final(self)@),
            ({
                let (m2, un) = spec_batch_write_from(old(self)@, input.request_items.deep_view(), 0);
                (final(self)@ =~~= m2) && r.deep_view() =~= un
            }),
    {
        let ghost groups = input.request_items.deep_view();
        let ng = input.request_items.len();
        let mut unprocessed: Vec<(String, Vec<BatchPutRequest>)> = Vec::new();
        let mut g: usize = 0;
        while g < ng
            invariant
                g <= ng,
                ng == groups.len(),
                groups =~= input.request_items.deep_view(),
                manager_wf(self@),
                ({
                    let (m2, un) = spec_batch_write_from(old(self)@, groups, 0);
                    let (m2b, unb) = spec_batch_write_from(self@, groups, g as int);
                    (m2 =~~= m2b) && un =~= unprocessed.deep_view() + unb
                }),
            decreases ng - g,
        {
            let ghost mg = self@;
            let ghost gacc_prev = unprocessed.deep_view();
            let name = &input.request_items[g].0;
            let reqs = &input.request_items[g].1;
            proof {
                assert(groups[g as int] == (name@, reqs.deep_view()));
            }
            let ghost items = reqs.deep_view();
            let nr = reqs.len();
            let mut group_un: Vec<BatchPutRequest> = Vec::new();
            let mut j: usize = 0;
            while j < nr
                invariant
                    j <= nr,
                    nr == items.len(),
                    items =~= reqs.deep_view(),
                    manager_wf(self@),
                    ({
                        let (m2, un) = spec_batch_group_from(mg, name@, items, 0);
                        let (m2b, unb) = spec_batch_group_from(self@, name@, items, j as int);
                        (m2 =~~= m2b) && un =~= group_un.deep_view() + unb
                    }),
                decreases nr - j,
            {
                let ghost mj = self@;
                let ghost gun_prev = group_un.deep_view();
                proof {
                    assert(items[j as int] == reqs@[j as int].deep_view());
                }
                let item = reqs[j].put_request.item.clone();
                let res = self.insert_item(name.as_str(), item);
                match res {
                    Ok(()) => {},
                    Err(_) => {
                        group_un.push(reqs[j].clone());
                    },
                }
                proof {
                    let (m1, oc) = spec_manager_put(mj, name@, items[j as int]);
                    assert(self@ =~~= m1);
                    let (m2b, unb) = spec_batch_group_from(self@, name@, items, j + 1);
                    let (m2c, unc) = spec_batch_group_from(mj, name@, items, j as int);
                    assert(m2c =~~= m2b);
                    if oc is Applied {
                        assert(group_un.deep_view() + unb =~= gun_prev + unc);
                    } else {
                        assert(group_un.deep_view() =~= gun_prev.push(items[j as int]));
                        assert(gun_prev + (seq![items[j as int]] + unb) =~= group_un.deep_view()
                            + unb);
                        assert(unc =~= seq![items[j as int]] + unb);
                    }
                }
                j = j + 1;
            }
            if group_un.len() > 0 {
                let entry = (name.clone(), group_un);
                unprocessed.push(entry);
            }
            proof {
                assert(items.skip(0) =~= items);
                let (m1, un1) = spec_batch_group_from(mg, name@, items, 0);
                assert(self@ =~~= m1);
                let (m2b, unb) = spec_batch_write_from(self@, groups, g + 1);
                let (m2c, unc) = spec_batch_write_from(mg, groups, g as int);
                assert(m2c =~~= m2b);
                if un1.len() == 0 {
                    assert(unprocessed.deep_view() =~= gacc_prev);
                    assert(unc =~= unb);
                } else {
                    assert(unprocessed.deep_view() =~= gacc_prev.push((name@, un1)));
                    assert(unc =~= seq![(name@, un1)] + unb);
                    assert(gacc_prev + (seq![(name@, un1)] + unb) =~= unprocessed.deep_view()
                        + unb);
                }
            }
            g = g + 1;
        }
        proof {
            let (m2, un) = spec_batch_write_from(self@, groups, ng as int);
            assert(un =~= Seq::<(Seq<char>, Seq<ItemV>)>::empty());
            assert(unprocessed.deep_view() + un =~= unprocessed.deep_view());
        }
        unprocessed
    }

    /// The number of (account, region) entries, clamped at the machine's
    /// limit.
    pub fn len(&self) -> (r: usize)
        ensures
            r == if region_entry_count(self@.per_account) <= usize::MAX {
                region_entry_count(self@.per_account)
            } else {
                usize::MAX as int
            },
    {
        let ghost av = self@.per_account;
        let n = self.per_account.len();
        let mut total: usize = 0;
        let mut i: usize = 0;
        proof {
            assert(av.take(0) =~= Seq::<AccountTablesV>::empty());
        }
        while i < n
            invariant
                i <= n,
                n == av.len(),
                av =~= self@.per_account,
                total == if region_entry_count(av.take(i as int)) <= usize::MAX {
                    region_entry_count(av.take(i as int))
                } else {
                    usize::MAX as int
                },
            decreases n - i,
        {
            assert(av[i as int] == self.per_account@[i as int]@);
            let c = self.per_account[i].tables.tables.len();
            total = match total.checked_add(c) {
                Some(t) => t,
                None => usize::MAX,
            };
            proof {
                let cur = av.take(i + 1);
                assert(cur.drop_last() =~= av.take(i as int));
                assert(cur.last() == av[i as int]);
            }
            i = i + 1;
        }
        proof {
            assert(av.take(n as int) =~= av);
        }
        total
    }
}

} // verus!
