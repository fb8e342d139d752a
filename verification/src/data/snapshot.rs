//! One inventory fetch, shared by every sheet derived from it.
//!
//! A snapshot is fetched once per vCenter, with the union of the requested
//! sheets' property sets, and each sheet is a function over it: a sheet that
//! does no I/O can be checked against captured XML with no live vCenter.

use vstd::prelude::*;
use super::{columns_view, row_view, rows_view, Cell, CellValue, Column, ColumnKind, Table, TableView, VI_SDK_SERVER};
use super::common::{tally, tally_fits};
use super::vdisk::{disk_rows_of, tagged_rows};
use super::vhealth::health_rows;
use super::vhost::{host_rows_fit, host_rows_of};
use super::vinfo::{vm_row_fits, vm_rows_of};
use super::vsnapshot::snapshot_rows_of;
use crate::text::{str_eq, strings_view};
use crate::vcenter::soap::{str_prop_of, ManagedObject, MoView};

verus! {

/// What one vCenter returned for a fetch.
pub struct InventorySnapshot {
    /// The `VI SDK Server` value for rows built from this snapshot.
    pub server: String,
    pub vms: Vec<ManagedObject>,
    pub hosts: Vec<ManagedObject>,
    /// `HostSystem` moref and host name, for resolving `runtime.host`.
    /// Derived from `hosts`; for a moref listed twice the later name counts.
    pub host_names: Vec<(String, String)>,
}

pub open spec fn names_view(v: Seq<(String, String)>) -> Seq<(Seq<char>, Seq<char>)> {
    v.map_values(|p: (String, String)| (p.0@, p.1@))
}

/// The name recorded last for `moref`.
pub open spec fn name_lookup(names: Seq<(Seq<char>, Seq<char>)>, moref: Seq<char>) -> Option<Seq<char>>
    decreases names.len(),
{
    if names.len() == 0 {
        None
    } else if names.last().0 == moref {
        Some(names.last().1)
    } else {
        name_lookup(names.drop_last(), moref)
    }
}

/// Each named host's moref and name, in order.
pub open spec fn host_names_of(hosts: Seq<MoView>) -> Seq<(Seq<char>, Seq<char>)>
    decreases hosts.len(),
{
    if hosts.len() == 0 {
        Seq::empty()
    } else {
        match str_prop_of(hosts.last(), "name"@) {
            Some(n) => host_names_of(hosts.drop_last()).push((hosts.last().moref, n)),
            None => host_names_of(hosts.drop_last()),
        }
    }
}

pub open spec fn mos_view(v: Seq<ManagedObject>) -> Seq<MoView> {
    v.map_values(|m: ManagedObject| m@)
}

/// The moref and name of every host that reported a name.
pub fn host_names(hosts: &Vec<ManagedObject>) -> (r: Vec<(String, String)>)
    ensures
        names_view(r@) == host_names_of(mos_view(hosts@)),
{
    let ghost hv = mos_view(hosts@);
    let mut out: Vec<(String, String)> = Vec::new();
    let mut i: usize = 0;
    while i < hosts.len()
        invariant
            i <= hosts@.len(),
            hv == mos_view(hosts@),
            names_view(out@) =~= host_names_of(hv.take(i as int)),
        decreases hosts.len() - i,
    {
        proof {
            assert(hv.take(i + 1).drop_last() =~= hv.take(i as int));
            assert(hv.take(i + 1).last() == hosts@[i as int]@);
        }
        match hosts[i].str_prop("name") {
            Some(n) => {
                let ghost before = out@;
                let m = hosts[i].moref.clone();
                out.push((m, n));
                proof { assert(names_view(out@) =~= names_view(before).push((m@, n@))); }
            },
            None => {},
        }
        i += 1;
    }
    proof { assert(hv.take(hv.len() as int) =~= hv); }
    out
}

impl InventorySnapshot {
    /// A snapshot assembled by hand, for checks that have captured XML but
    /// no vCenter to fetch from.
    pub fn from_parts(vms: Vec<ManagedObject>, hosts: Vec<ManagedObject>) -> (s: Self)
        ensures
            s.server@ == "test"@,
            mos_view(s.vms@) == mos_view(vms@),
            mos_view(s.hosts@) == mos_view(hosts@),
            names_view(s.host_names@) == host_names_of(mos_view(hosts@)),
    {
        let host_names = host_names(&hosts);
        InventorySnapshot { server: String::from_str("test"), vms, hosts, host_names }
    }

    /// The name of the host with this moref.
    pub fn host_name(&self, moref: &str) -> (r: Option<String>)
        ensures
            match r {
                Some(n) => name_lookup(names_view(self.host_names@), moref@) == Some(n@),
                None => name_lookup(names_view(self.host_names@), moref@).is_none(),
            },
    {
        lookup_name(&self.host_names, moref)
    }
}

/// The name recorded last for `moref` in `names`.
pub fn lookup_name(names: &Vec<(String, String)>, moref: &str) -> (r: Option<String>)
    ensures
        match r {
            Some(n) => name_lookup(names_view(names@), moref@) == Some(n@),
            None => name_lookup(names_view(names@), moref@).is_none(),
        },
{
    let ghost nv = names_view(names@);
    let mut i: usize = names.len();
    proof { assert(nv.take(nv.len() as int) =~= nv); }
    while i > 0
        invariant
            i <= names@.len(),
            nv == names_view(names@),
            name_lookup(nv, moref@) == name_lookup(nv.take(i as int), moref@),
        decreases i,
    {
        proof {
            assert(nv.take(i as int).drop_last() =~= nv.take(i - 1));
            assert(nv.take(i as int).last() == (names@[i - 1].0@, names@[i - 1].1@));
        }
        if str_eq(names[i - 1].0.as_str(), moref) {
            return Some(names[i - 1].1.clone());
        }
        i -= 1;
    }
    None
}

pub open spec fn strs_view(v: Seq<&str>) -> Seq<Seq<char>> {
    v.map_values(|s: &str| s@)
}

pub open spec fn sets_view(v: Seq<&[&str]>) -> Seq<Seq<Seq<char>>> {
    v.map_values(|s: &[&str]| strs_view(s@))
}

/// `s` with each value kept at its first appearance only.
pub open spec fn dedup(s: Seq<Seq<char>>) -> Seq<Seq<char>>
    decreases s.len(),
{
    if s.len() == 0 {
        Seq::empty()
    } else if dedup(s.drop_last()).contains(s.last()) {
        dedup(s.drop_last())
    } else {
        dedup(s.drop_last()).push(s.last())
    }
}

/// Every property of every set, each once, in the order first seen.
pub open spec fn union_of(sets: Seq<Seq<Seq<char>>>) -> Seq<Seq<char>> {
    dedup(sets.flatten())
}

fn contains_str(v: &Vec<&'static str>, x: &str) -> (r: bool)
    ensures
        r == strs_view(v@).contains(x@),
{
    let mut i: usize = 0;
    while i < v.len()
        invariant
            i <= v@.len(),
            forall|j: int| 0 <= j < i ==> v@[j]@ != x@,
        decreases v.len() - i,
    {
        if str_eq(v[i], x) {
            proof { assert(strs_view(v@)[i as int] == x@); }
            return true;
        }
        i += 1;
    }
    proof {
        if strs_view(v@).contains(x@) {
            let k = choose|k: int| 0 <= k < strs_view(v@).len() && strs_view(v@)[k] == x@;
            assert(v@[k]@ == x@);
        }
    }
    false
}

/// Merge property sets, preserving first-seen order and dropping duplicates.
///
/// Order is kept because vCenter echoes `propSet` back in request order, and
/// a stable request makes captured XML comparable between runs.
pub fn union(sets: &[&[&'static str]]) -> (r: Vec<&'static str>)
    ensures
        strs_view(r@) == union_of(sets_view(sets@)),
{
    let ghost sv = sets_view(sets@);
    let mut out: Vec<&'static str> = Vec::new();
    let mut i: usize = 0;
    proof { assert(sv.take(0).flatten() =~= Seq::<Seq<char>>::empty()); }
    while i < sets.len()
        invariant
            i <= sets@.len(),
            sv == sets_view(sets@),
            strs_view(out@) =~= dedup(sv.take(i as int).flatten()),
        decreases sets.len() - i,
    {
        let set = sets[i];
        let ghost flat_before = sv.take(i as int).flatten();
        let mut j: usize = 0;
        proof { assert(flat_before + strs_view(set@).take(0) =~= flat_before); }
        while j < set.len()
            invariant
                j <= set@.len(),
                set@ == sets@[i as int]@,
                strs_view(out@) =~= dedup(flat_before + strs_view(set@).take(j as int)),
            decreases set.len() - j,
        {
            let prop = set[j];
            let ghost ext = flat_before + strs_view(set@).take(j + 1);
            proof {
                assert(ext.drop_last() =~= flat_before + strs_view(set@).take(j as int));
                assert(ext.last() == prop@);
            }
            if !contains_str(&out, prop) {
                let ghost before = out@;
                out.push(prop);
                proof { assert(strs_view(out@) =~= strs_view(before).push(prop@)); }
            }
            j += 1;
        }
        proof {
            assert(strs_view(set@).take(set@.len() as int) =~= strs_view(set@));
            assert(sv.take(i + 1) =~= sv.take(i as int).push(strs_view(set@)));
            sv.take(i as int).lemma_flatten_push(strs_view(set@));
        }
        i += 1;
    }
    proof { assert(sv.take(sv.len() as int) =~= sv); }
    out
}

/// The sheets a snapshot can be turned into.
#[derive(Debug, Clone, Copy, PartialEq, Eq, Structural)]
pub enum SheetKind {
    Info,
    Host,
    Disk,
    Snapshot,
    Health,
}

/// Everything the application needs to know about one sheet to fetch for
/// it: its RVTools name, which sheet it is, and the property sets it reads.
/// Sets rather than one flat list, so a sheet composes shared groups instead
/// of copying them.
pub struct SheetSpec {
    pub name: &'static str,
    pub kind: SheetKind,
    /// `VirtualMachine` property sets, unioned at fetch time.
    pub vm_props: Vec<Vec<&'static str>>,
    /// `HostSystem` property sets.
    pub host_props: Vec<Vec<&'static str>>,
    /// Whether the sheet walks datastore filesystems, which can take many
    /// minutes and is left out of an export unless asked for.
    pub wants_files: bool,
}

/// The registered sheets' names, in tab order.
pub open spec fn sheet_names() -> Seq<Seq<char>> {
    seq!["vInfo"@, "vHost"@, "vDisk"@, "vSnapshot"@, "vHealth"@]
}

/// The registered sheets' kinds, in tab order.
pub open spec fn sheet_kinds() -> Seq<SheetKind> {
    seq![SheetKind::Info, SheetKind::Host, SheetKind::Disk, SheetKind::Snapshot, SheetKind::Health]
}

/// Every sheet built from a snapshot, in tab order. None of them walks
/// datastore filesystems.
pub fn sheets() -> (r: Vec<SheetSpec>)
    ensures
        r@.len() == 5,
        forall|i: int| 0 <= i < 5 ==> (#[trigger] r@[i]).name@ == sheet_names()[i],
        forall|i: int| 0 <= i < 5 ==> (#[trigger] r@[i]).kind == sheet_kinds()[i],
        forall|i: int| 0 <= i < 5 ==> !(#[trigger] r@[i]).wants_files,
{
    let mut v: Vec<SheetSpec> = Vec::new();
    v.push(SheetSpec {
        name: "vInfo",
        kind: SheetKind::Info,
        vm_props: vec![crate::data::vinfo::vm_props()],
        host_props: Vec::new(),
        wants_files: false,
    });
    v.push(SheetSpec {
        name: "vHost",
        kind: SheetKind::Host,
        vm_props: vec![crate::data::common::vm_totals_props()],
        host_props: vec![crate::data::vhost::host_props()],
        wants_files: false,
    });
    v.push(SheetSpec {
        name: "vDisk",
        kind: SheetKind::Disk,
        vm_props: vec![crate::data::common::vm_context_props(), crate::data::vdisk::vm_props()],
        host_props: Vec::new(),
        wants_files: false,
    });
    v.push(SheetSpec {
        name: "vSnapshot",
        kind: SheetKind::Snapshot,
        vm_props: vec![crate::data::common::vm_context_props(), crate::data::vsnapshot::vm_props()],
        host_props: Vec::new(),
        wants_files: false,
    });
    v.push(SheetSpec {
        name: "vHealth",
        kind: SheetKind::Health,
        vm_props: vec![crate::data::vhealth::vm_props()],
        host_props: vec![crate::data::vhealth::host_props()],
        wants_files: false,
    });
    v
}

/// A sheet's columns, before the source column is appended.
pub open spec fn kind_columns(kind: SheetKind) -> Seq<(Seq<char>, ColumnKind)> {
    match kind {
        SheetKind::Info => crate::data::vinfo::column_spec(),
        SheetKind::Host => crate::data::vhost::column_spec(),
        SheetKind::Disk => crate::data::vdisk::column_spec(),
        SheetKind::Snapshot => crate::data::vsnapshot::column_spec(),
        SheetKind::Health => crate::data::vhealth::column_spec(),
    }
}

/// Every exported sheet's labels are distinct, and none is the
/// `VI SDK Server` column the table appends.
pub proof fn lemma_sheet_labels_ok(kind: SheetKind)
    ensures
        crate::data::labels_ok(kind_columns(kind)),
{
    match kind {
        SheetKind::Info => crate::data::vinfo::lemma_labels_ok(),
        SheetKind::Host => crate::data::vhost::lemma_labels_ok(),
        SheetKind::Disk => crate::data::vdisk::lemma_labels_ok(),
        SheetKind::Snapshot => crate::data::vsnapshot::lemma_labels_ok(),
        SheetKind::Health => crate::data::vhealth::lemma_labels_ok(),
    }
}

/// A sheet's columns.
pub fn sheet_columns(kind: SheetKind) -> (r: Vec<Column>)
    ensures
        columns_view(r@) == kind_columns(kind),
{
    match kind {
        SheetKind::Info => crate::data::vinfo::columns(),
        SheetKind::Host => crate::data::vhost::columns(),
        SheetKind::Disk => crate::data::vdisk::columns(),
        SheetKind::Snapshot => crate::data::vsnapshot::columns(),
        SheetKind::Health => crate::data::vhealth::columns(),
    }
}

/// Rows with their VM's moref dropped.
pub open spec fn untagged(r: Result<Seq<(Seq<char>, Seq<CellValue>)>, Seq<char>>) -> Result<Seq<Seq<CellValue>>, Seq<char>> {
    match r {
        Ok(v) => Ok(v.map_values(|p: (Seq<char>, Seq<CellValue>)| p.1)),
        Err(e) => Err(e),
    }
}

/// Whether every figure a sheet computes from these objects stays within
/// `i64`.
pub open spec fn sheet_fits(kind: SheetKind, vms: Seq<MoView>, hosts: Seq<MoView>) -> bool {
    match kind {
        SheetKind::Info => forall|i: int| 0 <= i < vms.len() ==> vm_row_fits(#[trigger] vms[i]),
        SheetKind::Host => tally_fits(vms) && host_rows_fit(hosts, tally(vms)),
        _ => true,
    }
}

/// A sheet's rows for one vCenter, or the error that stopped them.
pub open spec fn sheet_rows_of(
    kind: SheetKind,
    vms: Seq<MoView>,
    hosts: Seq<MoView>,
    names: Seq<(Seq<char>, Seq<char>)>,
) -> Result<Seq<Seq<CellValue>>, Seq<char>> {
    match kind {
        SheetKind::Info => vm_rows_of(vms, names),
        SheetKind::Host => host_rows_of(hosts, tally(vms)),
        SheetKind::Disk => untagged(disk_rows_of(vms, names)),
        SheetKind::Snapshot => untagged(snapshot_rows_of(vms, names)),
        SheetKind::Health => health_rows(hosts, vms),
    }
}

fn strip_tags(v: Vec<(String, Vec<Cell>)>) -> (r: Vec<Vec<Cell>>)
    ensures
        rows_view(r@) == tagged_rows(v@).map_values(|p: (Seq<char>, Seq<CellValue>)| p.1),
{
    let ghost orig = v@;
    let mut out: Vec<Vec<Cell>> = Vec::new();
    for p in it: v.into_iter()
        invariant
            it.seq() == orig,
            rows_view(out@) =~= tagged_rows(orig.take(it.index() as int)).map_values(
                |p: (Seq<char>, Seq<CellValue>)| p.1,
            ),
    {
        let ghost before = out@;
        let (_, row) = p;
        out.push(row);
        proof {
            assert(orig.take(it.index() + 1) =~= orig.take(it.index() as int).push(orig[it.index() as int]));
            assert(rows_view(out@) =~= rows_view(before).push(row_view(row)));
        }
    }
    proof { assert(orig.take(orig.len() as int) =~= orig); }
    out
}

/// A sheet's rows for one vCenter from its snapshot; `None` when a figure
/// the sheet computes would leave `i64`.
pub fn sheet_rows(kind: SheetKind, snap: &InventorySnapshot) -> (r: Option<Result<Vec<Vec<Cell>>, String>>)
    ensures
        match r {
            None => !sheet_fits(kind, mos_view(snap.vms@), mos_view(snap.hosts@)),
            Some(Ok(rows)) => sheet_fits(kind, mos_view(snap.vms@), mos_view(snap.hosts@))
                && sheet_rows_of(kind, mos_view(snap.vms@), mos_view(snap.hosts@), names_view(snap.host_names@))
                    == Ok::<Seq<Seq<CellValue>>, Seq<char>>(rows_view(rows@)),
            Some(Err(e)) => sheet_fits(kind, mos_view(snap.vms@), mos_view(snap.hosts@))
                && sheet_rows_of(kind, mos_view(snap.vms@), mos_view(snap.hosts@), names_view(snap.host_names@))
                    == Err::<Seq<Seq<CellValue>>, Seq<char>>(e@),
        },
{
    match kind {
        SheetKind::Info => {
            let r = crate::data::vinfo::checked_rows(snap);
            proof {
                if r is None {
                    let i = choose|i: int| !(0 <= i < snap.vms@.len() ==> vm_row_fits(#[trigger] snap.vms@[i]@));
                    assert(!vm_row_fits(mos_view(snap.vms@)[i]));
                } else {
                    assert forall|i: int| 0 <= i < snap.vms@.len() implies vm_row_fits(#[trigger] mos_view(snap.vms@)[i]) by {
                        assert(vm_row_fits(snap.vms@[i]@));
                    }
                }
            }
            r
        },
        SheetKind::Host => crate::data::vhost::checked_vhost_rows(&snap.vms, &snap.hosts),
        SheetKind::Disk => match crate::data::vdisk::rows(snap) {
            Ok(v) => Some(Ok(strip_tags(v))),
            Err(e) => Some(Err(e)),
        },
        SheetKind::Snapshot => match crate::data::vsnapshot::rows(snap) {
            Ok(v) => Some(Ok(strip_tags(v))),
            Err(e) => Some(Err(e)),
        },
        SheetKind::Health => match crate::data::vhealth::rows(snap) {
            Ok(v) => Some(Ok(v)),
            Err(e) => Some(Err(e)),
        },
    }
}

/// Whether every figure a sheet computes from this snapshot stays within
/// `i64`.
pub fn sheet_fits_in(kind: SheetKind, snap: &InventorySnapshot) -> (r: bool)
    ensures
        r == sheet_fits(kind, mos_view(snap.vms@), mos_view(snap.hosts@)),
{
    match kind {
        SheetKind::Info => {
            let r = crate::data::vinfo::rows_fit(&snap.vms);
            proof {
                if r {
                    assert forall|i: int| 0 <= i < snap.vms@.len() implies vm_row_fits(#[trigger] mos_view(snap.vms@)[i]) by {
                        assert(vm_row_fits(snap.vms@[i]@));
                    }
                } else {
                    let i = choose|i: int| !(0 <= i < snap.vms@.len() ==> vm_row_fits(#[trigger] snap.vms@[i]@));
                    assert(!vm_row_fits(mos_view(snap.vms@)[i]));
                }
            }
            r
        },
        SheetKind::Host => crate::data::vhost::vhost_fits(&snap.vms, &snap.hosts),
        _ => true,
    }
}

/// Whether every chosen sheet's figures stay within `i64` for this
/// snapshot: what [`record_snapshot`] needs of it.
pub fn chosen_fit(specs: &Vec<SheetSpec>, chosen: &Vec<usize>, snap: &InventorySnapshot) -> (r: bool)
    requires
        chosen_ok(specs@, chosen@),
    ensures
        r == forall|i: int| 0 <= i < chosen@.len() ==> sheet_fits(
            specs@[#[trigger] chosen@[i] as int].kind,
            mos_view(snap.vms@),
            mos_view(snap.hosts@),
        ),
{
    let mut i: usize = 0;
    while i < chosen.len()
        invariant
            i <= chosen@.len(),
            chosen_ok(specs@, chosen@),
            forall|k: int| 0 <= k < i ==> sheet_fits(
                specs@[#[trigger] chosen@[k] as int].kind,
                mos_view(snap.vms@),
                mos_view(snap.hosts@),
            ),
        decreases chosen.len() - i,
    {
        proof { assert(chosen@[i as int] < specs@.len()); }
        if !sheet_fits_in(specs[chosen[i]].kind, snap) {
            return false;
        }
        i += 1;
    }
    true
}

/// A table with `w` appended to its warnings.
pub open spec fn warned(t: TableView, w: Seq<char>) -> TableView {
    TableView { name: t.name, columns: t.columns, rows: t.rows, warnings: t.warnings.push(w) }
}

/// A table with `rows` appended, each tagged with `server`.
pub open spec fn extended(t: TableView, server: Seq<char>, rows: Seq<Seq<CellValue>>) -> TableView {
    TableView {
        name: t.name,
        columns: t.columns,
        rows: t.rows + rows.map_values(|r: Seq<CellValue>| r.push(CellValue::Text(server))),
        warnings: t.warnings,
    }
}

/// `<server>: <message>`, the warning a failed vCenter leaves.
pub open spec fn server_warning(server: Seq<char>, message: Seq<char>) -> Seq<char> {
    server + ": "@ + message
}

/// A table after one vCenter's rows for it were built, or failed.
pub open spec fn after_sheet(t: TableView, server: Seq<char>, res: Result<Seq<Seq<CellValue>>, Seq<char>>) -> TableView {
    match res {
        Ok(rows) => extended(t, server, rows),
        Err(e) => warned(t, server_warning(server, e)),
    }
}

/// The empty table a chosen sheet starts as.
pub open spec fn empty_table(name: Seq<char>, kind: SheetKind) -> TableView {
    TableView {
        name,
        columns: kind_columns(kind).push((VI_SDK_SERVER@, ColumnKind::Text)),
        rows: Seq::empty(),
        warnings: Seq::empty(),
    }
}

pub open spec fn chosen_ok(specs: Seq<SheetSpec>, chosen: Seq<usize>) -> bool {
    forall|i: int| 0 <= i < chosen.len() ==> (#[trigger] chosen[i]) < specs.len()
}

pub open spec fn tables_view(ts: Seq<Table>) -> Seq<TableView> {
    ts.map_values(|t: Table| t@)
}

/// One empty table per chosen sheet, each with the source column.
pub fn new_tables(specs: &Vec<SheetSpec>, chosen: &Vec<usize>) -> (r: Vec<Table>)
    requires
        chosen_ok(specs@, chosen@),
    ensures
        r@.len() == chosen@.len(),
        forall|i: int| 0 <= i < chosen@.len() ==> (#[trigger] r@[i])@ == empty_table(
            specs@[chosen@[i] as int].name@,
            specs@[chosen@[i] as int].kind,
        ),
{
    let mut out: Vec<Table> = Vec::new();
    let mut i: usize = 0;
    while i < chosen.len()
        invariant
            i <= chosen@.len(),
            chosen_ok(specs@, chosen@),
            out@.len() == i,
            forall|k: int| 0 <= k < i ==> (#[trigger] out@[k])@ == empty_table(
                specs@[chosen@[k] as int].name@,
                specs@[chosen@[k] as int].kind,
            ),
        decreases chosen.len() - i,
    {
        let s = &specs[chosen[i]];
        proof { assert(chosen@[i as int] < specs@.len()); }
        let t = Table::new(s.name, sheet_columns(s.kind)).with_source_column();
        proof {
            assert(t@.rows =~= Seq::<Seq<CellValue>>::empty());
            assert(t@.warnings =~= Seq::<Seq<char>>::empty());
            assert(t@ == empty_table(s.name@, s.kind));
        }
        out.push(t);
        i += 1;
    }
    out
}

/// A vCenter that could not be reached or queried: every table gets a
/// warning and no rows, so the healthy servers' data still arrives.
pub fn record_failure(tables: &mut Vec<Table>, server: &str, error: &str)
    ensures
        final(tables)@.len() == old(tables)@.len(),
        forall|i: int| 0 <= i < old(tables)@.len() ==> (#[trigger] final(tables)@[i])@ == warned(
            old(tables)@[i]@,
            server_warning(server@, error@),
        ),
{
    let mut old_tables: Vec<Table> = Vec::new();
    std::mem::swap(&mut old_tables, tables);
    let ghost orig = old_tables@;
    for t in it: old_tables.into_iter()
        invariant
            it.seq() == orig,
            tables@.len() == it.index(),
            forall|k: int| 0 <= k < it.index() ==> (#[trigger] tables@[k])@ == warned(
                orig[k]@,
                server_warning(server@, error@),
            ),
    {
        let mut t = t;
        let w = String::from_str(server).concat(": ").concat(error);
        let ghost before = t.warnings@;
        t.warnings.push(w);
        proof {
            assert(strings_view(t.warnings@) =~= strings_view(before).push(w@));
            assert(t@ == warned(orig[it.index() as int]@, server_warning(server@, error@)));
        }
        tables.push(t);
    }
}

/// One vCenter's snapshot turned into each chosen sheet's rows. A sheet
/// that fails for this vCenter leaves a warning in its own table only.
pub fn record_snapshot(tables: &mut Vec<Table>, specs: &Vec<SheetSpec>, chosen: &Vec<usize>, snap: &InventorySnapshot)
    requires
        old(tables)@.len() == chosen@.len(),
        chosen_ok(specs@, chosen@),
        forall|i: int| 0 <= i < chosen@.len() ==> sheet_fits(
            specs@[#[trigger] chosen@[i] as int].kind,
            mos_view(snap.vms@),
            mos_view(snap.hosts@),
        ),
    ensures
        final(tables)@.len() == old(tables)@.len(),
        forall|i: int| 0 <= i < old(tables)@.len() ==> (#[trigger] final(tables)@[i])@ == after_sheet(
            old(tables)@[i]@,
            snap.server@,
            sheet_rows_of(
                specs@[chosen@[i] as int].kind,
                mos_view(snap.vms@),
                mos_view(snap.hosts@),
                names_view(snap.host_names@),
            ),
        ),
{
    let mut old_tables: Vec<Table> = Vec::new();
    std::mem::swap(&mut old_tables, tables);
    let ghost orig = old_tables@;
    let ghost vv = mos_view(snap.vms@);
    let ghost hv = mos_view(snap.hosts@);
    let ghost nv = names_view(snap.host_names@);
    let mut i: usize = 0;
    let n = old_tables.len();
    while i < n
        invariant
            n == orig.len(),
            old_tables@ == orig.subrange(i as int, n as int),
            orig.len() == chosen@.len(),
            chosen_ok(specs@, chosen@),
            vv == mos_view(snap.vms@),
            hv == mos_view(snap.hosts@),
            nv == names_view(snap.host_names@),
            forall|k: int| 0 <= k < chosen@.len() ==> sheet_fits(specs@[#[trigger] chosen@[k] as int].kind, vv, hv),
            i <= n,
            tables@.len() == i,
            forall|k: int| 0 <= k < i ==> (#[trigger] tables@[k])@ == after_sheet(
                orig[k]@,
                snap.server@,
                sheet_rows_of(specs@[chosen@[k] as int].kind, vv, hv, nv),
            ),
        decreases n - i,
    {
        let t = old_tables.remove(0);
        proof { assert(old_tables@ =~= orig.subrange(i + 1, n as int)); }
        let mut t = t;
        proof { assert(chosen@[i as int] < specs@.len()); }
        let kind = specs[chosen[i]].kind;
        proof { assert(sheet_fits(kind, vv, hv)); }
        match sheet_rows(kind, snap) {
            Some(Ok(rows)) => {
                t.extend_from(snap.server.as_str(), rows);
            },
            Some(Err(e)) => {
                let w = snap.server.clone().concat(": ").concat(e.as_str());
                let ghost before = t.warnings@;
                t.warnings.push(w);
                proof { assert(strings_view(t.warnings@) =~= strings_view(before).push(w@)); }
            },
            None => {},
        }
        proof {
            assert(t@ == after_sheet(orig[i as int]@, snap.server@, sheet_rows_of(kind, vv, hv, nv)));
        }
        tables.push(t);
        i += 1;
    }
}

pub open spec fn groups_view(v: Seq<Vec<&'static str>>) -> Seq<Seq<Seq<char>>> {
    v.map_values(|s: Vec<&'static str>| strs_view(s@))
}

/// The property sets the chosen sheets read, `VirtualMachine` ones when `vm`
/// holds and `HostSystem` ones otherwise, in the order of the sheets.
pub open spec fn chosen_sets(specs: Seq<SheetSpec>, chosen: Seq<usize>, vm: bool) -> Seq<Seq<Seq<char>>> {
    chosen.map_values(
        |i: usize|
            if vm {
                groups_view(specs[i as int].vm_props@)
            } else {
                groups_view(specs[i as int].host_props@)
            },
    ).flatten()
}

fn gather_sets<'a>(specs: &'a Vec<SheetSpec>, chosen: &Vec<usize>, vm: bool) -> (r: Vec<&'a [&'static str]>)
    requires
        chosen_ok(specs@, chosen@),
    ensures
        sets_view(r@) == chosen_sets(specs@, chosen@, vm),
{
    let ghost per = chosen@.map_values(
        |i: usize|
            if vm {
                groups_view(specs@[i as int].vm_props@)
            } else {
                groups_view(specs@[i as int].host_props@)
            },
    );
    let mut out: Vec<&'a [&'static str]> = Vec::new();
    let mut i: usize = 0;
    proof { assert(per.take(0).flatten() =~= Seq::<Seq<Seq<char>>>::empty()); }
    while i < chosen.len()
        invariant
            i <= chosen@.len(),
            chosen_ok(specs@, chosen@),
            per == chosen@.map_values(
                |i: usize|
                    if vm {
                        groups_view(specs@[i as int].vm_props@)
                    } else {
                        groups_view(specs@[i as int].host_props@)
                    },
            ),
            sets_view(out@) =~= per.take(i as int).flatten(),
        decreases chosen.len() - i,
    {
        proof { assert(chosen@[i as int] < specs@.len()); }
        let spec = &specs[chosen[i]];
        let groups = if vm { &spec.vm_props } else { &spec.host_props };
        let ghost flat_before = per.take(i as int).flatten();
        proof { assert(groups_view(groups@) == per[i as int]); }
        let mut j: usize = 0;
        while j < groups.len()
            invariant
                j <= groups@.len(),
                sets_view(out@) =~= flat_before + groups_view(groups@).take(j as int),
            decreases groups.len() - j,
        {
            let ghost before = out@;
            out.push(groups[j].as_slice());
            proof {
                assert(sets_view(out@) =~= sets_view(before).push(strs_view(groups@[j as int]@)));
                assert(groups_view(groups@).take(j + 1) =~= groups_view(groups@).take(j as int).push(strs_view(groups@[j as int]@)));
            }
            j += 1;
        }
        proof {
            assert(groups_view(groups@).take(groups@.len() as int) =~= groups_view(groups@));
            assert(per.take(i + 1) =~= per.take(i as int).push(per[i as int]));
            per.take(i as int).lemma_flatten_push(per[i as int]);
        }
        i += 1;
    }
    proof { assert(per.take(chosen@.len() as int) =~= per); }
    out
}

/// The union of the chosen sheets' `VirtualMachine` properties and of their
/// `HostSystem` properties: what one fetch per vCenter asks for.
pub fn fetch_props(specs: &Vec<SheetSpec>, chosen: &Vec<usize>) -> (r: (Vec<&'static str>, Vec<&'static str>))
    requires
        chosen_ok(specs@, chosen@),
    ensures
        strs_view(r.0@) == union_of(chosen_sets(specs@, chosen@, true)),
        strs_view(r.1@) == union_of(chosen_sets(specs@, chosen@, false)),
{
    let vm_sets = gather_sets(specs, chosen, true);
    let host_sets = gather_sets(specs, chosen, false);
    (union(vm_sets.as_slice()), union(host_sets.as_slice()))
}

/// The `HostSystem` properties a fetch asks for: every VM-derived sheet
/// resolves `runtime.host` to a host name, so a VM fetch always brings the
/// hosts' names too.
pub fn snapshot_host_props(vm_props: &Vec<&'static str>, host_props: &Vec<&'static str>) -> (r: Vec<&'static str>)
    ensures
        vm_props@.len() == 0 ==> strs_view(r@) == strs_view(host_props@),
        vm_props@.len() > 0 ==> strs_view(r@) == union_of(seq![strs_view(host_props@), seq!["name"@]]),
{
    if vm_props.len() == 0 {
        let mut out: Vec<&'static str> = Vec::new();
        let mut i: usize = 0;
        while i < host_props.len()
            invariant
                i <= host_props@.len(),
                out@ == host_props@.take(i as int),
            decreases host_props.len() - i,
        {
            out.push(host_props[i]);
            proof { assert(host_props@.take(i + 1) =~= host_props@.take(i as int).push(host_props@[i as int])); }
            i += 1;
        }
        proof { assert(host_props@.take(host_props@.len() as int) =~= host_props@); }
        out
    } else {
        let name: Vec<&'static str> = vec!["name"];
        let sets: Vec<&[&'static str]> = vec![host_props.as_slice(), name.as_slice()];
        proof {
            assert(sets@.len() == 2);
            assert(sets@[0]@ == host_props@);
            assert(sets@[1]@ == name@);
            assert(strs_view(name@) =~= seq!["name"@]);
            assert(sets_view(sets@) =~= seq![strs_view(host_props@), seq!["name"@]]);
        }
        union(sets.as_slice())
    }
}

impl InventorySnapshot {
    /// The snapshot of what `server` returned, with its host names derived
    /// from `hosts`.
    pub fn assemble(server: String, vms: Vec<ManagedObject>, hosts: Vec<ManagedObject>) -> (s: Self)
        ensures
            s.server@ == server@,
            mos_view(s.vms@) == mos_view(vms@),
            mos_view(s.hosts@) == mos_view(hosts@),
            names_view(s.host_names@) == host_names_of(mos_view(hosts@)),
    {
        let host_names = host_names(&hosts);
        InventorySnapshot { server, vms, hosts, host_names }
    }
}

proof fn lemma_dedup(s: Seq<Seq<char>>)
    ensures
        forall|x: Seq<char>| #[trigger] dedup(s).contains(x) <==> s.contains(x),
        dedup(s).no_duplicates(),
    decreases s.len(),
{
    if s.len() > 0 {
        lemma_dedup(s.drop_last());
        let d = dedup(s.drop_last());
        assert forall|x: Seq<char>| #[trigger] dedup(s).contains(x) <==> s.contains(x) by {
            if s.contains(x) {
                let k = choose|k: int| 0 <= k < s.len() && s[k] == x;
                if k < s.len() - 1 {
                    assert(s.drop_last()[k] == x);
                    assert(s.drop_last().contains(x));
                }
            }
            if s.drop_last().contains(x) {
                let k = choose|k: int| 0 <= k < s.drop_last().len() && s.drop_last()[k] == x;
                assert(s[k] == x);
            }
            if !d.contains(s.last()) {
                assert(d.push(s.last())[d.len() as int] == s.last());
                if d.push(s.last()).contains(x) {
                    let k = choose|k: int| 0 <= k < d.push(s.last()).len() && d.push(s.last())[k] == x;
                    if k < d.len() {
                        assert(d[k] == x);
                    }
                }
                if d.contains(x) {
                    let k = choose|k: int| 0 <= k < d.len() && d[k] == x;
                    assert(d.push(s.last())[k] == x);
                }
            }
        }
    }
}

proof fn lemma_flatten_member(sets: Seq<Seq<Seq<char>>>, i: int, j: int)
    requires
        0 <= i < sets.len(),
        0 <= j < sets[i].len(),
    ensures
        sets.flatten().contains(sets[i][j]),
    decreases sets.len(),
{
    let f = sets.flatten();
    if i == 0 {
        assert(f[j] == sets[0][j]);
    } else {
        lemma_flatten_member(sets.drop_first(), i - 1, j);
        let rest = sets.drop_first().flatten();
        let k = choose|k: int| 0 <= k < rest.len() && rest[k] == sets[i][j];
        assert(f[sets.first().len() + k] == sets[i][j]);
    }
}

proof fn lemma_flatten_origin(sets: Seq<Seq<Seq<char>>>, x: Seq<char>)
    requires
        sets.flatten().contains(x),
    ensures
        exists|i: int, j: int| 0 <= i < sets.len() && 0 <= j < sets[i].len() && #[trigger] sets[i][j] == x,
    decreases sets.len(),
{
    let f = sets.flatten();
    let k = choose|k: int| 0 <= k < f.len() && f[k] == x;
    if k < sets.first().len() {
        assert(sets[0][k] == x);
    } else {
        let rest = sets.drop_first().flatten();
        assert(rest[k - sets.first().len()] == x);
        lemma_flatten_origin(sets.drop_first(), x);
        let (i, j) = choose|i: int, j: int| 0 <= i < sets.drop_first().len() && 0 <= j < sets.drop_first()[i].len() && #[trigger] sets.drop_first()[i][j] == x;
        assert(sets[i + 1][j] == x);
    }
}

/// The merged property list names every property of every set, nothing
/// else, and each only once: a sheet whose set is merged loses no column
/// to the merge, and vCenter is never asked for a property twice.
pub proof fn lemma_union_covers(sets: Seq<Seq<Seq<char>>>)
    ensures
        forall|i: int, j: int| 0 <= i < sets.len() && 0 <= j < sets[i].len() ==> union_of(sets).contains(#[trigger] sets[i][j]),
        forall|x: Seq<char>| #[trigger] union_of(sets).contains(x) ==> exists|i: int, j: int|
            0 <= i < sets.len() && 0 <= j < sets[i].len() && #[trigger] sets[i][j] == x,
        union_of(sets).no_duplicates(),
{
    lemma_dedup(sets.flatten());
    assert forall|i: int, j: int| 0 <= i < sets.len() && 0 <= j < sets[i].len() implies union_of(sets).contains(#[trigger] sets[i][j]) by {
        lemma_flatten_member(sets, i, j);
    }
    assert forall|x: Seq<char>| #[trigger] union_of(sets).contains(x) implies exists|i: int, j: int|
        0 <= i < sets.len() && 0 <= j < sets[i].len() && #[trigger] sets[i][j] == x by {
        lemma_flatten_origin(sets, x);
    }
}

/// Every row a sheet builds has one cell per column of the sheet.
pub proof fn lemma_sheet_rows_width(
    kind: SheetKind,
    vms: Seq<MoView>,
    hosts: Seq<MoView>,
    names: Seq<(Seq<char>, Seq<char>)>,
)
    ensures
        sheet_rows_of(kind, vms, hosts, names) matches Ok(rows) ==> super::all_width(rows, kind_columns(kind).len() as int),
{
    match kind {
        SheetKind::Info => crate::data::vinfo::lemma_vm_rows_width(vms, names),
        SheetKind::Host => crate::data::vhost::lemma_host_rows_width(hosts, tally(vms)),
        SheetKind::Disk => {
            crate::data::vdisk::lemma_disk_rows_width(vms, names);
            if let Ok(v) = disk_rows_of(vms, names) {
                let rows = v.map_values(|p: (Seq<char>, Seq<CellValue>)| p.1);
                assert forall|i: int| 0 <= i < rows.len() implies (#[trigger] rows[i]).len() == kind_columns(kind).len() by {
                    assert(rows[i] == v[i].1);
                }
            }
        },
        SheetKind::Snapshot => {
            crate::data::vsnapshot::lemma_snapshot_rows_width(vms, names);
            if let Ok(v) = snapshot_rows_of(vms, names) {
                let rows = v.map_values(|p: (Seq<char>, Seq<CellValue>)| p.1);
                assert forall|i: int| 0 <= i < rows.len() implies (#[trigger] rows[i]).len() == kind_columns(kind).len() by {
                    assert(rows[i] == v[i].1);
                }
            }
        },
        SheetKind::Health => crate::data::vhealth::lemma_health_rows_width(hosts, vms),
    }
}

/// The source column lines up: once a vCenter's rows are in a chosen
/// sheet's table, every row has one cell per column, the last column is
/// `VI SDK Server`, and every row's last cell names that vCenter.
pub proof fn lemma_source_column_lines_up(
    name: Seq<char>,
    kind: SheetKind,
    vms: Seq<MoView>,
    hosts: Seq<MoView>,
    names: Seq<(Seq<char>, Seq<char>)>,
    server: Seq<char>,
)
    ensures
        ({
            let t = after_sheet(empty_table(name, kind), server, sheet_rows_of(kind, vms, hosts, names));
            &&& super::all_width(t.rows, t.columns.len() as int)
            &&& t.columns.last() == (VI_SDK_SERVER@, ColumnKind::Text)
            &&& forall|i: int| 0 <= i < t.rows.len() ==> (#[trigger] t.rows[i]).last() == CellValue::Text(server)
        }),
{
    lemma_sheet_rows_width(kind, vms, hosts, names);
    let t0 = empty_table(name, kind);
    let t = after_sheet(t0, server, sheet_rows_of(kind, vms, hosts, names));
    if let Ok(rows) = sheet_rows_of(kind, vms, hosts, names) {
        let added = rows.map_values(|r: Seq<CellValue>| r.push(CellValue::Text(server)));
        assert(t.rows =~= added);
        assert forall|i: int| 0 <= i < t.rows.len() implies (#[trigger] t.rows[i]).len() == t.columns.len() && t.rows[i].last() == CellValue::Text(server) by {
            assert(t.rows[i] == rows[i].push(CellValue::Text(server)));
        }
    }
}

} // verus!
