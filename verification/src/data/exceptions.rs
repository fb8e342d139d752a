//! Exceptions — the VMs that have been special-cased against their cluster.

use vstd::prelude::*;
use super::{columns_view, opt_text_value, row_view, Cell, CellValue, Column, ColumnKind};
use super::per_object::{mos, opt_node, prop_el, prop_node, text_under, text_under_el};
use super::snapshot::{lookup_name, name_lookup, names_view};
use super::vdisk::{tagged_rows, text, text_of};
use crate::text::{chars_of, str_eq, trim, trim_ws};
use crate::vcenter::soap::{ManagedObject, MoView};
use crate::vcenter::xml::{child_of, named, opt_str_view, text_at_path, Element, XNode};

verus! {

/// The sheet's columns, labels as RVTools writes them.
pub open spec fn column_spec() -> Seq<(Seq<char>, ColumnKind)> {
    seq![
        ("VM"@, ColumnKind::Text),
        ("Setting"@, ColumnKind::Text),
        ("This VM"@, ColumnKind::Text),
        ("Cluster default"@, ColumnKind::Text),
    ]
}

/// Which column a label names; `-1` for none.
#[verifier::opaque]
pub open spec fn label_index(s: Seq<char>) -> int {
    if s == "VM"@ {
        0
    } else if s == "Setting"@ {
        1
    } else if s == "This VM"@ {
        2
    } else if s == "Cluster default"@ {
        3
    } else {
        -1
    }
}

/// The sheet's labels are distinct, and none is `VI SDK Server`.
pub proof fn lemma_labels_ok()
    ensures
        super::labels_ok(column_spec()),
{
    reveal(label_index);
    reveal_strlit("VM");
    assert("VM"@.len() == 2);
    reveal_strlit("Setting");
    assert("Setting"@.len() == 7);
    reveal_strlit("This VM");
    assert("This VM"@.len() == 7);
    reveal_strlit("Cluster default");
    assert("Cluster default"@.len() == 15);
    reveal_strlit("VI SDK Server");
    assert("VI SDK Server"@.len() == 13);
    assert("Setting"@[0] == 'S');
    assert("This VM"@[0] == 'T');
    let cols = column_spec();
    assert(label_index(super::VI_SDK_SERVER@) == -1);
    assert forall|i: int| 0 <= i < cols.len() implies label_index(#[trigger] cols[i].0) == i by {
        if i == 0 {
                    assert(label_index(cols[0].0) == 0);
                } else if i == 1 {
                    assert(label_index(cols[1].0) == 1);
                } else if i == 2 {
                    assert(label_index(cols[2].0) == 2);
                } else if i == 3 {
                    assert(label_index(cols[3].0) == 3);
                }
    }
}

pub fn columns() -> (r: Vec<Column>)
    ensures
        columns_view(r@) == column_spec(),
{
    let r = vec![
        Column::text("VM"),
        Column::text("Setting"),
        Column::text("This VM"),
        Column::text("Cluster default"),
    ];
    proof { assert(columns_view(r@) =~= column_spec()); }
    r
}

/// A per-VM HA setting, read from `dasSettings`: trimmed, absent when empty.
pub open spec fn setting_of(entry: XNode, field: Seq<char>) -> Option<Seq<char>> {
    match child_of(entry, "dasSettings"@) {
        Some(s) => match text_at_path(s, field) {
            Some(t) => if trim_ws(t).len() > 0 {
                Some(trim_ws(t))
            } else {
                None
            },
            None => None,
        },
        None => None,
    }
}

pub fn setting(entry: &Element, field: &str) -> (r: Option<String>)
    ensures
        opt_str_view(r) == setting_of(entry@, field@),
{
    match entry.child("dasSettings") {
        Some(s) => match s.text_at(field) {
            Some(t) => {
                let v = trim(t.as_str());
                if chars_of(v.as_str()).len() > 0 {
                    Some(v)
                } else {
                    None
                }
            },
            None => None,
        },
        None => None,
    }
}
/// A cluster-wide default from `defaultVmSettings`: trimmed, absent when
/// empty.
pub open spec fn default_of(defaults: Option<XNode>, field: Seq<char>) -> Option<Seq<char>> {
    match text_under(defaults, field) {
        Some(t) => if trim_ws(t).len() > 0 {
            Some(trim_ws(t))
        } else {
            None
        },
        None => None,
    }
}

fn default_value(defaults: Option<&Element>, field: &str) -> (r: Option<String>)
    ensures
        opt_str_view(r) == default_of(opt_node(defaults), field@),
{
    match text_under_el(defaults, field) {
        Some(t) => {
            let v = trim(t.as_str());
            if chars_of(v.as_str()).len() > 0 {
                Some(v)
            } else {
                None
            }
        },
        None => None,
    }
}

/// One exception row: the VM, the setting, its value and the cluster's.
pub open spec fn exception_cells(vm: Seq<char>, label: Seq<char>, value: Seq<char>, default: Option<Seq<char>>) -> Seq<CellValue> {
    seq![CellValue::Text(vm), CellValue::Text(label), CellValue::Text(value), opt_text_value(default)]
}

/// The overrides one `dasVmConfig` entry makes, each tagged with the VM's
/// moref. Only a value that departs from the cluster default is an
/// override, and an isolation response of `clusterIsolationResponse`
/// defers to the cluster.
pub open spec fn entry_rows(
    entry: XNode,
    names: Seq<(Seq<char>, Seq<char>)>,
    priority: Option<Seq<char>>,
    isolation: Option<Seq<char>>,
) -> Seq<(Seq<char>, Seq<CellValue>)> {
    match text_of(entry, "key"@) {
        None => Seq::empty(),
        Some(m) => {
            let vm = match name_lookup(names, m) {
                Some(n) => n,
                None => m,
            };
            let a = match setting_of(entry, "restartPriority"@) {
                Some(p) => if Some(p) != priority {
                    seq![(m, exception_cells(vm, "HA restart priority"@, p, priority))]
                } else {
                    Seq::empty()
                },
                None => Seq::empty(),
            };
            let b = match setting_of(entry, "isolationResponse"@) {
                Some(i) => if i != "clusterIsolationResponse"@ && Some(i) != isolation {
                    seq![(m, exception_cells(vm, "HA isolation response"@, i, isolation))]
                } else {
                    Seq::empty()
                },
                None => Seq::empty(),
            };
            a + b
        },
    }
}

/// The overrides of every entry, in order.
pub open spec fn entries_rows(
    entries: Seq<XNode>,
    names: Seq<(Seq<char>, Seq<char>)>,
    priority: Option<Seq<char>>,
    isolation: Option<Seq<char>>,
) -> Seq<(Seq<char>, Seq<CellValue>)>
    decreases entries.len(),
{
    if entries.len() == 0 {
        Seq::empty()
    } else {
        entries_rows(entries.drop_last(), names, priority, isolation) + entry_rows(entries.last(), names, priority, isolation)
    }
}

/// A cluster's overrides; a cluster without HA settings has none.
pub open spec fn cluster_rows(c: MoView, names: Seq<(Seq<char>, Seq<char>)>) -> Seq<(Seq<char>, Seq<CellValue>)> {
    match prop_node(c, "configurationEx"@) {
        None => Seq::empty(),
        Some(cfg) => match child_of(cfg, "dasConfig"@) {
            None => Seq::empty(),
            Some(das) => {
                let defaults = child_of(das, "defaultVmSettings"@);
                entries_rows(
                    named(cfg.children, "dasVmConfig"@),
                    names,
                    default_of(defaults, "restartPriority"@),
                    default_of(defaults, "isolationResponse"@),
                )
            },
        },
    }
}

/// Every cluster's overrides, in order.
pub open spec fn exceptions_of(clusters: Seq<MoView>, names: Seq<(Seq<char>, Seq<char>)>) -> Seq<(Seq<char>, Seq<CellValue>)>
    decreases clusters.len(),
{
    if clusters.len() == 0 {
        Seq::empty()
    } else {
        exceptions_of(clusters.drop_last(), names) + cluster_rows(clusters.last(), names)
    }
}

fn same(a: &String, b: &Option<String>) -> (r: bool)
    ensures
        r == (Some(a@) == opt_str_view(*b)),
{
    match b {
        Some(x) => str_eq(a.as_str(), x.as_str()),
        None => false,
    }
}

fn exception_row(vm: &String, label: &str, value: String, default: &Option<String>) -> (r: Vec<Cell>)
    ensures
        row_view(r) == exception_cells(vm@, label@, value@, opt_str_view(*default)),
{
    let r = vec![
        Cell::Text(vm.clone()),
        Cell::Text(String::from_str(label)),
        Cell::Text(value),
        Cell::opt_text(crate::text::clone_opt(default)),
    ];
    proof { assert(row_view(r) =~= exception_cells(vm@, label@, value@, opt_str_view(*default))); }
    r
}

fn push_entry(
    out: &mut Vec<(String, Vec<Cell>)>,
    entry: &Element,
    names: &Vec<(String, String)>,
    priority: &Option<String>,
    isolation: &Option<String>,
)
    ensures
        tagged_rows(final(out)@) == tagged_rows(old(out)@) + entry_rows(
            entry@,
            names_view(names@),
            opt_str_view(*priority),
            opt_str_view(*isolation),
        ),
{
    let ghost start = tagged_rows(out@);
    let m = match text(entry, "key") {
        Some(k) => k,
        None => {
            proof { assert(start + Seq::<(Seq<char>, Seq<CellValue>)>::empty() =~= start); }
            return;
        },
    };
    let vm = match lookup_name(names, m.as_str()) {
        Some(n) => n,
        None => m.clone(),
    };
    let ghost a: Seq<(Seq<char>, Seq<CellValue>)> = match setting_of(entry@, "restartPriority"@) {
        Some(p) => if Some(p) != opt_str_view(*priority) {
            seq![(m@, exception_cells(vm@, "HA restart priority"@, p, opt_str_view(*priority)))]
        } else {
            Seq::empty()
        },
        None => Seq::empty(),
    };
    match setting(entry, "restartPriority") {
        Some(p) => if !same(&p, priority) {
            let row = exception_row(&vm, "HA restart priority", p, priority);
            out.push((m.clone(), row));
        },
        None => {},
    }
    proof { assert(tagged_rows(out@) =~= start + a); }
    let ghost mid = tagged_rows(out@);
    let ghost b: Seq<(Seq<char>, Seq<CellValue>)> = match setting_of(entry@, "isolationResponse"@) {
        Some(i) => if i != "clusterIsolationResponse"@ && Some(i) != opt_str_view(*isolation) {
            seq![(m@, exception_cells(vm@, "HA isolation response"@, i, opt_str_view(*isolation)))]
        } else {
            Seq::empty()
        },
        None => Seq::empty(),
    };
    match setting(entry, "isolationResponse") {
        Some(i) => if !str_eq(i.as_str(), "clusterIsolationResponse") && !same(&i, isolation) {
            let row = exception_row(&vm, "HA isolation response", i, isolation);
            out.push((m.clone(), row));
        },
        None => {},
    }
    proof {
        assert(tagged_rows(out@) =~= mid + b);
        assert(start + a + b =~= start + (a + b));
    }
}

fn push_cluster(out: &mut Vec<(String, Vec<Cell>)>, c: &ManagedObject, names: &Vec<(String, String)>)
    ensures
        tagged_rows(final(out)@) == tagged_rows(old(out)@) + cluster_rows(c@, names_view(names@)),
{
    let ghost start = tagged_rows(out@);
    let ghost nv = names_view(names@);
    proof { assert(start + Seq::<(Seq<char>, Seq<CellValue>)>::empty() =~= start); }
    let cfg = match prop_el(c, "configurationEx") {
        Some(x) => x,
        None => return,
    };
    let das = match cfg.child("dasConfig") {
        Some(x) => x,
        None => return,
    };
    let defaults = das.child("defaultVmSettings");
    let priority = default_value(defaults, "restartPriority");
    let isolation = default_value(defaults, "isolationResponse");
    let entries = cfg.children_named("dasVmConfig");
    let ghost ev = named(cfg@.children, "dasVmConfig"@);
    let ghost pv = opt_str_view(priority);
    let ghost iv = opt_str_view(isolation);
    let mut i: usize = 0;
    proof { assert(ev.take(0) =~= Seq::<XNode>::empty()); }
    while i < entries.len()
        invariant
            i <= entries@.len(),
            entries@.len() == ev.len(),
            forall|k: int| 0 <= k < ev.len() ==> (#[trigger] entries@[k])@ == ev[k],
            nv == names_view(names@),
            pv == opt_str_view(priority),
            iv == opt_str_view(isolation),
            tagged_rows(out@) == start + entries_rows(ev.take(i as int), nv, pv, iv),
        decreases entries.len() - i,
    {
        proof {
            assert(ev.take(i + 1).drop_last() =~= ev.take(i as int));
            assert(ev.take(i + 1).last() == entries@[i as int]@);
        }
        push_entry(out, entries[i], names, &priority, &isolation);
        proof {
            assert(start + entries_rows(ev.take(i as int), nv, pv, iv) + entry_rows(ev[i as int], nv, pv, iv)
                =~= start + entries_rows(ev.take(i + 1), nv, pv, iv));
        }
        i += 1;
    }
    proof { assert(ev.take(ev.len() as int) =~= ev); }
}

/// Exceptions: per VM, each HA setting its cluster's `dasVmConfig` sets
/// away from the cluster default, tagged with the VM's moref. `names` names
/// VMs by moref; a VM not found there is shown by its moref.
pub fn rows(clusters: &Vec<ManagedObject>, names: &Vec<(String, String)>) -> (r: Result<Vec<(String, Vec<Cell>)>, String>)
    ensures
        r matches Ok(v) && tagged_rows(v@) == exceptions_of(mos(clusters@), names_view(names@)),
{
    let ghost cv = mos(clusters@);
    let ghost nv = names_view(names@);
    let mut out: Vec<(String, Vec<Cell>)> = Vec::new();
    let mut i: usize = 0;
    proof {
        assert(cv.take(0) =~= Seq::<MoView>::empty());
        assert(tagged_rows(out@) =~= Seq::<(Seq<char>, Seq<CellValue>)>::empty());
    }
    while i < clusters.len()
        invariant
            i <= clusters@.len(),
            cv == mos(clusters@),
            nv == names_view(names@),
            tagged_rows(out@) == exceptions_of(cv.take(i as int), nv),
        decreases clusters.len() - i,
    {
        proof {
            assert(cv.take(i + 1).drop_last() =~= cv.take(i as int));
            assert(cv.take(i + 1).last() == clusters@[i as int]@);
        }
        push_cluster(&mut out, &clusters[i], names);
        i += 1;
    }
    proof { assert(cv.take(cv.len() as int) =~= cv); }
    Ok(out)
}
} // verus!
