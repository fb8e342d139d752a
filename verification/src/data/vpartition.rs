//! vPartition — one row per guest filesystem.

use vstd::prelude::*;
use super::{
    append_cells,
    columns_view,
    hundredths_value,
    opt_hundredths,
    opt_text_value,
    row_view,
    rows_view,
    Cell,
    CellValue,
    Column,
    ColumnKind,
};
use super::common::{vm_context_of, VmContext, VmContextView};
use super::per_object::{mos, per_object_rows, per_object_rows_of, vm_head, vm_head_cells, vm_tail, vm_tail_cells, PerObject};
use super::snapshot::{names_view, InventorySnapshot};
use super::vdisk::{number, tagged_rows, text, text_of};
use crate::vcenter::soap::{array_prop_of, ManagedObject, MoView};
use crate::vcenter::xml::{text_at_path, Element, XNode};
use super::common::{bytes_to_mib, div_round_wide, mib_hundredths, percent, percent_of};
use crate::text::{parse_i64, parse_i64_str};

verus! {

/// The sheet's columns, labels as RVTools writes them.
pub open spec fn column_spec() -> Seq<(Seq<char>, ColumnKind)> {
    seq![
        ("VM"@, ColumnKind::Text),
        ("Powerstate"@, ColumnKind::Text),
        ("Template"@, ColumnKind::Bool),
        ("Disk"@, ColumnKind::Text),
        ("Filesystem"@, ColumnKind::Text),
        ("Capacity MiB"@, ColumnKind::Number),
        ("Consumed MiB"@, ColumnKind::Number),
        ("Free MiB"@, ColumnKind::Number),
        ("Free %"@, ColumnKind::Number),
        ("Host"@, ColumnKind::Text),
        ("Annotation"@, ColumnKind::Text),
    ]
}

/// Which column a label names; `-1` for none.
#[verifier::opaque]
pub open spec fn label_index(s: Seq<char>) -> int {
    if s == "VM"@ {
        0
    } else if s == "Powerstate"@ {
        1
    } else if s == "Template"@ {
        2
    } else if s == "Disk"@ {
        3
    } else if s == "Filesystem"@ {
        4
    } else if s == "Capacity MiB"@ {
        5
    } else if s == "Consumed MiB"@ {
        6
    } else if s == "Free MiB"@ {
        7
    } else if s == "Free %"@ {
        8
    } else if s == "Host"@ {
        9
    } else if s == "Annotation"@ {
        10
    } else {
        -1
    }
}

/// The sheet's labels are distinct, and none is `VI SDK Server`.
pub proof fn lemma_labels_ok()
    ensures
        super::labels_ok(column_spec()),
{
    reveal(label_index);
    reveal_strlit("VM");
    assert("VM"@.len() == 2);
    reveal_strlit("Powerstate");
    assert("Powerstate"@.len() == 10);
    reveal_strlit("Template");
    assert("Template"@.len() == 8);
    reveal_strlit("Disk");
    assert("Disk"@.len() == 4);
    reveal_strlit("Filesystem");
    assert("Filesystem"@.len() == 10);
    reveal_strlit("Capacity MiB");
    assert("Capacity MiB"@.len() == 12);
    reveal_strlit("Consumed MiB");
    assert("Consumed MiB"@.len() == 12);
    reveal_strlit("Free MiB");
    assert("Free MiB"@.len() == 8);
    reveal_strlit("Free %");
    assert("Free %"@.len() == 6);
    reveal_strlit("Host");
    assert("Host"@.len() == 4);
    reveal_strlit("Annotation");
    assert("Annotation"@.len() == 10);
    reveal_strlit("VI SDK Server");
    assert("VI SDK Server"@.len() == 13);
    assert("Powerstate"@[0] == 'P');
    assert("Filesystem"@[0] == 'F');
    assert("Annotation"@[0] == 'A');
    assert("Template"@[0] == 'T');
    assert("Free MiB"@[0] == 'F');
    assert("Disk"@[0] == 'D');
    assert("Host"@[0] == 'H');
    assert("Capacity MiB"@[1] == 'a');
    assert("Consumed MiB"@[1] == 'o');
    let cols = column_spec();
    assert(label_index(super::VI_SDK_SERVER@) == -1);
    assert forall|i: int| 0 <= i < cols.len() implies label_index(#[trigger] cols[i].0) == i by {
        if i == 0 {
                    assert(label_index(cols[0].0) == 0);
                } else if i == 1 {
                    assert(label_index(cols[1].0) == 1);
                } else if i == 2 {
                    assert(label_index(cols[2].0) == 2);
                } else if i == 3 {
                    assert(label_index(cols[3].0) == 3);
                } else if i == 4 {
                    assert(label_index(cols[4].0) == 4);
                } else if i == 5 {
                    assert(label_index(cols[5].0) == 5);
                } else if i == 6 {
                    assert(label_index(cols[6].0) == 6);
                } else if i == 7 {
                    assert(label_index(cols[7].0) == 7);
                } else if i == 8 {
                    assert(label_index(cols[8].0) == 8);
                } else if i == 9 {
                    assert(label_index(cols[9].0) == 9);
                } else if i == 10 {
                    assert(label_index(cols[10].0) == 10);
                }
    }
}

pub fn columns() -> (r: Vec<Column>)
    ensures
        columns_view(r@) == column_spec(),
{
    let r = vec![
        Column::text("VM"),
        Column::text("Powerstate"),
        Column::bool("Template"),
        Column::text("Disk"),
        Column::text("Filesystem"),
        Column::number("Capacity MiB"),
        Column::number("Consumed MiB"),
        Column::number("Free MiB"),
        Column::number("Free %"),
        Column::text("Host"),
        Column::text("Annotation"),
    ];
    proof { assert(columns_view(r@) =~= column_spec()); }
    r
}

/// A byte count at a path.
pub open spec fn bytes_at(d: XNode, path: Seq<char>) -> Option<i64> {
    match text_at_path(d, path) {
        Some(t) => parse_i64(t),
        None => None,
    }
}

fn bytes(d: &Element, path: &str) -> (r: Option<i64>)
    ensures
        r == bytes_at(d@, path@),
{
    match d.text_at(path) {
        Some(t) => parse_i64_str(t.as_str()),
        None => None,
    }
}

pub open spec fn mib_of(b: Option<i64>) -> Option<int> {
    match b {
        Some(x) => Some(mib_hundredths(x as int)),
        None => None,
    }
}

fn mib(b: Option<i64>) -> (r: Option<i128>)
    ensures
        match r {
            Some(x) => mib_of(b) == Some(x as int),
            None => mib_of(b).is_none(),
        },
{
    match b {
        Some(x) => Some(bytes_to_mib(x)),
        None => None,
    }
}

/// Capacity minus free space, in MiB.
pub open spec fn consumed_mib(capacity: Option<i64>, free: Option<i64>) -> Option<int> {
    match (capacity, free) {
        (Some(c), Some(f)) => Some(mib_hundredths(c - f)),
        _ => None,
    }
}

fn consumed(capacity: Option<i64>, free: Option<i64>) -> (r: Option<i128>)
    ensures
        match r {
            Some(x) => consumed_mib(capacity, free) == Some(x as int),
            None => consumed_mib(capacity, free).is_none(),
        },
{
    match (capacity, free) {
        (Some(c), Some(f)) => {
            let n: i128 = (c as i128 - f as i128) * 100;
            Some(div_round_wide(n, 1048576))
        },
        _ => None,
    }
}

/// Whether a device belongs on this sheet.
pub open spec fn selected(d: XNode) -> bool {
    true
}

fn is_selected(d: &Element) -> (r: bool)
    ensures
        r == selected(d@),
{
    true
}

/// A guest filesystem's row: sizes in MiB, consumed derived as capacity minus free, and the free share empty without a capacity.
pub open spec fn device_cells(ctx: VmContextView, d: XNode) -> Seq<CellValue> {
    vm_head(ctx) + seq![
        opt_text_value(text_of(d, "diskPath"@)),
        opt_text_value(text_of(d, "filesystemType"@)),
        hundredths_value(mib_of(bytes_at(d, "capacity"@))),
        hundredths_value(consumed_mib(bytes_at(d, "capacity"@), bytes_at(d, "freeSpace"@))),
        hundredths_value(mib_of(bytes_at(d, "freeSpace"@))),
        hundredths_value(percent_of(bytes_at(d, "freeSpace"@), bytes_at(d, "capacity"@))),
    ] + vm_tail(ctx)
}

fn device_row(ctx: &VmContext, d: &Element) -> (r: Vec<Cell>)
    ensures
        row_view(r) == device_cells(ctx@, d@),
{
    let cap = bytes(d, "capacity");
    let free = bytes(d, "freeSpace");
    let mid = vec![
        Cell::opt_text(text(d, "diskPath")),
        Cell::opt_text(text(d, "filesystemType")),
        opt_hundredths(mib(cap)),
        opt_hundredths(consumed(cap, free)),
        opt_hundredths(mib(free)),
        opt_hundredths(percent(free, cap)),
    ];
    let r = append_cells(append_cells(vm_head_cells(ctx), mid), vm_tail_cells(ctx));
    proof { assert(row_view(r) =~= device_cells(ctx@, d@)); }
    r
}

/// The rows of a VM's devices that belong on this sheet, in order.
pub open spec fn device_rows(ctx: VmContextView, ds: Seq<XNode>) -> Seq<Seq<CellValue>>
    decreases ds.len(),
{
    if ds.len() == 0 {
        Seq::empty()
    } else if selected(ds.last()) {
        device_rows(ctx, ds.drop_last()).push(device_cells(ctx, ds.last()))
    } else {
        device_rows(ctx, ds.drop_last())
    }
}

/// A VM's rows: one per selected device, none for a vCLS VM, an error for
/// a nameless VM.
pub open spec fn object_rows_of(vm: MoView, names: Seq<(Seq<char>, Seq<char>)>) -> Result<Seq<Seq<CellValue>>, Seq<char>> {
    match vm_context_of(vm, names) {
        Err(e) => Err(e),
        Ok(None) => Ok(Seq::empty()),
        Ok(Some(ctx)) => Ok(device_rows(ctx, array_prop_of(vm, "guest.disk"@))),
    }
}

pub fn object_rows(vm: &ManagedObject, names: &Vec<(String, String)>) -> (r: Result<Vec<Vec<Cell>>, String>)
    ensures
        match r {
            Ok(v) => object_rows_of(vm@, names_view(names@)) == Ok::<Seq<Seq<CellValue>>, Seq<char>>(rows_view(v@)),
            Err(e) => object_rows_of(vm@, names_view(names@)) == Err::<Seq<Seq<CellValue>>, Seq<char>>(e@),
        },
{
    let ctx = match VmContext::from(vm, names) {
        Err(e) => return Err(e),
        Ok(None) => {
            let v: Vec<Vec<Cell>> = Vec::new();
            proof { assert(rows_view(v@) =~= Seq::<Seq<CellValue>>::empty()); }
            return Ok(v);
        },
        Ok(Some(c)) => c,
    };
    let ds = vm.array_prop("guest.disk");
    let ghost dv = array_prop_of(vm@, "guest.disk"@);
    let mut out: Vec<Vec<Cell>> = Vec::new();
    let mut i: usize = 0;
    proof { assert(rows_view(out@) =~= device_rows(ctx@, dv.take(0))); }
    while i < ds.len()
        invariant
            i <= ds@.len(),
            ds@.len() == dv.len(),
            dv == array_prop_of(vm@, "guest.disk"@),
            forall|k: int| 0 <= k < dv.len() ==> (#[trigger] ds@[k])@ == dv[k],
            rows_view(out@) =~= device_rows(ctx@, dv.take(i as int)),
        decreases ds.len() - i,
    {
        proof {
            assert(dv.take(i + 1).drop_last() =~= dv.take(i as int));
            assert(dv.take(i + 1).last() == ds@[i as int]@);
        }
        if is_selected(ds[i]) {
            let row = device_row(&ctx, ds[i]);
            let ghost before = out@;
            out.push(row);
            proof { assert(rows_view(out@) =~= rows_view(before).push(row_view(row))); }
        }
        i += 1;
    }
    proof { assert(dv.take(dv.len() as int) =~= dv); }
    Ok(out)
}

/// vPartition: one row per filesystem the guest reports, each with its VM's moref; vCLS VMs are left out and the first nameless VM is an error.
pub fn rows(snap: &InventorySnapshot) -> (r: Result<Vec<(String, Vec<Cell>)>, String>)
    ensures
        match r {
            Ok(v) => per_object_rows_of(PerObject::Partition, mos(snap.vms@), names_view(snap.host_names@))
                == Ok::<Seq<(Seq<char>, Seq<CellValue>)>, Seq<char>>(tagged_rows(v@)),
            Err(e) => per_object_rows_of(PerObject::Partition, mos(snap.vms@), names_view(snap.host_names@))
                == Err::<Seq<(Seq<char>, Seq<CellValue>)>, Seq<char>>(e@),
        },
{
    per_object_rows(PerObject::Partition, &snap.vms, &snap.host_names)
}
/// Every device row has one cell per column.
pub proof fn lemma_device_rows_width(ctx: VmContextView, ds: Seq<XNode>)
    ensures
        crate::data::all_width(device_rows(ctx, ds), column_spec().len() as int),
    decreases ds.len(),
{
    if ds.len() > 0 {
        lemma_device_rows_width(ctx, ds.drop_last());
        let prev = device_rows(ctx, ds.drop_last());
        let all = device_rows(ctx, ds);
        assert forall|i: int| 0 <= i < all.len() implies (#[trigger] all[i]).len() == column_spec().len() by {
            if i < prev.len() {
                assert(all[i] == prev[i]);
            }
        }
    }
}

} // verus!
