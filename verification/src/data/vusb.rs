//! vUSB — one row per USB device attached to a VM.

use vstd::prelude::*;
use super::{
    append_cells,
    columns_view,
    hundredths_value,
    opt_bool_value,
    opt_hundredths,
    opt_text_value,
    row_view,
    rows_view,
    Cell,
    CellValue,
    Column,
    ColumnKind,
};
use super::common::{vm_context_of, VmContext, VmContextView};
use super::per_object::{
    backing_type,
    backing_type_of,
    mos,
    per_object_rows,
    per_object_rows_of,
    true_at,
    true_at_el,
    vm_head,
    vm_head_cells,
    vm_tail,
    vm_tail_cells,
    PerObject,
};
use super::snapshot::{names_view, InventorySnapshot};
use super::vdisk::{number, number_of, tagged_rows, text, text_of};
use crate::vcenter::soap::{array_prop_of, ManagedObject, MoView};
use crate::vcenter::xml::{text_at_path, Element, XNode};
use crate::text::str_eq;

verus! {

/// The sheet's columns, labels as RVTools writes them.
pub open spec fn column_spec() -> Seq<(Seq<char>, ColumnKind)> {
    seq![
        ("VM"@, ColumnKind::Text),
        ("Powerstate"@, ColumnKind::Text),
        ("Template"@, ColumnKind::Bool),
        ("Device Node"@, ColumnKind::Text),
        ("Device Type"@, ColumnKind::Text),
        ("Connected"@, ColumnKind::Bool),
        ("Unit number"@, ColumnKind::Number),
        ("Summary"@, ColumnKind::Text),
        ("Host"@, ColumnKind::Text),
        ("Annotation"@, ColumnKind::Text),
    ]
}

/// Which column a label names; `-1` for none.
#[verifier::opaque]
pub open spec fn label_index(s: Seq<char>) -> int {
    if s == "VM"@ {
        0
    } else if s == "Powerstate"@ {
        1
    } else if s == "Template"@ {
        2
    } else if s == "Device Node"@ {
        3
    } else if s == "Device Type"@ {
        4
    } else if s == "Connected"@ {
        5
    } else if s == "Unit number"@ {
        6
    } else if s == "Summary"@ {
        7
    } else if s == "Host"@ {
        8
    } else if s == "Annotation"@ {
        9
    } else {
        -1
    }
}

/// The sheet's labels are distinct, and none is `VI SDK Server`.
pub proof fn lemma_labels_ok()
    ensures
        super::labels_ok(column_spec()),
{
    reveal(label_index);
    reveal_strlit("VM");
    assert("VM"@.len() == 2);
    reveal_strlit("Powerstate");
    assert("Powerstate"@.len() == 10);
    reveal_strlit("Template");
    assert("Template"@.len() == 8);
    reveal_strlit("Device Node");
    assert("Device Node"@.len() == 11);
    reveal_strlit("Device Type");
    assert("Device Type"@.len() == 11);
    reveal_strlit("Connected");
    assert("Connected"@.len() == 9);
    reveal_strlit("Unit number");
    assert("Unit number"@.len() == 11);
    reveal_strlit("Summary");
    assert("Summary"@.len() == 7);
    reveal_strlit("Host");
    assert("Host"@.len() == 4);
    reveal_strlit("Annotation");
    assert("Annotation"@.len() == 10);
    reveal_strlit("VI SDK Server");
    assert("VI SDK Server"@.len() == 13);
    assert("Powerstate"@[0] == 'P');
    assert("Annotation"@[0] == 'A');
    assert("Device Node"@[7] == 'N');
    assert("Device Type"@[7] == 'T');
    assert("Device Node"@[0] == 'D');
    assert("Unit number"@[0] == 'U');
    assert("Device Type"@[0] == 'D');
    let cols = column_spec();
    assert(label_index(super::VI_SDK_SERVER@) == -1);
    assert forall|i: int| 0 <= i < cols.len() implies label_index(#[trigger] cols[i].0) == i by {
        if i == 0 {
                    assert(label_index(cols[0].0) == 0);
                } else if i == 1 {
                    assert(label_index(cols[1].0) == 1);
                } else if i == 2 {
                    assert(label_index(cols[2].0) == 2);
                } else if i == 3 {
                    assert(label_index(cols[3].0) == 3);
                } else if i == 4 {
                    assert(label_index(cols[4].0) == 4);
                } else if i == 5 {
                    assert(label_index(cols[5].0) == 5);
                } else if i == 6 {
                    assert(label_index(cols[6].0) == 6);
                } else if i == 7 {
                    assert(label_index(cols[7].0) == 7);
                } else if i == 8 {
                    assert(label_index(cols[8].0) == 8);
                } else if i == 9 {
                    assert(label_index(cols[9].0) == 9);
                }
    }
}

pub fn columns() -> (r: Vec<Column>)
    ensures
        columns_view(r@) == column_spec(),
{
    let r = vec![
        Column::text("VM"),
        Column::text("Powerstate"),
        Column::bool("Template"),
        Column::text("Device Node"),
        Column::text("Device Type"),
        Column::bool("Connected"),
        Column::number("Unit number"),
        Column::text("Summary"),
        Column::text("Host"),
        Column::text("Annotation"),
    ];
    proof { assert(columns_view(r@) =~= column_spec()); }
    r
}

/// Attached USB devices, not the controllers they hang off.
pub fn is_usb_device(xsi_type: &str) -> (r: bool)
    ensures
        r == (xsi_type@ == "VirtualUSB"@),
{
    str_eq(xsi_type, "VirtualUSB")
}

/// Whether a USB device is connected: its own `connected` flag, or the
/// `connectable` one.
pub open spec fn usb_connected(d: XNode) -> Option<bool> {
    match text_at_path(d, "connected"@) {
        Some(v) => Some(v == "true"@),
        None => true_at(Some(d), "connectable/connected"@),
    }
}

fn connected(d: &Element) -> (r: Option<bool>)
    ensures
        r == usb_connected(d@),
{
    match d.text_at("connected") {
        Some(v) => Some(crate::text::str_eq(v.as_str(), "true")),
        None => true_at_el(Some(d), "connectable/connected"),
    }
}

/// Whether a device belongs on this sheet.
pub open spec fn selected(d: XNode) -> bool {
    d.xsi_type == Some("VirtualUSB"@)
}

fn is_selected(d: &Element) -> (r: bool)
    ensures
        r == selected(d@),
{
    match &d.xsi_type {
        Some(t) => is_usb_device(t.as_str()),
        None => false,
    }
}

/// A USB device's row.
pub open spec fn device_cells(ctx: VmContextView, d: XNode) -> Seq<CellValue> {
    vm_head(ctx) + seq![
        opt_text_value(text_at_path(d, "deviceInfo/label"@)),
        opt_text_value(backing_type(d)),
        opt_bool_value(usb_connected(d)),
        hundredths_value(number_of(d, "unitNumber"@)),
        opt_text_value(text_of(d, "deviceInfo/summary"@)),
    ] + vm_tail(ctx)
}

fn device_row(ctx: &VmContext, d: &Element) -> (r: Vec<Cell>)
    ensures
        row_view(r) == device_cells(ctx@, d@),
{
    let mid = vec![
        Cell::opt_text(d.text_at("deviceInfo/label")),
        Cell::opt_text(backing_type_of(d)),
        Cell::opt_bool(connected(d)),
        opt_hundredths(number(d, "unitNumber")),
        Cell::opt_text(text(d, "deviceInfo/summary")),
    ];
    let r = append_cells(append_cells(vm_head_cells(ctx), mid), vm_tail_cells(ctx));
    proof { assert(row_view(r) =~= device_cells(ctx@, d@)); }
    r
}

/// The rows of a VM's devices that belong on this sheet, in order.
pub open spec fn device_rows(ctx: VmContextView, ds: Seq<XNode>) -> Seq<Seq<CellValue>>
    decreases ds.len(),
{
    if ds.len() == 0 {
        Seq::empty()
    } else if selected(ds.last()) {
        device_rows(ctx, ds.drop_last()).push(device_cells(ctx, ds.last()))
    } else {
        device_rows(ctx, ds.drop_last())
    }
}

/// A VM's rows: one per selected device, none for a vCLS VM, an error for
/// a nameless VM.
pub open spec fn object_rows_of(vm: MoView, names: Seq<(Seq<char>, Seq<char>)>) -> Result<Seq<Seq<CellValue>>, Seq<char>> {
    match vm_context_of(vm, names) {
        Err(e) => Err(e),
        Ok(None) => Ok(Seq::empty()),
        Ok(Some(ctx)) => Ok(device_rows(ctx, array_prop_of(vm, "config.hardware.device"@))),
    }
}

pub fn object_rows(vm: &ManagedObject, names: &Vec<(String, String)>) -> (r: Result<Vec<Vec<Cell>>, String>)
    ensures
        match r {
            Ok(v) => object_rows_of(vm@, names_view(names@)) == Ok::<Seq<Seq<CellValue>>, Seq<char>>(rows_view(v@)),
            Err(e) => object_rows_of(vm@, names_view(names@)) == Err::<Seq<Seq<CellValue>>, Seq<char>>(e@),
        },
{
    let ctx = match VmContext::from(vm, names) {
        Err(e) => return Err(e),
        Ok(None) => {
            let v: Vec<Vec<Cell>> = Vec::new();
            proof { assert(rows_view(v@) =~= Seq::<Seq<CellValue>>::empty()); }
            return Ok(v);
        },
        Ok(Some(c)) => c,
    };
    let ds = vm.array_prop("config.hardware.device");
    let ghost dv = array_prop_of(vm@, "config.hardware.device"@);
    let mut out: Vec<Vec<Cell>> = Vec::new();
    let mut i: usize = 0;
    proof { assert(rows_view(out@) =~= device_rows(ctx@, dv.take(0))); }
    while i < ds.len()
        invariant
            i <= ds@.len(),
            ds@.len() == dv.len(),
            dv == array_prop_of(vm@, "config.hardware.device"@),
            forall|k: int| 0 <= k < dv.len() ==> (#[trigger] ds@[k])@ == dv[k],
            rows_view(out@) =~= device_rows(ctx@, dv.take(i as int)),
        decreases ds.len() - i,
    {
        proof {
            assert(dv.take(i + 1).drop_last() =~= dv.take(i as int));
            assert(dv.take(i + 1).last() == ds@[i as int]@);
        }
        if is_selected(ds[i]) {
            let row = device_row(&ctx, ds[i]);
            let ghost before = out@;
            out.push(row);
            proof { assert(rows_view(out@) =~= rows_view(before).push(row_view(row))); }
        }
        i += 1;
    }
    proof { assert(dv.take(dv.len() as int) =~= dv); }
    Ok(out)
}

/// vUSB: one row per attached USB device (not the controllers they hang off), each with its VM's moref; vCLS VMs are left out and the first nameless VM is an error.
pub fn rows(snap: &InventorySnapshot) -> (r: Result<Vec<(String, Vec<Cell>)>, String>)
    ensures
        match r {
            Ok(v) => per_object_rows_of(PerObject::Usb, mos(snap.vms@), names_view(snap.host_names@))
                == Ok::<Seq<(Seq<char>, Seq<CellValue>)>, Seq<char>>(tagged_rows(v@)),
            Err(e) => per_object_rows_of(PerObject::Usb, mos(snap.vms@), names_view(snap.host_names@))
                == Err::<Seq<(Seq<char>, Seq<CellValue>)>, Seq<char>>(e@),
        },
{
    per_object_rows(PerObject::Usb, &snap.vms, &snap.host_names)
}
/// Every device row has one cell per column.
pub proof fn lemma_device_rows_width(ctx: VmContextView, ds: Seq<XNode>)
    ensures
        crate::data::all_width(device_rows(ctx, ds), column_spec().len() as int),
    decreases ds.len(),
{
    if ds.len() > 0 {
        lemma_device_rows_width(ctx, ds.drop_last());
        let prev = device_rows(ctx, ds.drop_last());
        let all = device_rows(ctx, ds);
        assert forall|i: int| 0 <= i < all.len() implies (#[trigger] all[i]).len() == column_spec().len() by {
            if i < prev.len() {
                assert(all[i] == prev[i]);
            }
        }
    }
}

} // verus!
