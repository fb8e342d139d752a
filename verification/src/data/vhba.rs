//! vHBA — one row per host bus adapter.

use vstd::prelude::*;
use super::{opt_text_value, row_view, rows_view, Cell, CellValue, Column, ColumnKind, columns_view};
use super::common::no_name_error;
use super::per_object::{mos, per_object_rows, per_object_rows_of, PerObject};
use super::snapshot::{names_view, InventorySnapshot};
use super::vdisk::{tagged_rows, text, text_of};
use crate::vcenter::soap::{array_prop_of, str_prop_of, ManagedObject, MoView};
use crate::vcenter::xml::{Element, XNode};

verus! {

/// The sheet's columns, labels as RVTools writes them.
pub open spec fn column_spec() -> Seq<(Seq<char>, ColumnKind)> {
    seq![
        ("Host"@, ColumnKind::Text),
        ("Device"@, ColumnKind::Text),
        ("Type"@, ColumnKind::Text),
        ("Status"@, ColumnKind::Text),
        ("Bus"@, ColumnKind::Text),
        ("Pci"@, ColumnKind::Text),
        ("Driver"@, ColumnKind::Text),
        ("Model"@, ColumnKind::Text),
        ("WWN"@, ColumnKind::Text),
    ]
}

/// Which column a label names; `-1` for none.
#[verifier::opaque]
pub open spec fn label_index(s: Seq<char>) -> int {
    if s == "Host"@ {
        0
    } else if s == "Device"@ {
        1
    } else if s == "Type"@ {
        2
    } else if s == "Status"@ {
        3
    } else if s == "Bus"@ {
        4
    } else if s == "Pci"@ {
        5
    } else if s == "Driver"@ {
        6
    } else if s == "Model"@ {
        7
    } else if s == "WWN"@ {
        8
    } else {
        -1
    }
}

/// The sheet's labels are distinct, and none is `VI SDK Server`.
pub proof fn lemma_labels_ok()
    ensures
        super::labels_ok(column_spec()),
{
    reveal(label_index);
    reveal_strlit("Host");
    assert("Host"@.len() == 4);
    reveal_strlit("Device");
    assert("Device"@.len() == 6);
    reveal_strlit("Type");
    assert("Type"@.len() == 4);
    reveal_strlit("Status");
    assert("Status"@.len() == 6);
    reveal_strlit("Bus");
    assert("Bus"@.len() == 3);
    reveal_strlit("Pci");
    assert("Pci"@.len() == 3);
    reveal_strlit("Driver");
    assert("Driver"@.len() == 6);
    reveal_strlit("Model");
    assert("Model"@.len() == 5);
    reveal_strlit("WWN");
    assert("WWN"@.len() == 3);
    reveal_strlit("VI SDK Server");
    assert("VI SDK Server"@.len() == 13);
    assert("Host"@[0] == 'H');
    assert("Type"@[0] == 'T');
    assert("Device"@[0] == 'D');
    assert("Status"@[0] == 'S');
    assert("Device"@[1] == 'e');
    assert("Driver"@[1] == 'r');
    assert("Driver"@[0] == 'D');
    assert("Bus"@[0] == 'B');
    assert("Pci"@[0] == 'P');
    assert("WWN"@[0] == 'W');
    let cols = column_spec();
    assert(label_index(super::VI_SDK_SERVER@) == -1);
    assert forall|i: int| 0 <= i < cols.len() implies label_index(#[trigger] cols[i].0) == i by {
        if i == 0 {
                    assert(label_index(cols[0].0) == 0);
                } else if i == 1 {
                    assert(label_index(cols[1].0) == 1);
                } else if i == 2 {
                    assert(label_index(cols[2].0) == 2);
                } else if i == 3 {
                    assert(label_index(cols[3].0) == 3);
                } else if i == 4 {
                    assert(label_index(cols[4].0) == 4);
                } else if i == 5 {
                    assert(label_index(cols[5].0) == 5);
                } else if i == 6 {
                    assert(label_index(cols[6].0) == 6);
                } else if i == 7 {
                    assert(label_index(cols[7].0) == 7);
                } else if i == 8 {
                    assert(label_index(cols[8].0) == 8);
                }
    }
}

pub fn columns() -> (r: Vec<Column>)
    ensures
        columns_view(r@) == column_spec(),
{
    let r = vec![
        Column::text("Host"),
        Column::text("Device"),
        Column::text("Type"),
        Column::text("Status"),
        Column::text("Bus"),
        Column::text("Pci"),
        Column::text("Driver"),
        Column::text("Model"),
        Column::text("WWN"),
    ];
    proof { assert(columns_view(r@) =~= column_spec()); }
    r
}

/// A host bus adapter's row; its type is the concrete adapter class.
pub open spec fn item_cells(name: Seq<char>, d: XNode) -> Seq<CellValue> {
    seq![
        CellValue::Text(name),
        opt_text_value(text_of(d, "device"@)),
        opt_text_value(d.xsi_type),
        opt_text_value(text_of(d, "status"@)),
        opt_text_value(text_of(d, "bus"@)),
        opt_text_value(text_of(d, "pci"@)),
        opt_text_value(text_of(d, "driver"@)),
        opt_text_value(text_of(d, "model"@)),
        opt_text_value(text_of(d, "nodeWorldWideName"@)),
    ]
}

fn item_row(name: &String, d: &Element) -> (r: Vec<Cell>)
    ensures
        row_view(r) == item_cells(name@, d@),
{
    let r = vec![
        Cell::Text(name.clone()),
        Cell::opt_text(text(d, "device")),
        Cell::opt_text(crate::text::clone_opt(&d.xsi_type)),
        Cell::opt_text(text(d, "status")),
        Cell::opt_text(text(d, "bus")),
        Cell::opt_text(text(d, "pci")),
        Cell::opt_text(text(d, "driver")),
        Cell::opt_text(text(d, "model")),
        Cell::opt_text(text(d, "nodeWorldWideName")),
    ];
    proof { assert(row_view(r) =~= item_cells(name@, d@)); }
    r
}

/// A host's rows: one per item, or an error for a nameless host.
pub open spec fn object_rows_of(h: MoView) -> Result<Seq<Seq<CellValue>>, Seq<char>> {
    match str_prop_of(h, "name"@) {
        None => Err(no_name_error("HostSystem "@, h.moref)),
        Some(n) => Ok(array_prop_of(h, "config.storageDevice.hostBusAdapter"@).map_values(|d: XNode| item_cells(n, d))),
    }
}

pub fn object_rows(h: &ManagedObject) -> (r: Result<Vec<Vec<Cell>>, String>)
    ensures
        match r {
            Ok(v) => object_rows_of(h@) == Ok::<Seq<Seq<CellValue>>, Seq<char>>(rows_view(v@)),
            Err(e) => object_rows_of(h@) == Err::<Seq<Seq<CellValue>>, Seq<char>>(e@),
        },
{
    let name = match h.str_prop("name") {
        Some(n) => n,
        None => return Err(String::from_str("HostSystem ").concat(h.moref.as_str()).concat(" returned no name property")),
    };
    let ds = h.array_prop("config.storageDevice.hostBusAdapter");
    let ghost dv = array_prop_of(h@, "config.storageDevice.hostBusAdapter"@);
    let ghost want = dv.map_values(|d: XNode| item_cells(name@, d));
    let mut out: Vec<Vec<Cell>> = Vec::new();
    let mut i: usize = 0;
    while i < ds.len()
        invariant
            i <= ds@.len(),
            ds@.len() == dv.len(),
            dv == array_prop_of(h@, "config.storageDevice.hostBusAdapter"@),
            want == dv.map_values(|d: XNode| item_cells(name@, d)),
            forall|k: int| 0 <= k < dv.len() ==> (#[trigger] ds@[k])@ == dv[k],
            rows_view(out@) =~= want.take(i as int),
        decreases ds.len() - i,
    {
        let row = item_row(&name, ds[i]);
        let ghost before = out@;
        out.push(row);
        proof {
            assert(rows_view(out@) =~= rows_view(before).push(row_view(row)));
            assert(want.take(i + 1) =~= want.take(i as int).push(want[i as int]));
        }
        i += 1;
    }
    proof { assert(want.take(want.len() as int) =~= want); }
    Ok(out)
}

/// vHBA: one row per host bus adapter, each with its host's moref; the first nameless host is an error.
pub fn rows(snap: &InventorySnapshot) -> (r: Result<Vec<(String, Vec<Cell>)>, String>)
    ensures
        match r {
            Ok(v) => per_object_rows_of(PerObject::Hba, mos(snap.hosts@), names_view(snap.host_names@))
                == Ok::<Seq<(Seq<char>, Seq<CellValue>)>, Seq<char>>(tagged_rows(v@)),
            Err(e) => per_object_rows_of(PerObject::Hba, mos(snap.hosts@), names_view(snap.host_names@))
                == Err::<Seq<(Seq<char>, Seq<CellValue>)>, Seq<char>>(e@),
        },
{
    per_object_rows(PerObject::Hba, &snap.hosts, &snap.host_names)
}
} // verus!
