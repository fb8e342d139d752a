//! vNIC — one row per physical network adapter.

use vstd::prelude::*;
use super::{
    hundredths_value,
    opt_bool_value,
    opt_hundredths,
    opt_text_value,
    row_view,
    rows_view,
    Cell,
    CellValue,
    Column,
    ColumnKind,
    columns_view,
};
use super::common::no_name_error;
use super::per_object::{mos, per_object_rows, per_object_rows_of, true_at, true_at_el, PerObject};
use super::snapshot::{names_view, InventorySnapshot};
use super::vdisk::{number, number_of, tagged_rows, text, text_of};
use crate::vcenter::soap::{array_prop_of, str_prop_of, ManagedObject, MoView};
use crate::vcenter::xml::{Element, XNode};
use super::common::lookup;
use super::hostnet::{attachment_of, attachments_view, pnic_attachments, pnic_attachments_of, AttachView, PnicAttachment};

verus! {

/// The sheet's columns, labels as RVTools writes them.
pub open spec fn column_spec() -> Seq<(Seq<char>, ColumnKind)> {
    seq![
        ("Host"@, ColumnKind::Text),
        ("Network Device"@, ColumnKind::Text),
        ("Driver"@, ColumnKind::Text),
        ("Speed"@, ColumnKind::Number),
        ("Duplex"@, ColumnKind::Bool),
        ("MAC"@, ColumnKind::Text),
        ("Switch"@, ColumnKind::Text),
        ("Uplink port"@, ColumnKind::Text),
        ("PCI"@, ColumnKind::Text),
        ("WakeOn"@, ColumnKind::Bool),
    ]
}

/// Which column a label names; `-1` for none.
#[verifier::opaque]
pub open spec fn label_index(s: Seq<char>) -> int {
    if s == "Host"@ {
        0
    } else if s == "Network Device"@ {
        1
    } else if s == "Driver"@ {
        2
    } else if s == "Speed"@ {
        3
    } else if s == "Duplex"@ {
        4
    } else if s == "MAC"@ {
        5
    } else if s == "Switch"@ {
        6
    } else if s == "Uplink port"@ {
        7
    } else if s == "PCI"@ {
        8
    } else if s == "WakeOn"@ {
        9
    } else {
        -1
    }
}

/// The sheet's labels are distinct, and none is `VI SDK Server`.
pub proof fn lemma_labels_ok()
    ensures
        super::labels_ok(column_spec()),
{
    reveal(label_index);
    reveal_strlit("Host");
    assert("Host"@.len() == 4);
    reveal_strlit("Network Device");
    assert("Network Device"@.len() == 14);
    reveal_strlit("Driver");
    assert("Driver"@.len() == 6);
    reveal_strlit("Speed");
    assert("Speed"@.len() == 5);
    reveal_strlit("Duplex");
    assert("Duplex"@.len() == 6);
    reveal_strlit("MAC");
    assert("MAC"@.len() == 3);
    reveal_strlit("Switch");
    assert("Switch"@.len() == 6);
    reveal_strlit("Uplink port");
    assert("Uplink port"@.len() == 11);
    reveal_strlit("PCI");
    assert("PCI"@.len() == 3);
    reveal_strlit("WakeOn");
    assert("WakeOn"@.len() == 6);
    reveal_strlit("VI SDK Server");
    assert("VI SDK Server"@.len() == 13);
    assert("Driver"@[1] == 'r');
    assert("Duplex"@[1] == 'u');
    assert("Driver"@[0] == 'D');
    assert("Switch"@[0] == 'S');
    assert("WakeOn"@[0] == 'W');
    assert("Duplex"@[0] == 'D');
    assert("MAC"@[0] == 'M');
    assert("PCI"@[0] == 'P');
    let cols = column_spec();
    assert(label_index(super::VI_SDK_SERVER@) == -1);
    assert forall|i: int| 0 <= i < cols.len() implies label_index(#[trigger] cols[i].0) == i by {
        if i == 0 {
                    assert(label_index(cols[0].0) == 0);
                } else if i == 1 {
                    assert(label_index(cols[1].0) == 1);
                } else if i == 2 {
                    assert(label_index(cols[2].0) == 2);
                } else if i == 3 {
                    assert(label_index(cols[3].0) == 3);
                } else if i == 4 {
                    assert(label_index(cols[4].0) == 4);
                } else if i == 5 {
                    assert(label_index(cols[5].0) == 5);
                } else if i == 6 {
                    assert(label_index(cols[6].0) == 6);
                } else if i == 7 {
                    assert(label_index(cols[7].0) == 7);
                } else if i == 8 {
                    assert(label_index(cols[8].0) == 8);
                } else if i == 9 {
                    assert(label_index(cols[9].0) == 9);
                }
    }
}

pub fn columns() -> (r: Vec<Column>)
    ensures
        columns_view(r@) == column_spec(),
{
    let r = vec![
        Column::text("Host"),
        Column::text("Network Device"),
        Column::text("Driver"),
        Column::number("Speed"),
        Column::bool("Duplex"),
        Column::text("MAC"),
        Column::text("Switch"),
        Column::text("Uplink port"),
        Column::text("PCI"),
        Column::bool("WakeOn"),
    ];
    proof { assert(columns_view(r@) =~= column_spec()); }
    r
}

/// The attachment of a NIC, found by its device name.
pub open spec fn attached_to(atts: Seq<(Seq<char>, AttachView)>, d: XNode) -> Option<AttachView> {
    match text_of(d, "device"@) {
        Some(dev) => lookup(atts, dev),
        None => None,
    }
}

/// A physical NIC's row: a NIC with no link reports no speed, and only a NIC attached to a distributed switch names one.
pub open spec fn item_cells(name: Seq<char>, atts: Seq<(Seq<char>, AttachView)>, d: XNode) -> Seq<CellValue> {
    seq![
        CellValue::Text(name),
        opt_text_value(text_of(d, "device"@)),
        opt_text_value(text_of(d, "driver"@)),
        hundredths_value(number_of(d, "linkSpeed/speedMb"@)),
        opt_bool_value(true_at(Some(d), "linkSpeed/duplex"@)),
        opt_text_value(text_of(d, "mac"@)),
        opt_text_value(match attached_to(atts, d) { Some(a) => a.switch, None => None }),
        opt_text_value(match attached_to(atts, d) { Some(a) => a.uplink_port, None => None }),
        opt_text_value(text_of(d, "pci"@)),
        opt_bool_value(true_at(Some(d), "wakeOnLanSupported"@)),
    ]
}

fn item_row(name: &String, atts: &Vec<(String, PnicAttachment)>, d: &Element) -> (r: Vec<Cell>)
    ensures
        row_view(r) == item_cells(name@, attachments_view(atts@), d@),
{
    let att = match text(d, "device") {
        Some(dev) => attachment_of(atts, dev.as_str()),
        None => None,
    };
    let r = vec![
        Cell::Text(name.clone()),
        Cell::opt_text(text(d, "device")),
        Cell::opt_text(text(d, "driver")),
        opt_hundredths(number(d, "linkSpeed/speedMb")),
        Cell::opt_bool(true_at_el(Some(d), "linkSpeed/duplex")),
        Cell::opt_text(text(d, "mac")),
        Cell::opt_text(match att { Some(a) => crate::text::clone_opt(&a.switch), None => None }),
        Cell::opt_text(match att { Some(a) => crate::text::clone_opt(&a.uplink_port), None => None }),
        Cell::opt_text(text(d, "pci")),
        Cell::opt_bool(true_at_el(Some(d), "wakeOnLanSupported")),
    ];
    proof { assert(row_view(r) =~= item_cells(name@, attachments_view(atts@), d@)); }
    r
}

/// A host's rows: one per item, or an error for a nameless host.
pub open spec fn object_rows_of(h: MoView) -> Result<Seq<Seq<CellValue>>, Seq<char>> {
    match str_prop_of(h, "name"@) {
        None => Err(no_name_error("HostSystem "@, h.moref)),
        Some(n) => Ok(array_prop_of(h, "config.network.pnic"@).map_values(|d: XNode| item_cells(n, pnic_attachments_of(h), d))),
    }
}

pub fn object_rows(h: &ManagedObject) -> (r: Result<Vec<Vec<Cell>>, String>)
    ensures
        match r {
            Ok(v) => object_rows_of(h@) == Ok::<Seq<Seq<CellValue>>, Seq<char>>(rows_view(v@)),
            Err(e) => object_rows_of(h@) == Err::<Seq<Seq<CellValue>>, Seq<char>>(e@),
        },
{
    let name = match h.str_prop("name") {
        Some(n) => n,
        None => return Err(String::from_str("HostSystem ").concat(h.moref.as_str()).concat(" returned no name property")),
    };
    let atts = pnic_attachments(h);
    let ds = h.array_prop("config.network.pnic");
    let ghost dv = array_prop_of(h@, "config.network.pnic"@);
    let ghost want = dv.map_values(|d: XNode| item_cells(name@, pnic_attachments_of(h@), d));
    let mut out: Vec<Vec<Cell>> = Vec::new();
    let mut i: usize = 0;
    while i < ds.len()
        invariant
            i <= ds@.len(),
            ds@.len() == dv.len(),
            dv == array_prop_of(h@, "config.network.pnic"@),
            want == dv.map_values(|d: XNode| item_cells(name@, pnic_attachments_of(h@), d)),
            attachments_view(atts@) == pnic_attachments_of(h@),
            forall|k: int| 0 <= k < dv.len() ==> (#[trigger] ds@[k])@ == dv[k],
            rows_view(out@) =~= want.take(i as int),
        decreases ds.len() - i,
    {
        let row = item_row(&name, &atts, ds[i]);
        let ghost before = out@;
        out.push(row);
        proof {
            assert(rows_view(out@) =~= rows_view(before).push(row_view(row)));
            assert(want.take(i + 1) =~= want.take(i as int).push(want[i as int]));
        }
        i += 1;
    }
    proof { assert(want.take(want.len() as int) =~= want); }
    Ok(out)
}

/// vNIC: one row per physical network adapter, each with its host's moref; the first nameless host is an error.
pub fn rows(snap: &InventorySnapshot) -> (r: Result<Vec<(String, Vec<Cell>)>, String>)
    ensures
        match r {
            Ok(v) => per_object_rows_of(PerObject::Nic, mos(snap.hosts@), names_view(snap.host_names@))
                == Ok::<Seq<(Seq<char>, Seq<CellValue>)>, Seq<char>>(tagged_rows(v@)),
            Err(e) => per_object_rows_of(PerObject::Nic, mos(snap.hosts@), names_view(snap.host_names@))
                == Err::<Seq<(Seq<char>, Seq<CellValue>)>, Seq<char>>(e@),
        },
{
    per_object_rows(PerObject::Nic, &snap.hosts, &snap.host_names)
}
} // verus!
