//! vSC_VMK — one row per VMkernel port.

use vstd::prelude::*;
use super::{
    columns_view,
    hundredths_value,
    opt_bool_value,
    opt_hundredths,
    opt_text_value,
    row_view,
    rows_view,
    Cell,
    CellValue,
    Column,
    ColumnKind,
};
use super::common::no_name_error;
use super::per_object::{mos, per_object_rows, per_object_rows_of, true_at, true_at_el, PerObject};
use super::snapshot::{lookup_name, name_lookup, names_view};
use super::vdisk::{number, number_of, tagged_rows, text, text_of};
use crate::vcenter::soap::{array_prop_of, str_prop_of, ManagedObject, MoView};
use crate::vcenter::xml::{opt_str_view, Element, XNode};

verus! {

/// The sheet's columns, labels as RVTools writes them.
pub open spec fn column_spec() -> Seq<(Seq<char>, ColumnKind)> {
    seq![
        ("Host"@, ColumnKind::Text),
        ("Port Group"@, ColumnKind::Text),
        ("Device"@, ColumnKind::Text),
        ("Mac Address"@, ColumnKind::Text),
        ("DHCP"@, ColumnKind::Bool),
        ("IP Address"@, ColumnKind::Text),
        ("Subnet mask"@, ColumnKind::Text),
        ("Gateway"@, ColumnKind::Text),
        ("MTU"@, ColumnKind::Number),
        ("TCP/IP Stack"@, ColumnKind::Text),
    ]
}

/// Which column a label names; `-1` for none.
#[verifier::opaque]
pub open spec fn label_index(s: Seq<char>) -> int {
    if s == "Host"@ {
        0
    } else if s == "Port Group"@ {
        1
    } else if s == "Device"@ {
        2
    } else if s == "Mac Address"@ {
        3
    } else if s == "DHCP"@ {
        4
    } else if s == "IP Address"@ {
        5
    } else if s == "Subnet mask"@ {
        6
    } else if s == "Gateway"@ {
        7
    } else if s == "MTU"@ {
        8
    } else if s == "TCP/IP Stack"@ {
        9
    } else {
        -1
    }
}

/// The sheet's labels are distinct, and none is `VI SDK Server`.
pub proof fn lemma_labels_ok()
    ensures
        super::labels_ok(column_spec()),
{
    reveal(label_index);
    reveal_strlit("Host");
    assert("Host"@.len() == 4);
    reveal_strlit("Port Group");
    assert("Port Group"@.len() == 10);
    reveal_strlit("Device");
    assert("Device"@.len() == 6);
    reveal_strlit("Mac Address");
    assert("Mac Address"@.len() == 11);
    reveal_strlit("DHCP");
    assert("DHCP"@.len() == 4);
    reveal_strlit("IP Address");
    assert("IP Address"@.len() == 10);
    reveal_strlit("Subnet mask");
    assert("Subnet mask"@.len() == 11);
    reveal_strlit("Gateway");
    assert("Gateway"@.len() == 7);
    reveal_strlit("MTU");
    assert("MTU"@.len() == 3);
    reveal_strlit("TCP/IP Stack");
    assert("TCP/IP Stack"@.len() == 12);
    reveal_strlit("VI SDK Server");
    assert("VI SDK Server"@.len() == 13);
    assert("Host"@[0] == 'H');
    assert("DHCP"@[0] == 'D');
    assert("Port Group"@[0] == 'P');
    assert("IP Address"@[0] == 'I');
    assert("Mac Address"@[0] == 'M');
    assert("Subnet mask"@[0] == 'S');
    let cols = column_spec();
    assert(label_index(super::VI_SDK_SERVER@) == -1);
    assert forall|i: int| 0 <= i < cols.len() implies label_index(#[trigger] cols[i].0) == i by {
        if i == 0 {
                    assert(label_index(cols[0].0) == 0);
                } else if i == 1 {
                    assert(label_index(cols[1].0) == 1);
                } else if i == 2 {
                    assert(label_index(cols[2].0) == 2);
                } else if i == 3 {
                    assert(label_index(cols[3].0) == 3);
                } else if i == 4 {
                    assert(label_index(cols[4].0) == 4);
                } else if i == 5 {
                    assert(label_index(cols[5].0) == 5);
                } else if i == 6 {
                    assert(label_index(cols[6].0) == 6);
                } else if i == 7 {
                    assert(label_index(cols[7].0) == 7);
                } else if i == 8 {
                    assert(label_index(cols[8].0) == 8);
                } else if i == 9 {
                    assert(label_index(cols[9].0) == 9);
                }
    }
}

pub fn columns() -> (r: Vec<Column>)
    ensures
        columns_view(r@) == column_spec(),
{
    let r = vec![
        Column::text("Host"),
        Column::text("Port Group"),
        Column::text("Device"),
        Column::text("Mac Address"),
        Column::bool("DHCP"),
        Column::text("IP Address"),
        Column::text("Subnet mask"),
        Column::text("Gateway"),
        Column::number("MTU"),
        Column::text("TCP/IP Stack"),
    ];
    proof { assert(columns_view(r@) =~= column_spec()); }
    r
}

/// The port group a VMkernel port sits on: a standard switch names it
/// inline; a distributed one gives a key, named through `names` where it can
/// be.
pub open spec fn portgroup_of(vmk: XNode, names: Seq<(Seq<char>, Seq<char>)>) -> Option<Seq<char>> {
    match text_of(vmk, "portgroup"@) {
        Some(p) => Some(p),
        None => match text_of(vmk, "spec/distributedVirtualPort/portgroupKey"@) {
            Some(k) => match name_lookup(names, k) {
                Some(n) => Some(n),
                None => Some(k),
            },
            None => None,
        },
    }
}

fn portgroup(vmk: &Element, names: &Vec<(String, String)>) -> (r: Option<String>)
    ensures
        opt_str_view(r) == portgroup_of(vmk@, names_view(names@)),
{
    match text(vmk, "portgroup") {
        Some(p) => Some(p),
        None => match text(vmk, "spec/distributedVirtualPort/portgroupKey") {
            Some(k) => match lookup_name(names, k.as_str()) {
                Some(n) => Some(n),
                None => Some(k),
            },
            None => None,
        },
    }
}

/// A VMkernel port's host, port group, device and addressing.
pub open spec fn vmk_cells(name: Seq<char>, vmk: XNode, names: Seq<(Seq<char>, Seq<char>)>) -> Seq<CellValue> {
    seq![
        CellValue::Text(name),
        opt_text_value(portgroup_of(vmk, names)),
        opt_text_value(text_of(vmk, "device"@)),
        opt_text_value(text_of(vmk, "spec/mac"@)),
        opt_bool_value(true_at(Some(vmk), "spec/ip/dhcp"@)),
        opt_text_value(text_of(vmk, "spec/ip/ipAddress"@)),
        opt_text_value(text_of(vmk, "spec/ip/subnetMask"@)),
        opt_text_value(text_of(vmk, "spec/ipRouteSpec/ipRouteConfig/defaultGateway"@)),
        hundredths_value(number_of(vmk, "spec/mtu"@)),
        opt_text_value(text_of(vmk, "spec/netStackInstanceKey"@)),
    ]
}

fn vmk_row(name: &String, vmk: &Element, names: &Vec<(String, String)>) -> (r: Vec<Cell>)
    ensures
        row_view(r) == vmk_cells(name@, vmk@, names_view(names@)),
{
    let r = vec![
        Cell::Text(name.clone()),
        Cell::opt_text(portgroup(vmk, names)),
        Cell::opt_text(text(vmk, "device")),
        Cell::opt_text(text(vmk, "spec/mac")),
        Cell::opt_bool(true_at_el(Some(vmk), "spec/ip/dhcp")),
        Cell::opt_text(text(vmk, "spec/ip/ipAddress")),
        Cell::opt_text(text(vmk, "spec/ip/subnetMask")),
        Cell::opt_text(text(vmk, "spec/ipRouteSpec/ipRouteConfig/defaultGateway")),
        opt_hundredths(number(vmk, "spec/mtu")),
        Cell::opt_text(text(vmk, "spec/netStackInstanceKey")),
    ];
    proof { assert(row_view(r) =~= vmk_cells(name@, vmk@, names_view(names@))); }
    r
}

/// A host's rows: one per VMkernel port, or an error for a nameless host.
pub open spec fn object_rows_of(h: MoView, names: Seq<(Seq<char>, Seq<char>)>) -> Result<Seq<Seq<CellValue>>, Seq<char>> {
    match str_prop_of(h, "name"@) {
        None => Err(no_name_error("HostSystem "@, h.moref)),
        Some(n) => Ok(array_prop_of(h, "config.network.vnic"@).map_values(|v: XNode| vmk_cells(n, v, names))),
    }
}

pub fn object_rows(h: &ManagedObject, names: &Vec<(String, String)>) -> (r: Result<Vec<Vec<Cell>>, String>)
    ensures
        match r {
            Ok(v) => object_rows_of(h@, names_view(names@)) == Ok::<Seq<Seq<CellValue>>, Seq<char>>(rows_view(v@)),
            Err(e) => object_rows_of(h@, names_view(names@)) == Err::<Seq<Seq<CellValue>>, Seq<char>>(e@),
        },
{
    let name = match h.str_prop("name") {
        Some(n) => n,
        None => return Err(String::from_str("HostSystem ").concat(h.moref.as_str()).concat(" returned no name property")),
    };
    let ds = h.array_prop("config.network.vnic");
    let ghost dv = array_prop_of(h@, "config.network.vnic"@);
    let ghost nv = names_view(names@);
    let ghost want = dv.map_values(|v: XNode| vmk_cells(name@, v, nv));
    let mut out: Vec<Vec<Cell>> = Vec::new();
    let mut i: usize = 0;
    while i < ds.len()
        invariant
            i <= ds@.len(),
            ds@.len() == dv.len(),
            dv == array_prop_of(h@, "config.network.vnic"@),
            nv == names_view(names@),
            want == dv.map_values(|v: XNode| vmk_cells(name@, v, nv)),
            forall|k: int| 0 <= k < dv.len() ==> (#[trigger] ds@[k])@ == dv[k],
            rows_view(out@) =~= want.take(i as int),
        decreases ds.len() - i,
    {
        let row = vmk_row(&name, ds[i], names);
        let ghost before = out@;
        out.push(row);
        proof {
            assert(rows_view(out@) =~= rows_view(before).push(row_view(row)));
            assert(want.take(i + 1) =~= want.take(i as int).push(want[i as int]));
        }
        i += 1;
    }
    proof { assert(want.take(want.len() as int) =~= want); }
    Ok(out)
}

/// vSC_VMK: one row per VMkernel port, each with its host's moref; the
/// first nameless host is an error. `names` names inventory objects by
/// moref, for distributed port groups.
pub fn rows(hosts: &Vec<ManagedObject>, names: &Vec<(String, String)>) -> (r: Result<Vec<(String, Vec<Cell>)>, String>)
    ensures
        match r {
            Ok(v) => per_object_rows_of(PerObject::Vmk, mos(hosts@), names_view(names@))
                == Ok::<Seq<(Seq<char>, Seq<CellValue>)>, Seq<char>>(tagged_rows(v@)),
            Err(e) => per_object_rows_of(PerObject::Vmk, mos(hosts@), names_view(names@))
                == Err::<Seq<(Seq<char>, Seq<CellValue>)>, Seq<char>>(e@),
        },
{
    per_object_rows(PerObject::Vmk, hosts, names)
}
} // verus!
