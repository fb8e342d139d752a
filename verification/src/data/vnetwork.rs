//! vNetwork — one row per virtual NIC.

use vstd::prelude::*;
use super::{append_cells, columns_view, opt_bool_value, opt_text_value, row_view, rows_view, Cell, CellValue, Column, ColumnKind};
use super::common::{key_pos, lemma_key_pos, lookup, vm_context_of, VmContext, VmContextView};
use super::per_object::{
    mos,
    per_object_rows,
    per_object_rows_of,
    true_at,
    true_at_el,
    vm_head,
    vm_head_cells,
    vm_tail,
    vm_tail_cells,
    PerObject,
};
use super::vdisk::{tagged_rows, text, text_of};
use super::snapshot::{lookup_name, name_lookup, names_view};
use crate::text::{chars_of, str_eq};
use crate::vcenter::soap::{array_prop_of, ManagedObject, MoView};
use crate::vcenter::xml::{child_of, named, opt_str_view, text_at_path, Element, XNode};

verus! {

/// The sheet's columns, labels as RVTools writes them.
pub open spec fn column_spec() -> Seq<(Seq<char>, ColumnKind)> {
    seq![
        ("VM"@, ColumnKind::Text),
        ("Powerstate"@, ColumnKind::Text),
        ("Template"@, ColumnKind::Bool),
        ("NIC label"@, ColumnKind::Text),
        ("Adapter"@, ColumnKind::Text),
        ("Network"@, ColumnKind::Text),
        ("Connected"@, ColumnKind::Bool),
        ("Starts Connected"@, ColumnKind::Bool),
        ("Mac Address"@, ColumnKind::Text),
        ("Type"@, ColumnKind::Text),
        ("IPv4 Address"@, ColumnKind::Text),
        ("Host"@, ColumnKind::Text),
        ("Annotation"@, ColumnKind::Text),
    ]
}

/// Which column a label names; `-1` for none.
#[verifier::opaque]
pub open spec fn label_index(s: Seq<char>) -> int {
    if s == "VM"@ {
        0
    } else if s == "Powerstate"@ {
        1
    } else if s == "Template"@ {
        2
    } else if s == "NIC label"@ {
        3
    } else if s == "Adapter"@ {
        4
    } else if s == "Network"@ {
        5
    } else if s == "Connected"@ {
        6
    } else if s == "Starts Connected"@ {
        7
    } else if s == "Mac Address"@ {
        8
    } else if s == "Type"@ {
        9
    } else if s == "IPv4 Address"@ {
        10
    } else if s == "Host"@ {
        11
    } else if s == "Annotation"@ {
        12
    } else {
        -1
    }
}

/// The sheet's labels are distinct, and none is `VI SDK Server`.
pub proof fn lemma_labels_ok()
    ensures
        super::labels_ok(column_spec()),
{
    reveal(label_index);
    reveal_strlit("VM");
    assert("VM"@.len() == 2);
    reveal_strlit("Powerstate");
    assert("Powerstate"@.len() == 10);
    reveal_strlit("Template");
    assert("Template"@.len() == 8);
    reveal_strlit("NIC label");
    assert("NIC label"@.len() == 9);
    reveal_strlit("Adapter");
    assert("Adapter"@.len() == 7);
    reveal_strlit("Network");
    assert("Network"@.len() == 7);
    reveal_strlit("Connected");
    assert("Connected"@.len() == 9);
    reveal_strlit("Starts Connected");
    assert("Starts Connected"@.len() == 16);
    reveal_strlit("Mac Address");
    assert("Mac Address"@.len() == 11);
    reveal_strlit("Type");
    assert("Type"@.len() == 4);
    reveal_strlit("IPv4 Address");
    assert("IPv4 Address"@.len() == 12);
    reveal_strlit("Host");
    assert("Host"@.len() == 4);
    reveal_strlit("Annotation");
    assert("Annotation"@.len() == 10);
    reveal_strlit("VI SDK Server");
    assert("VI SDK Server"@.len() == 13);
    assert("Powerstate"@[0] == 'P');
    assert("Annotation"@[0] == 'A');
    assert("NIC label"@[0] == 'N');
    assert("Connected"@[0] == 'C');
    assert("Adapter"@[0] == 'A');
    assert("Network"@[0] == 'N');
    assert("Type"@[0] == 'T');
    assert("Host"@[0] == 'H');
    let cols = column_spec();
    assert(label_index(super::VI_SDK_SERVER@) == -1);
    assert forall|i: int| 0 <= i < cols.len() implies label_index(#[trigger] cols[i].0) == i by {
        if i == 0 {
                    assert(label_index(cols[0].0) == 0);
                } else if i == 1 {
                    assert(label_index(cols[1].0) == 1);
                } else if i == 2 {
                    assert(label_index(cols[2].0) == 2);
                } else if i == 3 {
                    assert(label_index(cols[3].0) == 3);
                } else if i == 4 {
                    assert(label_index(cols[4].0) == 4);
                } else if i == 5 {
                    assert(label_index(cols[5].0) == 5);
                } else if i == 6 {
                    assert(label_index(cols[6].0) == 6);
                } else if i == 7 {
                    assert(label_index(cols[7].0) == 7);
                } else if i == 8 {
                    assert(label_index(cols[8].0) == 8);
                } else if i == 9 {
                    assert(label_index(cols[9].0) == 9);
                } else if i == 10 {
                    assert(label_index(cols[10].0) == 10);
                } else if i == 11 {
                    assert(label_index(cols[11].0) == 11);
                } else if i == 12 {
                    assert(label_index(cols[12].0) == 12);
                }
    }
}

pub fn columns() -> (r: Vec<Column>)
    ensures
        columns_view(r@) == column_spec(),
{
    let r = vec![
        Column::text("VM"),
        Column::text("Powerstate"),
        Column::bool("Template"),
        Column::text("NIC label"),
        Column::text("Adapter"),
        Column::text("Network"),
        Column::bool("Connected"),
        Column::bool("Starts Connected"),
        Column::text("Mac Address"),
        Column::text("Type"),
        Column::text("IPv4 Address"),
        Column::text("Host"),
        Column::text("Annotation"),
    ];
    proof { assert(columns_view(r@) =~= column_spec()); }
    r
}

/// The concrete `VirtualEthernetCard` subclasses.
pub open spec fn ethernet_types() -> Seq<Seq<char>> {
    seq![
        "VirtualVmxnet"@,
        "VirtualVmxnet2"@,
        "VirtualVmxnet3"@,
        "VirtualVmxnet3Vrdma"@,
        "VirtualE1000"@,
        "VirtualE1000e"@,
        "VirtualPCNet32"@,
        "VirtualSriovEthernetCard"@,
    ]
}

/// vim25 names array elements after the declared field type
/// (`VirtualDevice`), so a NIC is recognised by its `xsi:type`.
pub fn is_ethernet_card(xsi_type: &str) -> (r: bool)
    ensures
        r == ethernet_types().contains(xsi_type@),
{
    let types = vec![
        "VirtualVmxnet",
        "VirtualVmxnet2",
        "VirtualVmxnet3",
        "VirtualVmxnet3Vrdma",
        "VirtualE1000",
        "VirtualE1000e",
        "VirtualPCNet32",
        "VirtualSriovEthernetCard",
    ];
    proof { assert(types@.map_values(|t: &str| t@) =~= ethernet_types()); }
    let mut i: usize = 0;
    while i < types.len()
        invariant
            i <= types@.len(),
            types@.map_values(|t: &str| t@) == ethernet_types(),
            forall|k: int| 0 <= k < i ==> ethernet_types()[k] != xsi_type@,
        decreases types.len() - i,
    {
        if str_eq(types[i], xsi_type) {
            proof { assert(ethernet_types()[i as int] == xsi_type@); }
            return true;
        }
        i += 1;
    }
    false
}

/// An address that reads as IPv4: not empty, with a `.` and no `:`.
pub open spec fn looks_ipv4(a: Seq<char>) -> bool {
    a.len() > 0 && a.contains('.') && !a.contains(':')
}

/// The first IPv4 address among a guest NIC's `ipAddress` entries.
pub open spec fn first_ipv4(addrs: Seq<XNode>) -> Option<Seq<char>>
    decreases addrs.len(),
{
    if addrs.len() == 0 {
        None
    } else if looks_ipv4(addrs[0].text) {
        Some(addrs[0].text)
    } else {
        first_ipv4(addrs.drop_first())
    }
}

/// Device key and the first IPv4 address the guest reports for it; the
/// first NIC reporting a device keeps it.
pub open spec fn ipv4_by_device_of(nics: Seq<XNode>) -> Seq<(Seq<char>, Seq<char>)>
    decreases nics.len(),
{
    if nics.len() == 0 {
        Seq::empty()
    } else {
        let m = ipv4_by_device_of(nics.drop_last());
        let nic = nics.last();
        match text_at_path(nic, "deviceConfigId"@) {
            Some(key) => if key.len() > 0 {
                match first_ipv4(named(nic.children, "ipAddress"@)) {
                    Some(ip) => if key_pos(m, key) is Some {
                        m
                    } else {
                        m.push((key, ip))
                    },
                    None => m,
                }
            } else {
                m
            },
            None => m,
        }
    }
}

fn has_char(s: &str, c: char) -> (r: bool)
    ensures
        r == s@.contains(c),
{
    let cs = chars_of(s);
    let mut i: usize = 0;
    while i < cs.len()
        invariant
            i <= cs@.len(),
            cs@ == s@,
            forall|k: int| 0 <= k < i ==> cs@[k] != c,
        decreases cs.len() - i,
    {
        if cs[i] == c {
            proof { assert(s@[i as int] == c); }
            return true;
        }
        i += 1;
    }
    false
}

pub open spec fn ip_pairs(v: Seq<(String, String)>) -> Seq<(Seq<char>, Seq<char>)> {
    v.map_values(|p: (String, String)| (p.0@, p.1@))
}

/// Device key to the first IPv4 address the guest reports for it.
///
/// `guest.net` is a `GuestNicInfo[]`; `ipAddress` repeats inside each one
/// under the field name, and `deviceConfigId` is the device `key`, which is
/// how a guest NIC is tied back to a device.
pub fn guest_ipv4_by_device(vm: &ManagedObject) -> (r: Vec<(String, String)>)
    ensures
        ip_pairs(r@) == ipv4_by_device_of(array_prop_of(vm@, "guest.net"@)),
{
    let nics = vm.array_prop("guest.net");
    let ghost nv = array_prop_of(vm@, "guest.net"@);
    let mut out: Vec<(String, String)> = Vec::new();
    let mut i: usize = 0;
    proof { assert(nv.take(0) =~= Seq::<XNode>::empty()); }
    while i < nics.len()
        invariant
            i <= nics@.len(),
            nics@.len() == nv.len(),
            nv == array_prop_of(vm@, "guest.net"@),
            forall|k: int| 0 <= k < nv.len() ==> (#[trigger] nics@[k])@ == nv[k],
            ip_pairs(out@) == ipv4_by_device_of(nv.take(i as int)),
        decreases nics.len() - i,
    {
        proof {
            assert(nv.take(i + 1).drop_last() =~= nv.take(i as int));
            assert(nv.take(i + 1).last() == nics@[i as int]@);
        }
        let nic = nics[i];
        match nic.text_at("deviceConfigId") {
            Some(key) => if chars_of(key.as_str()).len() > 0 {
                let addrs = nic.children_named("ipAddress");
                let ghost av = named(nic@.children, "ipAddress"@);
                let mut ip: Option<String> = None;
                let mut a: usize = 0;
                proof { assert(av.skip(0) =~= av); }
                while a < addrs.len()
                    invariant_except_break
                        ip.is_none(),
                    invariant
                        a <= addrs@.len(),
                        addrs@.len() == av.len(),
                        forall|k: int| 0 <= k < av.len() ==> (#[trigger] addrs@[k])@ == av[k],
                        first_ipv4(av) == first_ipv4(av.skip(a as int)),
                    ensures
                        opt_str_view(ip) == first_ipv4(av),
                    decreases addrs.len() - a,
                {
                    proof {
                        assert(av.skip(a as int).drop_first() =~= av.skip(a + 1));
                        assert(av.skip(a as int)[0] == addrs@[a as int]@);
                    }
                    let t = addrs[a].text.as_str();
                    if chars_of(t).len() > 0 && has_char(t, '.') && !has_char(t, ':') {
                        ip = Some(addrs[a].text.clone());
                        break;
                    }
                    a += 1;
                }
                proof {
                    if a == addrs@.len() {
                        assert(av.skip(a as int).len() == 0);
                    }
                }
                match ip {
                    Some(addr) => {
                        let ghost mv = ip_pairs(out@);
                        proof { lemma_key_pos(mv, key@); }
                        let mut j: usize = 0;
                        let mut seen = false;
                        while j < out.len()
                            invariant
                                j <= out@.len(),
                                mv == ip_pairs(out@),
                                seen == exists|m: int| 0 <= m < j && mv[m].0 == key@,
                            decreases out.len() - j,
                        {
                            proof { assert(mv[j as int] == (out@[j as int].0@, out@[j as int].1@)); }
                            let ghost before = seen;
                            if str_eq(out[j].0.as_str(), key.as_str()) {
                                seen = true;
                            }
                            proof {
                                if seen && !before {
                                    assert(mv[j as int].0 == key@);
                                }
                                if !seen {
                                    assert forall|m: int| 0 <= m < j + 1 implies mv[m].0 != key@ by {
                                        if m < j {
                                        }
                                    }
                                }
                            }
                            j += 1;
                        }
                        proof { lemma_key_pos(mv, key@); }
                        if !seen {
                            let ghost kv = (key@, addr@);
                            out.push((key, addr));
                            proof { assert(ip_pairs(out@) =~= mv.push(kv)); }
                        }
                    },
                    None => {},
                }
            },
            None => {},
        }
        i += 1;
    }
    proof { assert(nv.take(nv.len() as int) =~= nv); }
    out
}

/// The network a NIC is attached to, however its backing names it: a
/// distributed port's portgroup, a standard backing's device name, or a
/// bare network moref; morefs are named through `names` where they can be.
pub open spec fn network_name_of(backing: Option<XNode>, names: Seq<(Seq<char>, Seq<char>)>) -> Option<Seq<char>> {
    match backing {
        None => None,
        Some(b) => match text_at_path(b, "port/portgroupKey"@) {
            Some(key) if key.len() > 0 => match name_lookup(names, key) {
                Some(n) => Some(n),
                None => Some(key),
            },
            _ => match text_at_path(b, "deviceName"@) {
                Some(n) if n.len() > 0 => Some(n),
                _ => match child_of(b, "network"@) {
                    Some(net) => if net.text.len() > 0 {
                        match name_lookup(names, net.text) {
                            Some(n) => Some(n),
                            None => Some(net.text),
                        }
                    } else {
                        None
                    },
                    None => None,
                },
            },
        },
    }
}

pub fn network_name(backing: Option<&Element>, names: &Vec<(String, String)>) -> (r: Option<String>)
    ensures
        opt_str_view(r) == network_name_of(
            match backing {
                Some(b) => Some(b@),
                None => None,
            },
            names_view(names@),
        ),
{
    let b = match backing {
        Some(b) => b,
        None => return None,
    };
    match b.text_at("port/portgroupKey") {
        Some(key) => if chars_of(key.as_str()).len() > 0 {
            return match lookup_name(names, key.as_str()) {
                Some(n) => Some(n),
                None => Some(key),
            };
        },
        None => {},
    }
    match b.text_at("deviceName") {
        Some(n) => if chars_of(n.as_str()).len() > 0 {
            return Some(n);
        },
        None => {},
    }
    match b.child("network") {
        Some(net) => if chars_of(net.text.as_str()).len() > 0 {
            match lookup_name(names, net.text.as_str()) {
                Some(n) => Some(n),
                None => Some(net.text.clone()),
            }
        } else {
            None
        },
        None => None,
    }
}
/// Whether a device is a virtual NIC.
pub open spec fn is_nic(d: XNode) -> bool {
    match d.xsi_type {
        Some(t) => ethernet_types().contains(t),
        None => false,
    }
}

fn nic(d: &Element) -> (r: bool)
    ensures
        r == is_nic(d@),
{
    match &d.xsi_type {
        Some(t) => is_ethernet_card(t.as_str()),
        None => false,
    }
}

/// The IPv4 address the guest reports for a device key.
fn ip_for(ips: &Vec<(String, String)>, key: &str) -> (r: Option<String>)
    ensures
        opt_str_view(r) == lookup(ip_pairs(ips@), key@),
{
    let ghost mv = ip_pairs(ips@);
    proof { lemma_key_pos(mv, key@); }
    let mut j: usize = 0;
    while j < ips.len()
        invariant
            j <= ips@.len(),
            mv == ip_pairs(ips@),
            forall|m: int| 0 <= m < j ==> mv[m].0 != key@,
        decreases ips.len() - j,
    {
        if str_eq(ips[j].0.as_str(), key) {
            proof {
                lemma_key_pos(mv, key@);
                assert(mv[j as int].0 == key@);
            }
            return Some(ips[j].1.clone());
        }
        j += 1;
    }
    None
}

/// A NIC's row: the VM, the card, the network it is on, its MAC and how the
/// MAC was assigned, and the IPv4 address the guest reports for it.
pub open spec fn nic_cells(ctx: VmContextView, d: XNode, ips: Seq<(Seq<char>, Seq<char>)>, names: Seq<(Seq<char>, Seq<char>)>) -> Seq<
    CellValue,
> {
    vm_head(ctx) + seq![
        opt_text_value(text_at_path(d, "deviceInfo/label"@)),
        opt_text_value(d.xsi_type),
        opt_text_value(network_name_of(child_of(d, "backing"@), names)),
        opt_bool_value(true_at(Some(d), "connectable/connected"@)),
        opt_bool_value(true_at(Some(d), "connectable/startConnected"@)),
        opt_text_value(text_of(d, "macAddress"@)),
        opt_text_value(text_of(d, "addressType"@)),
        opt_text_value(lookup(
            ips,
            match text_at_path(d, "key"@) {
                Some(k) => k,
                None => Seq::empty(),
            },
        )),
    ] + vm_tail(ctx)
}

fn nic_row(ctx: &VmContext, d: &Element, ips: &Vec<(String, String)>, names: &Vec<(String, String)>) -> (r: Vec<Cell>)
    ensures
        row_view(r) == nic_cells(ctx@, d@, ip_pairs(ips@), names_view(names@)),
{
    let key = match d.text_at("key") {
        Some(k) => k,
        None => String::new(),
    };
    let mid = vec![
        Cell::opt_text(d.text_at("deviceInfo/label")),
        Cell::opt_text(crate::text::clone_opt(&d.xsi_type)),
        Cell::opt_text(network_name(d.child("backing"), names)),
        Cell::opt_bool(true_at_el(Some(d), "connectable/connected")),
        Cell::opt_bool(true_at_el(Some(d), "connectable/startConnected")),
        Cell::opt_text(text(d, "macAddress")),
        Cell::opt_text(text(d, "addressType")),
        Cell::opt_text(ip_for(ips, key.as_str())),
    ];
    let r = append_cells(append_cells(vm_head_cells(ctx), mid), vm_tail_cells(ctx));
    proof { assert(row_view(r) =~= nic_cells(ctx@, d@, ip_pairs(ips@), names_view(names@))); }
    r
}

/// The rows of a VM's NICs, in order.
pub open spec fn nic_rows(ctx: VmContextView, ds: Seq<XNode>, ips: Seq<(Seq<char>, Seq<char>)>, names: Seq<(Seq<char>, Seq<char>)>) -> Seq<
    Seq<CellValue>,
>
    decreases ds.len(),
{
    if ds.len() == 0 {
        Seq::empty()
    } else if is_nic(ds.last()) {
        nic_rows(ctx, ds.drop_last(), ips, names).push(nic_cells(ctx, ds.last(), ips, names))
    } else {
        nic_rows(ctx, ds.drop_last(), ips, names)
    }
}

/// A VM's rows: one per NIC, none for a vCLS VM, an error for a nameless VM.
pub open spec fn object_rows_of(vm: MoView, names: Seq<(Seq<char>, Seq<char>)>) -> Result<Seq<Seq<CellValue>>, Seq<char>> {
    match vm_context_of(vm, names) {
        Err(e) => Err(e),
        Ok(None) => Ok(Seq::empty()),
        Ok(Some(ctx)) => Ok(
            nic_rows(ctx, array_prop_of(vm, "config.hardware.device"@), ipv4_by_device_of(array_prop_of(vm, "guest.net"@)), names),
        ),
    }
}

pub fn object_rows(vm: &ManagedObject, names: &Vec<(String, String)>) -> (r: Result<Vec<Vec<Cell>>, String>)
    ensures
        match r {
            Ok(v) => object_rows_of(vm@, names_view(names@)) == Ok::<Seq<Seq<CellValue>>, Seq<char>>(rows_view(v@)),
            Err(e) => object_rows_of(vm@, names_view(names@)) == Err::<Seq<Seq<CellValue>>, Seq<char>>(e@),
        },
{
    let ctx = match VmContext::from(vm, names) {
        Err(e) => return Err(e),
        Ok(None) => {
            let v: Vec<Vec<Cell>> = Vec::new();
            proof { assert(rows_view(v@) =~= Seq::<Seq<CellValue>>::empty()); }
            return Ok(v);
        },
        Ok(Some(c)) => c,
    };
    let ips = guest_ipv4_by_device(vm);
    let ghost iv = ip_pairs(ips@);
    let ghost nv = names_view(names@);
    let ds = vm.array_prop("config.hardware.device");
    let ghost dv = array_prop_of(vm@, "config.hardware.device"@);
    let mut out: Vec<Vec<Cell>> = Vec::new();
    let mut i: usize = 0;
    proof { assert(rows_view(out@) =~= nic_rows(ctx@, dv.take(0), iv, nv)); }
    while i < ds.len()
        invariant
            i <= ds@.len(),
            ds@.len() == dv.len(),
            dv == array_prop_of(vm@, "config.hardware.device"@),
            iv == ip_pairs(ips@),
            nv == names_view(names@),
            forall|k: int| 0 <= k < dv.len() ==> (#[trigger] ds@[k])@ == dv[k],
            rows_view(out@) =~= nic_rows(ctx@, dv.take(i as int), iv, nv),
        decreases ds.len() - i,
    {
        proof {
            assert(dv.take(i + 1).drop_last() =~= dv.take(i as int));
            assert(dv.take(i + 1).last() == ds@[i as int]@);
        }
        if nic(ds[i]) {
            let row = nic_row(&ctx, ds[i], &ips, names);
            let ghost before = out@;
            out.push(row);
            proof { assert(rows_view(out@) =~= rows_view(before).push(row_view(row))); }
        }
        i += 1;
    }
    proof { assert(dv.take(dv.len() as int) =~= dv); }
    Ok(out)
}

/// Every NIC row has one cell per column.
pub proof fn lemma_nic_rows_width(ctx: VmContextView, ds: Seq<XNode>, ips: Seq<(Seq<char>, Seq<char>)>, names: Seq<(Seq<char>, Seq<char>)>)
    ensures
        crate::data::all_width(nic_rows(ctx, ds, ips, names), column_spec().len() as int),
    decreases ds.len(),
{
    if ds.len() > 0 {
        lemma_nic_rows_width(ctx, ds.drop_last(), ips, names);
        let prev = nic_rows(ctx, ds.drop_last(), ips, names);
        let all = nic_rows(ctx, ds, ips, names);
        assert forall|i: int| 0 <= i < all.len() implies (#[trigger] all[i]).len() == column_spec().len() by {
            if i < prev.len() {
                assert(all[i] == prev[i]);
            }
        }
    }
}

/// vNetwork: one row per virtual NIC, each with its VM's moref; vCLS VMs
/// are left out and the first nameless VM is an error. `names` names
/// inventory objects by moref: hosts for the VM's host, networks and port
/// groups for the network a NIC is on.
pub fn rows(vms: &Vec<ManagedObject>, names: &Vec<(String, String)>) -> (r: Result<Vec<(String, Vec<Cell>)>, String>)
    ensures
        match r {
            Ok(v) => per_object_rows_of(PerObject::Network, mos(vms@), names_view(names@))
                == Ok::<Seq<(Seq<char>, Seq<CellValue>)>, Seq<char>>(tagged_rows(v@)),
            Err(e) => per_object_rows_of(PerObject::Network, mos(vms@), names_view(names@))
                == Err::<Seq<(Seq<char>, Seq<CellValue>)>, Seq<char>>(e@),
        },
{
    per_object_rows(PerObject::Network, vms, names)
}
} // verus!
