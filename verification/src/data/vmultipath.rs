//! vMultiPath — one row per storage path.

use vstd::prelude::*;
use super::{
    append_cells,
    columns_view,
    hundredths_value,
    opt_bool_value,
    opt_hundredths,
    opt_text_value,
    row_view,
    rows_view,
    Cell,
    CellValue,
    Column,
    ColumnKind,
};
use super::common::{key_pos, lemma_key_pos, lookup, mib_hundredths, mib_of_wide, no_name_error, upsert};
use super::per_object::{
    int_under,
    int_under_el,
    mos,
    nonempty_under,
    nonempty_under_el,
    number_under,
    number_under_el,
    opt_node,
    per_object_rows,
    per_object_rows_of,
    true_at,
    true_at_el,
    PerObject,
};
use super::snapshot::{names_view, InventorySnapshot};
use super::vdisk::{tagged_rows, text, text_of};
use crate::text::{after_last, after_last_char, chars_of, clone_opt, str_eq};
use crate::vcenter::soap::{strs_view, array_prop_of, str_prop_of, ManagedObject, MoView};
use crate::vcenter::xml::{child_of, named, opt_str_view, text_at_path, Element, XNode};

verus! {

/// The sheet's columns, labels as RVTools writes them.
pub open spec fn column_spec() -> Seq<(Seq<char>, ColumnKind)> {
    seq![
        ("Host"@, ColumnKind::Text),
        ("Device"@, ColumnKind::Text),
        ("Display Name"@, ColumnKind::Text),
        ("Policy"@, ColumnKind::Text),
        ("Runtime Name"@, ColumnKind::Text),
        ("Path State"@, ColumnKind::Text),
        ("State"@, ColumnKind::Text),
        ("Working path"@, ColumnKind::Bool),
        ("Adapter"@, ColumnKind::Text),
        ("Transport"@, ColumnKind::Text),
        ("Vendor"@, ColumnKind::Text),
        ("Model"@, ColumnKind::Text),
        ("LUN type"@, ColumnKind::Text),
        ("SSD"@, ColumnKind::Bool),
        ("Local disk"@, ColumnKind::Bool),
        ("Capacity MiB"@, ColumnKind::Number),
        ("Operational state"@, ColumnKind::Text),
        ("Queue depth"@, ColumnKind::Number),
    ]
}

/// Which column a label names; `-1` for none.
#[verifier::opaque]
pub open spec fn label_index(s: Seq<char>) -> int {
    if s == "Host"@ {
        0
    } else if s == "Device"@ {
        1
    } else if s == "Display Name"@ {
        2
    } else if s == "Policy"@ {
        3
    } else if s == "Runtime Name"@ {
        4
    } else if s == "Path State"@ {
        5
    } else if s == "State"@ {
        6
    } else if s == "Working path"@ {
        7
    } else if s == "Adapter"@ {
        8
    } else if s == "Transport"@ {
        9
    } else if s == "Vendor"@ {
        10
    } else if s == "Model"@ {
        11
    } else if s == "LUN type"@ {
        12
    } else if s == "SSD"@ {
        13
    } else if s == "Local disk"@ {
        14
    } else if s == "Capacity MiB"@ {
        15
    } else if s == "Operational state"@ {
        16
    } else if s == "Queue depth"@ {
        17
    } else {
        -1
    }
}

/// The sheet's labels are distinct, and none is `VI SDK Server`.
pub proof fn lemma_labels_ok()
    ensures
        super::labels_ok(column_spec()),
{
    reveal(label_index);
    reveal_strlit("Host");
    assert("Host"@.len() == 4);
    reveal_strlit("Device");
    assert("Device"@.len() == 6);
    reveal_strlit("Display Name");
    assert("Display Name"@.len() == 12);
    reveal_strlit("Policy");
    assert("Policy"@.len() == 6);
    reveal_strlit("Runtime Name");
    assert("Runtime Name"@.len() == 12);
    reveal_strlit("Path State");
    assert("Path State"@.len() == 10);
    reveal_strlit("State");
    assert("State"@.len() == 5);
    reveal_strlit("Working path");
    assert("Working path"@.len() == 12);
    reveal_strlit("Adapter");
    assert("Adapter"@.len() == 7);
    reveal_strlit("Transport");
    assert("Transport"@.len() == 9);
    reveal_strlit("Vendor");
    assert("Vendor"@.len() == 6);
    reveal_strlit("Model");
    assert("Model"@.len() == 5);
    reveal_strlit("LUN type");
    assert("LUN type"@.len() == 8);
    reveal_strlit("SSD");
    assert("SSD"@.len() == 3);
    reveal_strlit("Local disk");
    assert("Local disk"@.len() == 10);
    reveal_strlit("Capacity MiB");
    assert("Capacity MiB"@.len() == 12);
    reveal_strlit("Operational state");
    assert("Operational state"@.len() == 17);
    reveal_strlit("Queue depth");
    assert("Queue depth"@.len() == 11);
    reveal_strlit("VI SDK Server");
    assert("VI SDK Server"@.len() == 13);
    assert("Device"@[0] == 'D');
    assert("Policy"@[0] == 'P');
    assert("Vendor"@[0] == 'V');
    assert("Display Name"@[0] == 'D');
    assert("Runtime Name"@[0] == 'R');
    assert("Working path"@[0] == 'W');
    assert("Capacity MiB"@[0] == 'C');
    assert("Path State"@[0] == 'P');
    assert("Local disk"@[0] == 'L');
    assert("State"@[0] == 'S');
    assert("Model"@[0] == 'M');
    let cols = column_spec();
    assert(label_index(super::VI_SDK_SERVER@) == -1);
    assert forall|i: int| 0 <= i < cols.len() implies label_index(#[trigger] cols[i].0) == i by {
        if i == 0 {
                    assert(label_index(cols[0].0) == 0);
                } else if i == 1 {
                    assert(label_index(cols[1].0) == 1);
                } else if i == 2 {
                    assert(label_index(cols[2].0) == 2);
                } else if i == 3 {
                    assert(label_index(cols[3].0) == 3);
                } else if i == 4 {
                    assert(label_index(cols[4].0) == 4);
                } else if i == 5 {
                    assert(label_index(cols[5].0) == 5);
                } else if i == 6 {
                    assert(label_index(cols[6].0) == 6);
                } else if i == 7 {
                    assert(label_index(cols[7].0) == 7);
                } else if i == 8 {
                    assert(label_index(cols[8].0) == 8);
                } else if i == 9 {
                    assert(label_index(cols[9].0) == 9);
                } else if i == 10 {
                    assert(label_index(cols[10].0) == 10);
                } else if i == 11 {
                    assert(label_index(cols[11].0) == 11);
                } else if i == 12 {
                    assert(label_index(cols[12].0) == 12);
                } else if i == 13 {
                    assert(label_index(cols[13].0) == 13);
                } else if i == 14 {
                    assert(label_index(cols[14].0) == 14);
                } else if i == 15 {
                    assert(label_index(cols[15].0) == 15);
                } else if i == 16 {
                    assert(label_index(cols[16].0) == 16);
                } else if i == 17 {
                    assert(label_index(cols[17].0) == 17);
                }
    }
}

pub fn columns() -> (r: Vec<Column>)
    ensures
        columns_view(r@) == column_spec(),
{
    let r = vec![
        Column::text("Host"),
        Column::text("Device"),
        Column::text("Display Name"),
        Column::text("Policy"),
        Column::text("Runtime Name"),
        Column::text("Path State"),
        Column::text("State"),
        Column::bool("Working path"),
        Column::text("Adapter"),
        Column::text("Transport"),
        Column::text("Vendor"),
        Column::text("Model"),
        Column::text("LUN type"),
        Column::bool("SSD"),
        Column::bool("Local disk"),
        Column::number("Capacity MiB"),
        Column::text("Operational state"),
        Column::number("Queue depth"),
    ];
    proof { assert(columns_view(r@) =~= column_spec()); }
    r
}

/// Every `ScsiLun` that reports a key, by key; a key seen twice keeps the
/// later device.
pub open spec fn luns_of(ls: Seq<XNode>) -> Seq<(Seq<char>, XNode)>
    decreases ls.len(),
{
    if ls.len() == 0 {
        Seq::empty()
    } else {
        match text_at_path(ls.last(), "key"@) {
            Some(k) => upsert(luns_of(ls.drop_last()), k, ls.last()),
            None => luns_of(ls.drop_last()),
        }
    }
}

pub open spec fn lun_entries(v: Seq<(String, &Element)>) -> Seq<(Seq<char>, XNode)> {
    v.map_values(|p: (String, &Element)| (p.0@, p.1@))
}

/// `ScsiLun` key and the device, so a path can name what it leads to.
pub fn luns_by_key<'a>(host: &'a ManagedObject) -> (r: Vec<(String, &'a Element)>)
    ensures
        lun_entries(r@) == luns_of(array_prop_of(host@, "config.storageDevice.scsiLun"@)),
{
    let items = host.array_prop("config.storageDevice.scsiLun");
    let ghost nv = array_prop_of(host@, "config.storageDevice.scsiLun"@);
    let mut out: Vec<(String, &'a Element)> = Vec::new();
    let mut i: usize = 0;
    proof { assert(nv.take(0) =~= Seq::<XNode>::empty()); }
    while i < items.len()
        invariant
            i <= items@.len(),
            items@.len() == nv.len(),
            nv == array_prop_of(host@, "config.storageDevice.scsiLun"@),
            forall|k: int| 0 <= k < nv.len() ==> (#[trigger] items@[k])@ == nv[k],
            lun_entries(out@) == luns_of(nv.take(i as int)),
        decreases items.len() - i,
    {
        proof {
            assert(nv.take(i + 1).drop_last() =~= nv.take(i as int));
            assert(nv.take(i + 1).last() == items@[i as int]@);
        }
        let l = items[i];
        match l.text_at("key") {
            Some(k) => {
                let ghost mv = lun_entries(out@);
                proof { lemma_key_pos(mv, k@); }
                let mut j: usize = 0;
                while j < out.len()
                    invariant
                        j <= out@.len(),
                        mv == lun_entries(out@),
                        forall|m: int| 0 <= m < j ==> mv[m].0 != k@,
                    ensures
                        j <= out@.len(),
                        mv == lun_entries(out@),
                        forall|m: int| 0 <= m < j ==> mv[m].0 != k@,
                        j < out@.len() ==> mv[j as int].0 == k@,
                    decreases out.len() - j,
                {
                    if str_eq(out[j].0.as_str(), k.as_str()) {
                        break;
                    }
                    j += 1;
                }
                proof { lemma_key_pos(mv, k@); }
                let ghost kv = (k@, l@);
                if j < out.len() {
                    proof { assert(key_pos(mv, k@) == Some(j as int)); }
                    out.set(j, (k, l));
                    proof { assert(lun_entries(out@) =~= mv.update(j as int, kv)); }
                } else {
                    proof { assert(key_pos(mv, k@).is_none()); }
                    out.push((k, l));
                    proof { assert(lun_entries(out@) =~= mv.push(kv)); }
                }
            },
            None => {},
        }
        i += 1;
    }
    proof { assert(nv.take(nv.len() as int) =~= nv); }
    out
}

/// The device name at the end of an adapter key: what follows its last
/// `-`, when that is not empty.
pub open spec fn adapter_name_of(key: Seq<char>) -> Option<Seq<char>> {
    if after_last(key, '-').len() > 0 {
        Some(after_last(key, '-'))
    } else {
        None
    }
}

/// `key-vim.host.SerialAttachedHba-vmhba0` becomes `vmhba0`: the adapter
/// arrives as an internal key, and its trailing segment is the device name
/// an administrator would recognise.
pub fn adapter_name(key: &str) -> (r: Option<String>)
    ensures
        opt_str_view(r) == adapter_name_of(key@),
{
    let t = after_last_char(key, '-');
    if chars_of(t.as_str()).len() > 0 {
        Some(t)
    } else {
        None
    }
}
/// `HostSystem` properties this sheet reads.
pub open spec fn host_prop_names() -> Seq<Seq<char>> {
    seq![
        "name"@,
        "config.storageDevice.multipathInfo"@,
        "config.storageDevice.scsiLun"@,
    ]
}

/// `HostSystem` properties this sheet reads.
pub fn host_props() -> (r: Vec<&'static str>)
    ensures
        strs_view(r@) == host_prop_names(),
{
    let r = vec![
        "name",
        "config.storageDevice.multipathInfo",
        "config.storageDevice.scsiLun",
    ];
    proof { assert(strs_view(r@) =~= host_prop_names()); }
    r
}

/// The device a path leads to, found by its LUN key.
pub fn find_lun<'a>(luns: &Vec<(String, &'a Element)>, key: &str) -> (r: Option<&'a Element>)
    ensures
        opt_node(r) == lookup(lun_entries(luns@), key@),
{
    let ghost mv = lun_entries(luns@);
    proof { lemma_key_pos(mv, key@); }
    let mut j: usize = 0;
    while j < luns.len()
        invariant
            j <= luns@.len(),
            mv == lun_entries(luns@),
            forall|m: int| 0 <= m < j ==> mv[m].0 != key@,
        decreases luns.len() - j,
    {
        if str_eq(luns[j].0.as_str(), key) {
            proof {
                lemma_key_pos(mv, key@);
                assert(mv[j as int].0 == key@);
            }
            return Some(luns[j].1);
        }
        j += 1;
    }
    None
}

/// A LUN's capacity in MiB: its block count times its block size.
pub open spec fn capacity_mib_of(lun: Option<XNode>) -> Option<int> {
    match (int_under(lun, "capacity/block"@), int_under(lun, "capacity/blockSize"@)) {
        (Some(b), Some(z)) => Some(mib_hundredths(b * z)),
        _ => None,
    }
}

fn capacity_mib(lun: Option<&Element>) -> (r: Option<i128>)
    ensures
        match r {
            Some(x) => capacity_mib_of(opt_node(lun)) == Some(x as int),
            None => capacity_mib_of(opt_node(lun)).is_none(),
        },
{
    match (int_under_el(lun, "capacity/block"), int_under_el(lun, "capacity/blockSize")) {
        (Some(b), Some(z)) => {
            proof {
                assert(-0x4000_0000_0000_0000_0000_0000_0000_0000 <= b * z <= 0x4000_0000_0000_0000_0000_0000_0000_0000)
                    by (nonlinear_arith)
                    requires
                        -0x8000_0000_0000_0000 <= b <= 0x8000_0000_0000_0000,
                        -0x8000_0000_0000_0000 <= z <= 0x8000_0000_0000_0000,
                ;
            }
            Some(mib_of_wide(b as i128 * z as i128))
        },
        _ => None,
    }
}

/// A flag stated as non-empty text under an element that may be absent.
pub open spec fn flag_under(el: Option<XNode>, path: Seq<char>) -> Option<bool> {
    match nonempty_under(el, path) {
        Some(v) => Some(v == "true"@),
        None => None,
    }
}

fn flag_under_el(el: Option<&Element>, path: &str) -> (r: Option<bool>)
    ensures
        r == flag_under(opt_node(el), path@),
{
    match nonempty_under_el(el, path) {
        Some(v) => Some(str_eq(v.as_str(), "true")),
        None => None,
    }
}

/// The adapter named at the end of a path's adapter key.
pub open spec fn path_adapter(path: XNode) -> Option<Seq<char>> {
    match text_at_path(path, "adapter"@) {
        Some(k) => adapter_name_of(k),
        None => None,
    }
}

/// The transport's concrete class, which says SAS, FC, iSCSI or NVMe.
pub open spec fn transport_of(path: XNode) -> Option<Seq<char>> {
    match child_of(path, "transport"@) {
        Some(t) => t.xsi_type,
        None => None,
    }
}

/// The host, the device the path leads to, and the unit's policy.
pub open spec fn lead_cells(name: Seq<char>, device: Option<XNode>, policy: Option<Seq<char>>) -> Seq<CellValue> {
    seq![
        CellValue::Text(name),
        opt_text_value(nonempty_under(device, "canonicalName"@)),
        opt_text_value(nonempty_under(device, "displayName"@)),
        opt_text_value(policy),
    ]
}

/// The path itself.
pub open spec fn path_cells(path: XNode) -> Seq<CellValue> {
    seq![
        opt_text_value(text_of(path, "name"@)),
        opt_text_value(text_of(path, "pathState"@)),
        opt_text_value(text_of(path, "state"@)),
        opt_bool_value(true_at(Some(path), "isWorkingPath"@)),
        opt_text_value(path_adapter(path)),
        opt_text_value(transport_of(path)),
    ]
}

/// The device's details.
pub open spec fn device_cells(device: Option<XNode>) -> Seq<CellValue> {
    seq![
        opt_text_value(nonempty_under(device, "vendor"@)),
        opt_text_value(nonempty_under(device, "model"@)),
        opt_text_value(nonempty_under(device, "lunType"@)),
        opt_bool_value(flag_under(device, "ssd"@)),
        opt_bool_value(flag_under(device, "localDisk"@)),
        hundredths_value(capacity_mib_of(device)),
        opt_text_value(nonempty_under(device, "operationalState"@)),
        hundredths_value(number_under(device, "queueDepth"@)),
    ]
}

pub open spec fn path_row_of(name: Seq<char>, device: Option<XNode>, policy: Option<Seq<char>>, path: XNode) -> Seq<CellValue> {
    lead_cells(name, device, policy) + path_cells(path) + device_cells(device)
}

fn lead_row(name: &String, device: Option<&Element>, policy: &Option<String>) -> (r: Vec<Cell>)
    ensures
        row_view(r) == lead_cells(name@, opt_node(device), opt_str_view(*policy)),
{
    let r = vec![
        Cell::Text(name.clone()),
        Cell::opt_text(nonempty_under_el(device, "canonicalName")),
        Cell::opt_text(nonempty_under_el(device, "displayName")),
        Cell::opt_text(clone_opt(policy)),
    ];
    proof { assert(row_view(r) =~= lead_cells(name@, opt_node(device), opt_str_view(*policy))); }
    r
}

fn path_part(path: &Element) -> (r: Vec<Cell>)
    ensures
        row_view(r) == path_cells(path@),
{
    let adapter = match path.text_at("adapter") {
        Some(k) => adapter_name(k.as_str()),
        None => None,
    };
    let transport = match path.child("transport") {
        Some(t) => clone_opt(&t.xsi_type),
        None => None,
    };
    let r = vec![
        Cell::opt_text(text(path, "name")),
        Cell::opt_text(text(path, "pathState")),
        Cell::opt_text(text(path, "state")),
        Cell::opt_bool(true_at_el(Some(path), "isWorkingPath")),
        Cell::opt_text(adapter),
        Cell::opt_text(transport),
    ];
    proof { assert(row_view(r) =~= path_cells(path@)); }
    r
}

fn device_part(device: Option<&Element>) -> (r: Vec<Cell>)
    ensures
        row_view(r) == device_cells(opt_node(device)),
{
    let r = vec![
        Cell::opt_text(nonempty_under_el(device, "vendor")),
        Cell::opt_text(nonempty_under_el(device, "model")),
        Cell::opt_text(nonempty_under_el(device, "lunType")),
        Cell::opt_bool(flag_under_el(device, "ssd")),
        Cell::opt_bool(flag_under_el(device, "localDisk")),
        opt_hundredths(capacity_mib(device)),
        Cell::opt_text(nonempty_under_el(device, "operationalState")),
        opt_hundredths(number_under_el(device, "queueDepth")),
    ];
    proof { assert(row_view(r) =~= device_cells(opt_node(device))); }
    r
}

/// The device a multipath unit leads to.
pub open spec fn unit_device(luns: Seq<(Seq<char>, XNode)>, unit: XNode) -> Option<XNode> {
    match text_at_path(unit, "lun"@) {
        Some(k) => lookup(luns, k),
        None => None,
    }
}

/// One row per path of a multipath unit.
pub open spec fn unit_rows(name: Seq<char>, luns: Seq<(Seq<char>, XNode)>, unit: XNode) -> Seq<Seq<CellValue>> {
    named(unit.children, "path"@).map_values(
        |p: XNode| path_row_of(name, unit_device(luns, unit), text_of(unit, "policy/policy"@), p),
    )
}

/// The rows of every unit, in order.
pub open spec fn units_rows(name: Seq<char>, luns: Seq<(Seq<char>, XNode)>, units: Seq<XNode>) -> Seq<Seq<CellValue>>
    decreases units.len(),
{
    if units.len() == 0 {
        Seq::empty()
    } else {
        units_rows(name, luns, units.drop_last()) + unit_rows(name, luns, units.last())
    }
}

/// A host's rows: one per storage path, or an error for a nameless host.
pub open spec fn object_rows_of(h: MoView) -> Result<Seq<Seq<CellValue>>, Seq<char>> {
    match str_prop_of(h, "name"@) {
        None => Err(no_name_error("HostSystem "@, h.moref)),
        Some(n) => Ok(
            units_rows(
                n,
                luns_of(array_prop_of(h, "config.storageDevice.scsiLun"@)),
                array_prop_of(h, "config.storageDevice.multipathInfo"@),
            ),
        ),
    }
}

pub fn object_rows(h: &ManagedObject) -> (r: Result<Vec<Vec<Cell>>, String>)
    ensures
        match r {
            Ok(v) => object_rows_of(h@) == Ok::<Seq<Seq<CellValue>>, Seq<char>>(rows_view(v@)),
            Err(e) => object_rows_of(h@) == Err::<Seq<Seq<CellValue>>, Seq<char>>(e@),
        },
{
    let name = match h.str_prop("name") {
        Some(n) => n,
        None => return Err(String::from_str("HostSystem ").concat(h.moref.as_str()).concat(" returned no name property")),
    };
    let luns = luns_by_key(h);
    let ghost lv = lun_entries(luns@);
    let units = h.array_prop("config.storageDevice.multipathInfo");
    let ghost uv = array_prop_of(h@, "config.storageDevice.multipathInfo"@);
    let mut out: Vec<Vec<Cell>> = Vec::new();
    let mut i: usize = 0;
    proof { assert(uv.take(0) =~= Seq::<XNode>::empty()); }
    while i < units.len()
        invariant
            i <= units@.len(),
            units@.len() == uv.len(),
            uv == array_prop_of(h@, "config.storageDevice.multipathInfo"@),
            lv == lun_entries(luns@),
            forall|k: int| 0 <= k < uv.len() ==> (#[trigger] units@[k])@ == uv[k],
            rows_view(out@) =~= units_rows(name@, lv, uv.take(i as int)),
        decreases units.len() - i,
    {
        let unit = units[i];
        let device = match unit.text_at("lun") {
            Some(k) => find_lun(&luns, k.as_str()),
            None => None,
        };
        let policy = text(unit, "policy/policy");
        let paths = unit.children_named("path");
        let ghost pv = named(unit@.children, "path"@);
        let ghost want = unit_rows(name@, lv, unit@);
        let ghost before = rows_view(out@);
        proof {
            assert(opt_node(device) == unit_device(lv, unit@));
            assert(uv.take(i + 1).drop_last() =~= uv.take(i as int));
            assert(uv.take(i + 1).last() == unit@);
        }
        let mut j: usize = 0;
        while j < paths.len()
            invariant
                j <= paths@.len(),
                paths@.len() == pv.len(),
                pv == named(unit@.children, "path"@),
                forall|k: int| 0 <= k < pv.len() ==> (#[trigger] paths@[k])@ == pv[k],
                want == unit_rows(name@, lv, unit@),
                opt_node(device) == unit_device(lv, unit@),
                opt_str_view(policy) == text_of(unit@, "policy/policy"@),
                rows_view(out@) =~= before + want.take(j as int),
            decreases paths.len() - j,
        {
            let lead = lead_row(&name, device, &policy);
            let row = append_cells(append_cells(lead, path_part(paths[j])), device_part(device));
            let ghost prev = out@;
            out.push(row);
            proof {
                assert(rows_view(out@) =~= rows_view(prev).push(row_view(row)));
                assert(want.take(j + 1) =~= want.take(j as int).push(want[j as int]));
            }
            j += 1;
        }
        proof { assert(want.take(want.len() as int) =~= want); }
        i += 1;
    }
    proof { assert(uv.take(uv.len() as int) =~= uv); }
    Ok(out)
}

/// Every row of a list of units has one cell per column.
pub proof fn lemma_units_width(name: Seq<char>, luns: Seq<(Seq<char>, XNode)>, units: Seq<XNode>)
    ensures
        super::all_width(units_rows(name, luns, units), column_spec().len() as int),
    decreases units.len(),
{
    if units.len() > 0 {
        lemma_units_width(name, luns, units.drop_last());
        let more = unit_rows(name, luns, units.last());
        assert forall|i: int| 0 <= i < more.len() implies (#[trigger] more[i]).len() == column_spec().len() by {
        }
        super::lemma_width_concat(units_rows(name, luns, units.drop_last()), more, column_spec().len() as int);
    }
}

/// A host's rows have one cell per column.
pub proof fn lemma_rows_width(h: MoView)
    ensures
        object_rows_of(h) matches Ok(rows) ==> super::all_width(rows, column_spec().len() as int),
{
    if let Some(n) = str_prop_of(h, "name"@) {
        lemma_units_width(
            n,
            luns_of(array_prop_of(h, "config.storageDevice.scsiLun"@)),
            array_prop_of(h, "config.storageDevice.multipathInfo"@),
        );
    }
}

/// vMultiPath: one row per storage path, each with its host's moref; the
/// first nameless host is an error.
pub fn rows(snap: &InventorySnapshot) -> (r: Result<Vec<(String, Vec<Cell>)>, String>)
    ensures
        match r {
            Ok(v) => per_object_rows_of(PerObject::Multipath, mos(snap.hosts@), names_view(snap.host_names@))
                == Ok::<Seq<(Seq<char>, Seq<CellValue>)>, Seq<char>>(tagged_rows(v@)),
            Err(e) => per_object_rows_of(PerObject::Multipath, mos(snap.hosts@), names_view(snap.host_names@))
                == Err::<Seq<(Seq<char>, Seq<CellValue>)>, Seq<char>>(e@),
        },
{
    per_object_rows(PerObject::Multipath, &snap.hosts, &snap.host_names)
}
} // verus!
