//! vDisk — one row per virtual disk.

use vstd::prelude::*;
use super::{
    append_cells,
    columns_view,
    hundredths_value,
    opt_bool_value,
    opt_hundredths,
    opt_text_value,
    row_view,
    text_cell,
    Cell,
    CellValue,
    Column,
    ColumnKind,
};
use super::common::{div_round, div_round_wide, key_pos, lemma_key_pos, lookup, upsert, vm_context_of, VmContext, VmContextView};
use super::snapshot::{mos_view, names_view, InventorySnapshot};
use crate::text::{chars_of, has_prefix, parse_i64, parse_i64_str, starts_with, str_eq};
use crate::vcenter::soap::{strs_view, array_prop_of, MoView};
use crate::vcenter::xml::{child_of, opt_str_view, text_at_path, Element, XNode};

verus! {

/// The sheet's columns, labels as RVTools writes them.
pub open spec fn column_spec() -> Seq<(Seq<char>, ColumnKind)> {
    seq![
        ("VM"@, ColumnKind::Text),
        ("Powerstate"@, ColumnKind::Text),
        ("Template"@, ColumnKind::Bool),
        ("Disk"@, ColumnKind::Text),
        ("Disk Key"@, ColumnKind::Number),
        ("Disk UUID"@, ColumnKind::Text),
        ("Disk Path"@, ColumnKind::Text),
        ("Capacity MiB"@, ColumnKind::Number),
        ("Raw"@, ColumnKind::Bool),
        ("Disk Mode"@, ColumnKind::Text),
        ("Sharing mode"@, ColumnKind::Text),
        ("Thin"@, ColumnKind::Bool),
        ("Eagerly Scrub"@, ColumnKind::Bool),
        ("Split"@, ColumnKind::Bool),
        ("Write Through"@, ColumnKind::Bool),
        ("Level"@, ColumnKind::Text),
        ("Shares"@, ColumnKind::Number),
        ("Reservation"@, ColumnKind::Number),
        ("Limit"@, ColumnKind::Number),
        ("Controller"@, ColumnKind::Text),
        ("Unit #"@, ColumnKind::Number),
        ("Raw LUN ID"@, ColumnKind::Text),
        ("Raw Comp. Mode"@, ColumnKind::Text),
        ("Host"@, ColumnKind::Text),
        ("Annotation"@, ColumnKind::Text),
    ]
}

/// Which column a label names; `-1` for none.
#[verifier::opaque]
pub open spec fn label_index(s: Seq<char>) -> int {
    if s == "VM"@ {
        0
    } else if s == "Powerstate"@ {
        1
    } else if s == "Template"@ {
        2
    } else if s == "Disk"@ {
        3
    } else if s == "Disk Key"@ {
        4
    } else if s == "Disk UUID"@ {
        5
    } else if s == "Disk Path"@ {
        6
    } else if s == "Capacity MiB"@ {
        7
    } else if s == "Raw"@ {
        8
    } else if s == "Disk Mode"@ {
        9
    } else if s == "Sharing mode"@ {
        10
    } else if s == "Thin"@ {
        11
    } else if s == "Eagerly Scrub"@ {
        12
    } else if s == "Split"@ {
        13
    } else if s == "Write Through"@ {
        14
    } else if s == "Level"@ {
        15
    } else if s == "Shares"@ {
        16
    } else if s == "Reservation"@ {
        17
    } else if s == "Limit"@ {
        18
    } else if s == "Controller"@ {
        19
    } else if s == "Unit #"@ {
        20
    } else if s == "Raw LUN ID"@ {
        21
    } else if s == "Raw Comp. Mode"@ {
        22
    } else if s == "Host"@ {
        23
    } else if s == "Annotation"@ {
        24
    } else {
        -1
    }
}

/// The sheet's labels are distinct, and none is `VI SDK Server`.
pub proof fn lemma_labels_ok()
    ensures
        super::labels_ok(column_spec()),
{
    reveal(label_index);
    reveal_strlit("VM");
    assert("VM"@.len() == 2);
    reveal_strlit("Powerstate");
    assert("Powerstate"@.len() == 10);
    reveal_strlit("Template");
    assert("Template"@.len() == 8);
    reveal_strlit("Disk");
    assert("Disk"@.len() == 4);
    reveal_strlit("Disk Key");
    assert("Disk Key"@.len() == 8);
    reveal_strlit("Disk UUID");
    assert("Disk UUID"@.len() == 9);
    reveal_strlit("Disk Path");
    assert("Disk Path"@.len() == 9);
    reveal_strlit("Capacity MiB");
    assert("Capacity MiB"@.len() == 12);
    reveal_strlit("Raw");
    assert("Raw"@.len() == 3);
    reveal_strlit("Disk Mode");
    assert("Disk Mode"@.len() == 9);
    reveal_strlit("Sharing mode");
    assert("Sharing mode"@.len() == 12);
    reveal_strlit("Thin");
    assert("Thin"@.len() == 4);
    reveal_strlit("Eagerly Scrub");
    assert("Eagerly Scrub"@.len() == 13);
    reveal_strlit("Split");
    assert("Split"@.len() == 5);
    reveal_strlit("Write Through");
    assert("Write Through"@.len() == 13);
    reveal_strlit("Level");
    assert("Level"@.len() == 5);
    reveal_strlit("Shares");
    assert("Shares"@.len() == 6);
    reveal_strlit("Reservation");
    assert("Reservation"@.len() == 11);
    reveal_strlit("Limit");
    assert("Limit"@.len() == 5);
    reveal_strlit("Controller");
    assert("Controller"@.len() == 10);
    reveal_strlit("Unit #");
    assert("Unit #"@.len() == 6);
    reveal_strlit("Raw LUN ID");
    assert("Raw LUN ID"@.len() == 10);
    reveal_strlit("Raw Comp. Mode");
    assert("Raw Comp. Mode"@.len() == 14);
    reveal_strlit("Host");
    assert("Host"@.len() == 4);
    reveal_strlit("Annotation");
    assert("Annotation"@.len() == 10);
    reveal_strlit("VI SDK Server");
    assert("VI SDK Server"@.len() == 13);
    assert("Powerstate"@[0] == 'P');
    assert("Controller"@[0] == 'C');
    assert("Raw LUN ID"@[0] == 'R');
    assert("Annotation"@[0] == 'A');
    assert("Template"@[0] == 'T');
    assert("Disk Key"@[0] == 'D');
    assert("Disk"@[0] == 'D');
    assert("Thin"@[0] == 'T');
    assert("Host"@[0] == 'H');
    assert("Disk UUID"@[5] == 'U');
    assert("Disk Path"@[5] == 'P');
    assert("Disk Mode"@[5] == 'M');
    assert("Capacity MiB"@[0] == 'C');
    assert("Sharing mode"@[0] == 'S');
    assert("Eagerly Scrub"@[0] == 'E');
    assert("Write Through"@[0] == 'W');
    assert("VI SDK Server"@[0] == 'V');
    assert("Split"@[0] == 'S');
    assert("Level"@[0] == 'L');
    assert("Limit"@[0] == 'L');
    assert("Level"@[1] == 'e');
    assert("Limit"@[1] == 'i');
    assert("Shares"@[0] == 'S');
    assert("Unit #"@[0] == 'U');
    let cols = column_spec();
    assert(label_index(super::VI_SDK_SERVER@) == -1);
    assert forall|i: int| 0 <= i < cols.len() implies label_index(#[trigger] cols[i].0) == i by {
        if i == 0 {
                    assert(label_index(cols[0].0) == 0);
                } else if i == 1 {
                    assert(label_index(cols[1].0) == 1);
                } else if i == 2 {
                    assert(label_index(cols[2].0) == 2);
                } else if i == 3 {
                    assert(label_index(cols[3].0) == 3);
                } else if i == 4 {
                    assert(label_index(cols[4].0) == 4);
                } else if i == 5 {
                    assert(label_index(cols[5].0) == 5);
                } else if i == 6 {
                    assert(label_index(cols[6].0) == 6);
                } else if i == 7 {
                    assert(label_index(cols[7].0) == 7);
                } else if i == 8 {
                    assert(label_index(cols[8].0) == 8);
                } else if i == 9 {
                    assert(label_index(cols[9].0) == 9);
                } else if i == 10 {
                    assert(label_index(cols[10].0) == 10);
                } else if i == 11 {
                    assert(label_index(cols[11].0) == 11);
                } else if i == 12 {
                    assert(label_index(cols[12].0) == 12);
                } else if i == 13 {
                    assert(label_index(cols[13].0) == 13);
                } else if i == 14 {
                    assert(label_index(cols[14].0) == 14);
                } else if i == 15 {
                    assert(label_index(cols[15].0) == 15);
                } else if i == 16 {
                    assert(label_index(cols[16].0) == 16);
                } else if i == 17 {
                    assert(label_index(cols[17].0) == 17);
                } else if i == 18 {
                    assert(label_index(cols[18].0) == 18);
                } else if i == 19 {
                    assert(label_index(cols[19].0) == 19);
                } else if i == 20 {
                    assert(label_index(cols[20].0) == 20);
                } else if i == 21 {
                    assert(label_index(cols[21].0) == 21);
                } else if i == 22 {
                    assert(label_index(cols[22].0) == 22);
                } else if i == 23 {
                    assert(label_index(cols[23].0) == 23);
                } else if i == 24 {
                    assert(label_index(cols[24].0) == 24);
                }
    }
}

pub fn columns() -> (r: Vec<Column>)
    ensures
        columns_view(r@) == column_spec(),
{
    let r = vec![
        Column::text("VM"),
        Column::text("Powerstate"),
        Column::bool("Template"),
        Column::text("Disk"),
        Column::number("Disk Key"),
        Column::text("Disk UUID"),
        Column::text("Disk Path"),
        Column::number("Capacity MiB"),
        Column::bool("Raw"),
        Column::text("Disk Mode"),
        Column::text("Sharing mode"),
        Column::bool("Thin"),
        Column::bool("Eagerly Scrub"),
        Column::bool("Split"),
        Column::bool("Write Through"),
        Column::text("Level"),
        Column::number("Shares"),
        Column::number("Reservation"),
        Column::number("Limit"),
        Column::text("Controller"),
        Column::number("Unit #"),
        Column::text("Raw LUN ID"),
        Column::text("Raw Comp. Mode"),
        Column::text("Host"),
        Column::text("Annotation"),
    ];
    proof { assert(columns_view(r@) =~= column_spec()); }
    r
}

/// `VirtualMachine` properties this sheet reads beyond the VM context.
pub open spec fn vm_prop_names() -> Seq<Seq<char>> {
    seq![
        "config.hardware.device"@,
    ]
}

/// `VirtualMachine` properties this sheet reads beyond the VM context.
pub fn vm_props() -> (r: Vec<&'static str>)
    ensures
        strs_view(r@) == vm_prop_names(),
{
    let r = vec![
        "config.hardware.device",
    ];
    proof { assert(strs_view(r@) =~= vm_prop_names()); }
    r
}

/// Text at a path, absent when empty.
pub open spec fn text_of(el: XNode, path: Seq<char>) -> Option<Seq<char>> {
    match text_at_path(el, path) {
        Some(t) => if t.len() > 0 {
            Some(t)
        } else {
            None
        },
        None => None,
    }
}

pub fn text(el: &Element, path: &str) -> (r: Option<String>)
    ensures
        opt_str_view(r) == text_of(el@, path@),
{
    match el.text_at(path) {
        Some(t) => if chars_of(t.as_str()).len() > 0 {
            Some(t)
        } else {
            None
        },
        None => None,
    }
}

/// `true` or `false` at a path.
pub open spec fn boolean_of(el: XNode, path: Seq<char>) -> Option<bool> {
    match text_of(el, path) {
        Some(t) => if t == "true"@ {
            Some(true)
        } else if t == "false"@ {
            Some(false)
        } else {
            None
        },
        None => None,
    }
}

pub fn boolean(el: &Element, path: &str) -> (r: Option<bool>)
    ensures
        r == boolean_of(el@, path@),
{
    match text(el, path) {
        Some(t) => if str_eq(t.as_str(), "true") {
            Some(true)
        } else if str_eq(t.as_str(), "false") {
            Some(false)
        } else {
            None
        },
        None => None,
    }
}

/// Device key and label, for each device that has both; a key seen twice
/// keeps the later label.
pub open spec fn labels_of(ds: Seq<XNode>) -> Seq<(Seq<char>, Seq<char>)>
    decreases ds.len(),
{
    if ds.len() == 0 {
        Seq::empty()
    } else {
        let m = labels_of(ds.drop_last());
        match (text_at_path(ds.last(), "key"@), text_at_path(ds.last(), "deviceInfo/label"@)) {
            (Some(k), Some(l)) => upsert(m, k, l),
            _ => m,
        }
    }
}

pub open spec fn label_pairs(v: Seq<(String, String)>) -> Seq<(Seq<char>, Seq<char>)> {
    v.map_values(|p: (String, String)| (p.0@, p.1@))
}

/// Device key to label, so a disk's `controllerKey` can name its controller
/// (`SCSI controller 0`).
pub fn controller_labels(devices: &Vec<&Element>) -> (r: Vec<(String, String)>)
    ensures
        label_pairs(r@) == labels_of(devices@.map_values(|d: &Element| d@)),
{
    let ghost dv = devices@.map_values(|d: &Element| d@);
    let mut out: Vec<(String, String)> = Vec::new();
    let mut i: usize = 0;
    proof { assert(dv.take(0) =~= Seq::<XNode>::empty()); }
    while i < devices.len()
        invariant
            i <= devices@.len(),
            dv == devices@.map_values(|d: &Element| d@),
            label_pairs(out@) == labels_of(dv.take(i as int)),
        decreases devices.len() - i,
    {
        proof {
            assert(dv.take(i + 1).drop_last() =~= dv.take(i as int));
            assert(dv.take(i + 1).last() == devices@[i as int]@);
        }
        match (devices[i].text_at("key"), devices[i].text_at("deviceInfo/label")) {
            (Some(k), Some(l)) => {
                let ghost mv = label_pairs(out@);
                proof { lemma_key_pos(mv, k@); }
                let mut j: usize = 0;
                while j < out.len()
                    invariant
                        j <= out@.len(),
                        mv == label_pairs(out@),
                        forall|m: int| 0 <= m < j ==> mv[m].0 != k@,
                    ensures
                        j <= out@.len(),
                        mv == label_pairs(out@),
                        forall|m: int| 0 <= m < j ==> mv[m].0 != k@,
                        j < out@.len() ==> mv[j as int].0 == k@,
                    decreases out.len() - j,
                {
                    if str_eq(out[j].0.as_str(), k.as_str()) {
                        break;
                    }
                    j += 1;
                }
                proof { lemma_key_pos(mv, k@); }
                let ghost kv = (k@, l@);
                if j < out.len() {
                    proof { assert(key_pos(mv, k@) == Some(j as int)); }
                    out.set(j, (k, l));
                    proof { assert(label_pairs(out@) =~= mv.update(j as int, kv)); }
                } else {
                    proof { assert(key_pos(mv, k@).is_none()); }
                    out.push((k, l));
                    proof { assert(label_pairs(out@) =~= mv.push(kv)); }
                }
            },
            _ => {},
        }
        i += 1;
    }
    proof { assert(dv.take(dv.len() as int) =~= dv); }
    out
}

/// A whole number at a path, in hundredths. vCenter writes these fields
/// (`key`, `unitNumber`, shares, reservation, limit) as integers.
pub open spec fn number_of(el: XNode, path: Seq<char>) -> Option<int> {
    match text_of(el, path) {
        Some(t) => match parse_i64(t) {
            Some(n) => Some(n * 100),
            None => None,
        },
        None => None,
    }
}

pub fn number(el: &Element, path: &str) -> (r: Option<i128>)
    ensures
        match r {
            Some(x) => number_of(el@, path@) == Some(x as int),
            None => number_of(el@, path@).is_none(),
        },
{
    match text(el, path) {
        Some(t) => match parse_i64_str(t.as_str()) {
            Some(n) => Some(n as i128 * 100),
            None => None,
        },
        None => None,
    }
}

/// Capacity in MiB to two places: `capacityInKB` is KiB, RVTools' column is
/// MiB.
pub open spec fn capacity_of(disk: XNode) -> Option<int> {
    match text_of(disk, "capacityInKB"@) {
        Some(t) => match parse_i64(t) {
            Some(kb) => Some(div_round(kb * 100, 1024)),
            None => None,
        },
        None => None,
    }
}

/// Text under the disk's backing.
pub open spec fn backing_text(b: Option<XNode>, path: Seq<char>) -> Option<Seq<char>> {
    match b {
        Some(x) => text_of(x, path),
        None => None,
    }
}

pub open spec fn backing_bool(b: Option<XNode>, path: Seq<char>) -> Option<bool> {
    match b {
        Some(x) => boolean_of(x, path),
        None => None,
    }
}

/// A raw device mapping is backed by `RawDiskMappingVer1BackingInfo` rather
/// than a flat vmdk.
pub open spec fn is_raw_of(b: Option<XNode>) -> bool {
    match b {
        Some(x) => match x.xsi_type {
            Some(t) => has_prefix(t, "RawDiskMapping"@),
            None => false,
        },
        None => false,
    }
}

/// The identity columns, `Disk` to `Raw`, after the VM's three.
pub open spec fn disk_cells(disk: XNode) -> Seq<CellValue> {
    let b = child_of(disk, "backing"@);
    seq![
        opt_text_value(text_of(disk, "deviceInfo/label"@)),
        hundredths_value(number_of(disk, "key"@)),
        opt_text_value(backing_text(b, "uuid"@)),
        opt_text_value(backing_text(b, "fileName"@)),
        hundredths_value(capacity_of(disk)),
        CellValue::Bool(is_raw_of(b)),
        opt_text_value(backing_text(b, "diskMode"@)),
        opt_text_value(backing_text(b, "sharing"@)),
        opt_bool_value(backing_bool(b, "thinProvisioned"@)),
        opt_bool_value(backing_bool(b, "eagerlyScrub"@)),
        opt_bool_value(backing_bool(b, "split"@)),
        opt_bool_value(backing_bool(b, "writeThrough"@)),
    ]
}

/// The storage I/O allocation and placement columns, `Level` to
/// `Raw Comp. Mode`. Level, shares, reservation and limit are the disk's
/// storage I/O allocation, not the device-level shares block above it.
pub open spec fn allocation_cells(disk: XNode, controllers: Seq<(Seq<char>, Seq<char>)>) -> Seq<CellValue> {
    let b = child_of(disk, "backing"@);
    seq![
        opt_text_value(text_of(disk, "storageIOAllocation/shares/level"@)),
        hundredths_value(number_of(disk, "storageIOAllocation/shares/shares"@)),
        hundredths_value(number_of(disk, "storageIOAllocation/reservation"@)),
        hundredths_value(number_of(disk, "storageIOAllocation/limit"@)),
        opt_text_value(match text_of(disk, "controllerKey"@) {
            Some(k) => lookup(controllers, k),
            None => None,
        }),
        hundredths_value(number_of(disk, "unitNumber"@)),
        opt_text_value(backing_text(b, "lunUuid"@)),
        opt_text_value(backing_text(b, "compatibilityMode"@)),
    ]
}

/// One disk's row.
pub open spec fn disk_row_of(ctx: VmContextView, disk: XNode, controllers: Seq<(Seq<char>, Seq<char>)>) -> Seq<CellValue> {
    seq![CellValue::Text(ctx.name), opt_text_value(ctx.power_state), opt_bool_value(ctx.template)] + disk_cells(disk)
        + allocation_cells(disk, controllers) + seq![opt_text_value(ctx.host), opt_text_value(ctx.annotation)]
}

/// A device that is a virtual disk: its `xsi:type`, not its element name.
pub open spec fn is_disk(d: XNode) -> bool {
    d.xsi_type == Some("VirtualDisk"@)
}

/// The disks among a VM's devices, in order.
pub open spec fn disks_of(ds: Seq<XNode>) -> Seq<XNode>
    decreases ds.len(),
{
    if ds.len() == 0 {
        Seq::empty()
    } else if is_disk(ds.last()) {
        disks_of(ds.drop_last()).push(ds.last())
    } else {
        disks_of(ds.drop_last())
    }
}

/// Capacity is shown in MiB: a disk reporting `m * 1024` KiB shows `m`.
pub proof fn lemma_capacity_column(ctx: VmContextView, disk: XNode, controllers: Seq<(Seq<char>, Seq<char>)>, m: int)
    requires
        text_of(disk, "capacityInKB"@) matches Some(t) && parse_i64(t) == Some((m * 1024) as i64),
        i64::MIN <= m * 1024 <= i64::MAX,
    ensures
        disk_row_of(ctx, disk, controllers)[7] == CellValue::Number((m * 100) as i128),
{
    let kb = m * 1024;
    if kb >= 0 {
        assert((2 * (kb * 100) + 1024) / 2048int == m * 100) by (nonlinear_arith)
            requires
                kb == m * 1024,
                kb >= 0,
        ;
    } else {
        assert((2 * (-(kb * 100)) + 1024) / 2048int == -(m * 100)) by (nonlinear_arith)
            requires
                kb == m * 1024,
                kb < 0,
        ;
    }
}

/// A raw device mapping shows as raw: a disk whose backing is a
/// `RawDiskMappingVer1BackingInfo` has `Raw` true, one backed by a flat or
/// sparse vmdk has it false, and so does a disk with no backing.
pub proof fn lemma_raw_column(ctx: VmContextView, disk: XNode, controllers: Seq<(Seq<char>, Seq<char>)>)
    ensures
        child_of(disk, "backing"@) matches Some(b) && b.xsi_type == Some("RawDiskMappingVer1BackingInfo"@)
            ==> disk_row_of(ctx, disk, controllers)[8] == CellValue::Bool(true),
        child_of(disk, "backing"@) matches Some(b) && b.xsi_type == Some("VirtualDiskFlatVer2BackingInfo"@)
            ==> disk_row_of(ctx, disk, controllers)[8] == CellValue::Bool(false),
        child_of(disk, "backing"@) matches Some(b) && b.xsi_type == Some("VirtualDiskSparseVer2BackingInfo"@)
            ==> disk_row_of(ctx, disk, controllers)[8] == CellValue::Bool(false),
        child_of(disk, "backing"@) is None ==> disk_row_of(ctx, disk, controllers)[8] == CellValue::Bool(false),
{
    reveal_strlit("RawDiskMapping");
    reveal_strlit("RawDiskMappingVer1BackingInfo");
    reveal_strlit("VirtualDiskFlatVer2BackingInfo");
    reveal_strlit("VirtualDiskSparseVer2BackingInfo");
    let t1 = "RawDiskMappingVer1BackingInfo"@;
    assert(t1.take(14) =~= "RawDiskMapping"@);
    assert("VirtualDiskFlatVer2BackingInfo"@[0] == 'V');
    assert("VirtualDiskSparseVer2BackingInfo"@[0] == 'V');
    assert("RawDiskMapping"@[0] == 'R');
    assert("VirtualDiskFlatVer2BackingInfo"@.take(14)[0] == 'V');
    assert("VirtualDiskSparseVer2BackingInfo"@.take(14)[0] == 'V');
}

/// A VM's disk rows, each with the VM's moref; none for a vCLS VM.
pub open spec fn vm_disk_rows_of(vm: MoView, names: Seq<(Seq<char>, Seq<char>)>) -> Result<Seq<(Seq<char>, Seq<CellValue>)>, Seq<char>> {
    match vm_context_of(vm, names) {
        Err(e) => Err(e),
        Ok(None) => Ok(Seq::empty()),
        Ok(Some(ctx)) => {
            let devices = array_prop_of(vm, "config.hardware.device"@);
            let disks = disks_of(devices);
            let controllers = labels_of(devices);
            Ok(Seq::new(disks.len(), |k: int| (vm.moref, disk_row_of(ctx, disks[k], controllers))))
        },
    }
}

/// Every VM's disk rows, in order; the first nameless VM is an error.
pub open spec fn disk_rows_of(vms: Seq<MoView>, names: Seq<(Seq<char>, Seq<char>)>) -> Result<Seq<(Seq<char>, Seq<CellValue>)>, Seq<char>>
    decreases vms.len(),
{
    if vms.len() == 0 {
        Ok(Seq::empty())
    } else {
        match disk_rows_of(vms.drop_last(), names) {
            Err(e) => Err(e),
            Ok(rows) => match vm_disk_rows_of(vms.last(), names) {
                Err(e) => Err(e),
                Ok(more) => Ok(rows + more),
            },
        }
    }
}

pub open spec fn tagged_rows(v: Seq<(String, Vec<Cell>)>) -> Seq<(Seq<char>, Seq<CellValue>)> {
    v.map_values(|p: (String, Vec<Cell>)| (p.0@, row_view(p.1)))
}

fn backing_text_of(b: Option<&Element>, path: &str) -> (r: Option<String>)
    ensures
        opt_str_view(r) == backing_text(
            match b {
                Some(x) => Some(x@),
                None => None,
            },
            path@,
        ),
{
    match b {
        Some(x) => text(x, path),
        None => None,
    }
}

fn backing_bool_of(b: Option<&Element>, path: &str) -> (r: Option<bool>)
    ensures
        r == backing_bool(
            match b {
                Some(x) => Some(x@),
                None => None,
            },
            path@,
        ),
{
    match b {
        Some(x) => boolean(x, path),
        None => None,
    }
}

fn capacity(disk: &Element) -> (r: Option<i128>)
    ensures
        match r {
            Some(x) => capacity_of(disk@) == Some(x as int),
            None => capacity_of(disk@).is_none(),
        },
{
    match text(disk, "capacityInKB") {
        Some(t) => match parse_i64_str(t.as_str()) {
            Some(kb) => Some(div_round_wide(kb as i128 * 100, 1024)),
            None => None,
        },
        None => None,
    }
}

fn disk_part(disk: &Element) -> (r: Vec<Cell>)
    ensures
        row_view(r) == disk_cells(disk@),
{
    let b = disk.child("backing");
    let ghost bv = child_of(disk@, "backing"@);
    proof {
        assert(bv == match b {
            Some(x) => Some(x@),
            None => None::<XNode>,
        });
    }
    let raw = match b {
        Some(x) => match &x.xsi_type {
            Some(t) => starts_with(t.as_str(), "RawDiskMapping"),
            None => false,
        },
        None => false,
    };
    proof { assert(raw == is_raw_of(bv)); }
    let r = vec![
        text_cell(text(disk, "deviceInfo/label")),
        opt_hundredths(number(disk, "key")),
        text_cell(backing_text_of(b, "uuid")),
        text_cell(backing_text_of(b, "fileName")),
        opt_hundredths(capacity(disk)),
        Cell::Bool(raw),
        text_cell(backing_text_of(b, "diskMode")),
        text_cell(backing_text_of(b, "sharing")),
        Cell::opt_bool(backing_bool_of(b, "thinProvisioned")),
        Cell::opt_bool(backing_bool_of(b, "eagerlyScrub")),
        Cell::opt_bool(backing_bool_of(b, "split")),
        Cell::opt_bool(backing_bool_of(b, "writeThrough")),
    ];
    proof { assert(row_view(r) =~= disk_cells(disk@)); }
    r
}

fn controller_of(controllers: &Vec<(String, String)>, disk: &Element) -> (r: Option<String>)
    ensures
        opt_str_view(r) == match text_of(disk@, "controllerKey"@) {
            Some(k) => lookup(label_pairs(controllers@), k),
            None => None,
        },
{
    let k = match text(disk, "controllerKey") {
        Some(k) => k,
        None => return None,
    };
    let ghost mv = label_pairs(controllers@);
    proof { lemma_key_pos(mv, k@); }
    let mut i: usize = 0;
    while i < controllers.len()
        invariant
            i <= controllers@.len(),
            mv == label_pairs(controllers@),
            text_of(disk@, "controllerKey"@) == Some(k@),
            forall|j: int| 0 <= j < i ==> mv[j].0 != k@,
        decreases controllers.len() - i,
    {
        if str_eq(controllers[i].0.as_str(), k.as_str()) {
            proof {
                lemma_key_pos(mv, k@);
                assert(mv[i as int].0 == k@);
                assert(key_pos(mv, k@) == Some(i as int));
            }
            return Some(controllers[i].1.clone());
        }
        i += 1;
    }
    proof { lemma_key_pos(mv, k@); }
    None
}

fn allocation_part(disk: &Element, controllers: &Vec<(String, String)>) -> (r: Vec<Cell>)
    ensures
        row_view(r) == allocation_cells(disk@, label_pairs(controllers@)),
{
    let b = disk.child("backing");
    let r = vec![
        text_cell(text(disk, "storageIOAllocation/shares/level")),
        opt_hundredths(number(disk, "storageIOAllocation/shares/shares")),
        opt_hundredths(number(disk, "storageIOAllocation/reservation")),
        opt_hundredths(number(disk, "storageIOAllocation/limit")),
        text_cell(controller_of(controllers, disk)),
        opt_hundredths(number(disk, "unitNumber")),
        text_cell(backing_text_of(b, "lunUuid")),
        text_cell(backing_text_of(b, "compatibilityMode")),
    ];
    proof { assert(row_view(r) =~= allocation_cells(disk@, label_pairs(controllers@))); }
    r
}

fn disk_row(ctx: &VmContext, disk: &Element, controllers: &Vec<(String, String)>) -> (r: Vec<Cell>)
    ensures
        row_view(r) == disk_row_of(ctx@, disk@, label_pairs(controllers@)),
{
    let head = vec![
        Cell::Text(ctx.name.clone()),
        text_cell(crate::text::clone_opt(&ctx.power_state)),
        Cell::opt_bool(ctx.template),
    ];
    let ghost hv = row_view(head);
    proof { assert(hv =~= seq![CellValue::Text(ctx@.name), opt_text_value(ctx@.power_state), opt_bool_value(ctx@.template)]); }
    let tail = vec![text_cell(crate::text::clone_opt(&ctx.host)), text_cell(crate::text::clone_opt(&ctx.annotation))];
    let ghost tv = row_view(tail);
    proof { assert(tv =~= seq![opt_text_value(ctx@.host), opt_text_value(ctx@.annotation)]); }
    let r = append_cells(head, disk_part(disk));
    let r = append_cells(r, allocation_part(disk, controllers));
    let r = append_cells(r, tail);
    proof {
        assert(row_view(r) =~= hv + disk_cells(disk@) + allocation_cells(disk@, label_pairs(controllers@)) + tv);
    }
    r
}

pub proof fn lemma_disk_rows_err_stays(vms: Seq<MoView>, names: Seq<(Seq<char>, Seq<char>)>, k: int)
    requires
        0 <= k <= vms.len(),
        disk_rows_of(vms.take(k), names) is Err,
    ensures
        disk_rows_of(vms, names) == disk_rows_of(vms.take(k), names),
    decreases vms.len() - k,
{
    if k < vms.len() {
        assert(vms.take(k + 1).drop_last() =~= vms.take(k));
        lemma_disk_rows_err_stays(vms, names, k + 1);
    } else {
        assert(vms.take(k) =~= vms);
    }
}

/// vDisk: one row per virtual disk, each with its VM's moref. Disks are the
/// `config.hardware.device` members whose `xsi:type` is `VirtualDisk`: the
/// elements are named after the declared field type, so filtering on the
/// element name would silently yield nothing.
pub fn rows(snap: &InventorySnapshot) -> (r: Result<Vec<(String, Vec<Cell>)>, String>)
    ensures
        match r {
            Ok(v) => disk_rows_of(mos_view(snap.vms@), names_view(snap.host_names@)) == Ok::<Seq<(Seq<char>, Seq<CellValue>)>, Seq<char>>(tagged_rows(v@)),
            Err(e) => disk_rows_of(mos_view(snap.vms@), names_view(snap.host_names@)) == Err::<Seq<(Seq<char>, Seq<CellValue>)>, Seq<char>>(e@),
        },
{
    let ghost vv = mos_view(snap.vms@);
    let ghost nv = names_view(snap.host_names@);
    let mut out: Vec<(String, Vec<Cell>)> = Vec::new();
    let mut i: usize = 0;
    proof {
        assert(vv.take(0) =~= Seq::<MoView>::empty());
        assert(tagged_rows(out@) =~= Seq::<(Seq<char>, Seq<CellValue>)>::empty());
    }
    while i < snap.vms.len()
        invariant
            i <= snap.vms@.len(),
            vv == mos_view(snap.vms@),
            nv == names_view(snap.host_names@),
            disk_rows_of(vv.take(i as int), nv) == Ok::<Seq<(Seq<char>, Seq<CellValue>)>, Seq<char>>(tagged_rows(out@)),
        decreases snap.vms.len() - i,
    {
        proof {
            assert(vv.take(i + 1).drop_last() =~= vv.take(i as int));
            assert(vv.take(i + 1).last() == snap.vms@[i as int]@);
        }
        let vm = &snap.vms[i];
        let ctx = match VmContext::from(vm, &snap.host_names) {
            Err(e) => {
                proof { lemma_disk_rows_err_stays(vv, nv, i as int + 1); }
                return Err(e);
            },
            Ok(None) => {
                proof { assert(tagged_rows(out@) + Seq::<(Seq<char>, Seq<CellValue>)>::empty() =~= tagged_rows(out@)); }
                i += 1;
                continue;
            },
            Ok(Some(c)) => c,
        };
        let devices = vm.array_prop("config.hardware.device");
        let ghost dv = array_prop_of(vm@, "config.hardware.device"@);
        proof { assert(devices@.map_values(|d: &Element| d@) =~= dv); }
        let controllers = controller_labels(&devices);
        let ghost cv = label_pairs(controllers@);
        let ghost before = tagged_rows(out@);
        let mut k: usize = 0;
        proof { assert(dv.take(0) =~= Seq::<XNode>::empty()); }
        while k < devices.len()
            invariant
                k <= devices@.len(),
                devices@.len() == dv.len(),
                forall|m: int| 0 <= m < dv.len() ==> (#[trigger] devices@[m])@ == dv[m],
                cv == label_pairs(controllers@),
                cv == labels_of(dv),
                tagged_rows(out@) =~= before + Seq::new(
                    disks_of(dv.take(k as int)).len(),
                    |j: int| (vm@.moref, disk_row_of(ctx@, disks_of(dv.take(k as int))[j], cv)),
                ),
            decreases devices.len() - k,
        {
            let ghost prev = disks_of(dv.take(k as int));
            proof {
                assert(dv.take(k + 1).drop_last() =~= dv.take(k as int));
                assert(dv.take(k + 1).last() == devices@[k as int]@);
            }
            let d = devices[k];
            let disk = match &d.xsi_type {
                Some(t) => str_eq(t.as_str(), "VirtualDisk"),
                None => false,
            };
            if disk {
                let row = disk_row(&ctx, d, &controllers);
                let ghost ob = out@;
                out.push((vm.moref.clone(), row));
                proof {
                    assert(is_disk(d@));
                    assert(disks_of(dv.take(k + 1)) == prev.push(d@));
                    assert(tagged_rows(out@) =~= tagged_rows(ob).push((vm@.moref, row_view(row))));
                }
            } else {
                proof {
                    assert(!is_disk(d@));
                    assert(disks_of(dv.take(k + 1)) == prev);
                }
            }
            k += 1;
        }
        proof {
            assert(dv.take(dv.len() as int) =~= dv);
            assert(vm_disk_rows_of(vm@, nv) == Ok::<Seq<(Seq<char>, Seq<CellValue>)>, Seq<char>>(Seq::new(
                disks_of(dv).len(),
                |j: int| (vm@.moref, disk_row_of(ctx@, disks_of(dv)[j], labels_of(dv))),
            )));
        }
        i += 1;
    }
    proof { assert(vv.take(vv.len() as int) =~= vv); }
    Ok(out)
}

/// Every vDisk row has one cell per column.
pub proof fn lemma_disk_rows_width(vms: Seq<MoView>, names: Seq<(Seq<char>, Seq<char>)>)
    ensures
        disk_rows_of(vms, names) matches Ok(rows) ==> crate::data::tagged_width(rows, column_spec().len() as int),
    decreases vms.len(),
{
    if vms.len() > 0 {
        lemma_disk_rows_width(vms.drop_last(), names);
        if let Ok(rows) = disk_rows_of(vms, names) {
            let prev = disk_rows_of(vms.drop_last(), names)->Ok_0;
            let more = vm_disk_rows_of(vms.last(), names)->Ok_0;
            assert(rows == prev + more);
            assert forall|i: int| 0 <= i < more.len() implies (#[trigger] more[i]).1.len() == column_spec().len() by {
                let ctx = vm_context_of(vms.last(), names)->Ok_0->Some_0;
                let devices = array_prop_of(vms.last(), "config.hardware.device"@);
                assert(more[i].1 == disk_row_of(ctx, disks_of(devices)[i], labels_of(devices)));
            }
            crate::data::lemma_tagged_width_concat(prev, more, column_spec().len() as int);
        }
    }
}
} // verus!
