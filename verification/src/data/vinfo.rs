//! vInfo — one row per virtual machine.

use vstd::prelude::*;
use super::{
    append_cells,
    columns_view,
    hundredths_value,
    opt_bool_value,
    opt_hundredths,
    opt_num_value,
    opt_text_value,
    row_view,
    rows_view,
    text_cell,
    Cell,
    CellValue,
    Column,
    ColumnKind,
};
use super::common::{gib_of, host_label_of, no_name_error, opt_gib, percent, percent_of, whole, whole_of};
use super::snapshot::{lookup_name, mos_view, names_view, InventorySnapshot};
use crate::text::{has_prefix, starts_with};
use crate::vcenter::soap::{strs_view, bool_prop_of, i64_prop_of, str_prop_of, ManagedObject, MoView};

verus! {

/// The sheet's columns, labels as RVTools writes them.
pub open spec fn column_spec() -> Seq<(Seq<char>, ColumnKind)> {
    seq![
        ("VM"@, ColumnKind::Text),
        ("Powerstate"@, ColumnKind::Text),
        ("Template"@, ColumnKind::Bool),
        ("DNS Name"@, ColumnKind::Text),
        ("CPUs"@, ColumnKind::Number),
        ("Cores p/s"@, ColumnKind::Number),
        ("Memory"@, ColumnKind::Number),
        ("CPU Usage (%)"@, ColumnKind::Number),
        ("Memory Usage (%)"@, ColumnKind::Number),
        ("Provisioned GiB"@, ColumnKind::Number),
        ("In Use GiB"@, ColumnKind::Number),
        ("Primary IP Address"@, ColumnKind::Text),
        ("OS according to the configuration file"@, ColumnKind::Text),
        ("OS according to the VMware Tools"@, ColumnKind::Text),
        ("Tools Version Status"@, ColumnKind::Text),
        ("Tools Running Status"@, ColumnKind::Text),
        ("Host"@, ColumnKind::Text),
        ("Creation date"@, ColumnKind::Text),
        ("HW version"@, ColumnKind::Text),
        ("Firmware"@, ColumnKind::Text),
        ("EFI Secure boot"@, ColumnKind::Bool),
        ("Path"@, ColumnKind::Text),
        ("Annotation"@, ColumnKind::Text),
        ("Change Version"@, ColumnKind::Text),
        ("VM UUID"@, ColumnKind::Text),
    ]
}

/// Which column a label names; `-1` for none.
#[verifier::opaque]
pub open spec fn label_index(s: Seq<char>) -> int {
    if s == "VM"@ {
        0
    } else if s == "Powerstate"@ {
        1
    } else if s == "Template"@ {
        2
    } else if s == "DNS Name"@ {
        3
    } else if s == "CPUs"@ {
        4
    } else if s == "Cores p/s"@ {
        5
    } else if s == "Memory"@ {
        6
    } else if s == "CPU Usage (%)"@ {
        7
    } else if s == "Memory Usage (%)"@ {
        8
    } else if s == "Provisioned GiB"@ {
        9
    } else if s == "In Use GiB"@ {
        10
    } else if s == "Primary IP Address"@ {
        11
    } else if s == "OS according to the configuration file"@ {
        12
    } else if s == "OS according to the VMware Tools"@ {
        13
    } else if s == "Tools Version Status"@ {
        14
    } else if s == "Tools Running Status"@ {
        15
    } else if s == "Host"@ {
        16
    } else if s == "Creation date"@ {
        17
    } else if s == "HW version"@ {
        18
    } else if s == "Firmware"@ {
        19
    } else if s == "EFI Secure boot"@ {
        20
    } else if s == "Path"@ {
        21
    } else if s == "Annotation"@ {
        22
    } else if s == "Change Version"@ {
        23
    } else if s == "VM UUID"@ {
        24
    } else {
        -1
    }
}

/// The sheet's labels are distinct, and none is `VI SDK Server`.
pub proof fn lemma_labels_ok()
    ensures
        super::labels_ok(column_spec()),
{
    reveal(label_index);
    reveal_strlit("VM");
    assert("VM"@.len() == 2);
    reveal_strlit("Powerstate");
    assert("Powerstate"@.len() == 10);
    reveal_strlit("Template");
    assert("Template"@.len() == 8);
    reveal_strlit("DNS Name");
    assert("DNS Name"@.len() == 8);
    reveal_strlit("CPUs");
    assert("CPUs"@.len() == 4);
    reveal_strlit("Cores p/s");
    assert("Cores p/s"@.len() == 9);
    reveal_strlit("Memory");
    assert("Memory"@.len() == 6);
    reveal_strlit("CPU Usage (%)");
    assert("CPU Usage (%)"@.len() == 13);
    reveal_strlit("Memory Usage (%)");
    assert("Memory Usage (%)"@.len() == 16);
    reveal_strlit("Provisioned GiB");
    assert("Provisioned GiB"@.len() == 15);
    reveal_strlit("In Use GiB");
    assert("In Use GiB"@.len() == 10);
    reveal_strlit("Primary IP Address");
    assert("Primary IP Address"@.len() == 18);
    reveal_strlit("OS according to the configuration file");
    assert("OS according to the configuration file"@.len() == 38);
    reveal_strlit("OS according to the VMware Tools");
    assert("OS according to the VMware Tools"@.len() == 32);
    reveal_strlit("Tools Version Status");
    assert("Tools Version Status"@.len() == 20);
    reveal_strlit("Tools Running Status");
    assert("Tools Running Status"@.len() == 20);
    reveal_strlit("Host");
    assert("Host"@.len() == 4);
    reveal_strlit("Creation date");
    assert("Creation date"@.len() == 13);
    reveal_strlit("HW version");
    assert("HW version"@.len() == 10);
    reveal_strlit("Firmware");
    assert("Firmware"@.len() == 8);
    reveal_strlit("EFI Secure boot");
    assert("EFI Secure boot"@.len() == 15);
    reveal_strlit("Path");
    assert("Path"@.len() == 4);
    reveal_strlit("Annotation");
    assert("Annotation"@.len() == 10);
    reveal_strlit("Change Version");
    assert("Change Version"@.len() == 14);
    reveal_strlit("VM UUID");
    assert("VM UUID"@.len() == 7);
    reveal_strlit("VI SDK Server");
    assert("VI SDK Server"@.len() == 13);
    assert("Powerstate"@[0] == 'P');
    assert("In Use GiB"@[0] == 'I');
    assert("HW version"@[0] == 'H');
    assert("Annotation"@[0] == 'A');
    assert("Template"@[0] == 'T');
    assert("DNS Name"@[0] == 'D');
    assert("Firmware"@[0] == 'F');
    assert("CPUs"@[0] == 'C');
    assert("Host"@[0] == 'H');
    assert("Path"@[0] == 'P');
    assert("CPU Usage (%)"@[1] == 'P');
    assert("Creation date"@[1] == 'r');
    assert("CPU Usage (%)"@[0] == 'C');
    assert("VI SDK Server"@[0] == 'V');
    assert("Provisioned GiB"@[0] == 'P');
    assert("EFI Secure boot"@[0] == 'E');
    assert("Tools Version Status"@[6] == 'V');
    assert("Tools Running Status"@[6] == 'R');
    assert("Creation date"@[0] == 'C');
    let cols = column_spec();
    assert(label_index(super::VI_SDK_SERVER@) == -1);
    assert forall|i: int| 0 <= i < cols.len() implies label_index(#[trigger] cols[i].0) == i by {
        if i == 0 {
                    assert(label_index(cols[0].0) == 0);
                } else if i == 1 {
                    assert(label_index(cols[1].0) == 1);
                } else if i == 2 {
                    assert(label_index(cols[2].0) == 2);
                } else if i == 3 {
                    assert(label_index(cols[3].0) == 3);
                } else if i == 4 {
                    assert(label_index(cols[4].0) == 4);
                } else if i == 5 {
                    assert(label_index(cols[5].0) == 5);
                } else if i == 6 {
                    assert(label_index(cols[6].0) == 6);
                } else if i == 7 {
                    assert(label_index(cols[7].0) == 7);
                } else if i == 8 {
                    assert(label_index(cols[8].0) == 8);
                } else if i == 9 {
                    assert(label_index(cols[9].0) == 9);
                } else if i == 10 {
                    assert(label_index(cols[10].0) == 10);
                } else if i == 11 {
                    assert(label_index(cols[11].0) == 11);
                } else if i == 12 {
                    assert(label_index(cols[12].0) == 12);
                } else if i == 13 {
                    assert(label_index(cols[13].0) == 13);
                } else if i == 14 {
                    assert(label_index(cols[14].0) == 14);
                } else if i == 15 {
                    assert(label_index(cols[15].0) == 15);
                } else if i == 16 {
                    assert(label_index(cols[16].0) == 16);
                } else if i == 17 {
                    assert(label_index(cols[17].0) == 17);
                } else if i == 18 {
                    assert(label_index(cols[18].0) == 18);
                } else if i == 19 {
                    assert(label_index(cols[19].0) == 19);
                } else if i == 20 {
                    assert(label_index(cols[20].0) == 20);
                } else if i == 21 {
                    assert(label_index(cols[21].0) == 21);
                } else if i == 22 {
                    assert(label_index(cols[22].0) == 22);
                } else if i == 23 {
                    assert(label_index(cols[23].0) == 23);
                } else if i == 24 {
                    assert(label_index(cols[24].0) == 24);
                }
    }
}

pub fn columns() -> (r: Vec<Column>)
    ensures
        columns_view(r@) == column_spec(),
{
    let r = vec![
        Column::text("VM"),
        Column::text("Powerstate"),
        Column::bool("Template"),
        Column::text("DNS Name"),
        Column::number("CPUs"),
        Column::number("Cores p/s"),
        Column::number("Memory"),
        Column::number("CPU Usage (%)"),
        Column::number("Memory Usage (%)"),
        Column::number("Provisioned GiB"),
        Column::number("In Use GiB"),
        Column::text("Primary IP Address"),
        Column::text("OS according to the configuration file"),
        Column::text("OS according to the VMware Tools"),
        Column::text("Tools Version Status"),
        Column::text("Tools Running Status"),
        Column::text("Host"),
        Column::text("Creation date"),
        Column::text("HW version"),
        Column::text("Firmware"),
        Column::bool("EFI Secure boot"),
        Column::text("Path"),
        Column::text("Annotation"),
        Column::text("Change Version"),
        Column::text("VM UUID"),
    ];
    proof { assert(columns_view(r@) =~= column_spec()); }
    r
}

/// `VirtualMachine` properties this sheet reads.
pub open spec fn vm_prop_names() -> Seq<Seq<char>> {
    seq![
        "name"@,
        "config.template"@,
        "runtime.powerState"@,
        "runtime.host"@,
        "guest.ipAddress"@,
        "guest.hostName"@,
        "guest.guestFullName"@,
        "config.guestFullName"@,
        "guest.toolsVersionStatus"@,
        "guest.toolsRunningStatus"@,
        "config.createDate"@,
        "config.version"@,
        "config.annotation"@,
        "config.firmware"@,
        "config.bootOptions.efiSecureBootEnabled"@,
        "config.hardware.numCPU"@,
        "config.hardware.numCoresPerSocket"@,
        "config.hardware.memoryMB"@,
        "config.files.vmPathName"@,
        "config.changeVersion"@,
        "config.uuid"@,
        "summary.storage.committed"@,
        "summary.storage.uncommitted"@,
        "summary.quickStats.overallCpuUsage"@,
        "summary.runtime.maxCpuUsage"@,
        "summary.quickStats.guestMemoryUsage"@,
        "summary.config.memorySizeMB"@,
    ]
}

/// `VirtualMachine` properties this sheet reads.
pub fn vm_props() -> (r: Vec<&'static str>)
    ensures
        strs_view(r@) == vm_prop_names(),
{
    let r = vec![
        "name",
        "config.template",
        "runtime.powerState",
        "runtime.host",
        "guest.ipAddress",
        "guest.hostName",
        "guest.guestFullName",
        "config.guestFullName",
        "guest.toolsVersionStatus",
        "guest.toolsRunningStatus",
        "config.createDate",
        "config.version",
        "config.annotation",
        "config.firmware",
        "config.bootOptions.efiSecureBootEnabled",
        "config.hardware.numCPU",
        "config.hardware.numCoresPerSocket",
        "config.hardware.memoryMB",
        "config.files.vmPathName",
        "config.changeVersion",
        "config.uuid",
        "summary.storage.committed",
        "summary.storage.uncommitted",
        "summary.quickStats.overallCpuUsage",
        "summary.runtime.maxCpuUsage",
        "summary.quickStats.guestMemoryUsage",
        "summary.config.memorySizeMB",
    ];
    proof { assert(strs_view(r@) =~= vm_prop_names()); }
    r
}

/// Provisioned space: committed plus uncommitted, when both are reported.
pub open spec fn provisioned_of(vm: MoView) -> Option<int> {
    match (i64_prop_of(vm, "summary.storage.committed"@), i64_prop_of(vm, "summary.storage.uncommitted"@)) {
        (Some(c), Some(u)) => gib_of(Some((c + u) as i64)),
        _ => None,
    }
}

/// The figure columns, `CPUs` to `In Use GiB`.
pub open spec fn figure_cells(vm: MoView) -> Seq<CellValue> {
    seq![
        opt_num_value(whole_of(i64_prop_of(vm, "config.hardware.numCPU"@))),
        opt_num_value(whole_of(i64_prop_of(vm, "config.hardware.numCoresPerSocket"@))),
        opt_num_value(whole_of(i64_prop_of(vm, "config.hardware.memoryMB"@))),
        hundredths_value(percent_of(
            i64_prop_of(vm, "summary.quickStats.overallCpuUsage"@),
            i64_prop_of(vm, "summary.runtime.maxCpuUsage"@),
        )),
        hundredths_value(percent_of(
            i64_prop_of(vm, "summary.quickStats.guestMemoryUsage"@),
            i64_prop_of(vm, "summary.config.memorySizeMB"@),
        )),
        hundredths_value(provisioned_of(vm)),
        hundredths_value(gib_of(i64_prop_of(vm, "summary.storage.committed"@))),
    ]
}

/// The descriptive columns, `Primary IP Address` to `VM UUID`.
pub open spec fn detail_cells(vm: MoView, names: Seq<(Seq<char>, Seq<char>)>) -> Seq<CellValue> {
    seq![
        opt_text_value(str_prop_of(vm, "guest.ipAddress"@)),
        opt_text_value(str_prop_of(vm, "config.guestFullName"@)),
        opt_text_value(str_prop_of(vm, "guest.guestFullName"@)),
        opt_text_value(str_prop_of(vm, "guest.toolsVersionStatus"@)),
        opt_text_value(str_prop_of(vm, "guest.toolsRunningStatus"@)),
        opt_text_value(host_label_of(vm, names)),
        opt_text_value(str_prop_of(vm, "config.createDate"@)),
        opt_text_value(str_prop_of(vm, "config.version"@)),
        opt_text_value(str_prop_of(vm, "config.firmware"@)),
        opt_bool_value(bool_prop_of(vm, "config.bootOptions.efiSecureBootEnabled"@)),
        opt_text_value(str_prop_of(vm, "config.files.vmPathName"@)),
        opt_text_value(str_prop_of(vm, "config.annotation"@)),
        opt_text_value(str_prop_of(vm, "config.changeVersion"@)),
        opt_text_value(str_prop_of(vm, "config.uuid"@)),
    ]
}

/// A VM's row: an error when it has no name, none for a vCLS VM (vSphere's
/// own VM count excludes them).
pub open spec fn vm_row_of(vm: MoView, names: Seq<(Seq<char>, Seq<char>)>) -> Result<Option<Seq<CellValue>>, Seq<char>> {
    match str_prop_of(vm, "name"@) {
        None => Err(no_name_error("VirtualMachine "@, vm.moref)),
        Some(n) => if has_prefix(n, "vCLS-"@) {
            Ok(None)
        } else {
            Ok(Some(
                seq![
                    CellValue::Text(n),
                    opt_text_value(str_prop_of(vm, "runtime.powerState"@)),
                    opt_bool_value(bool_prop_of(vm, "config.template"@)),
                    opt_text_value(str_prop_of(vm, "guest.hostName"@)),
                ] + figure_cells(vm) + detail_cells(vm, names),
            ))
        },
    }
}

/// Committed plus uncommitted space stays within `i64`.
pub open spec fn vm_row_fits(vm: MoView) -> bool {
    match (i64_prop_of(vm, "summary.storage.committed"@), i64_prop_of(vm, "summary.storage.uncommitted"@)) {
        (Some(c), Some(u)) => i64::MIN <= c + u <= i64::MAX,
        _ => true,
    }
}

/// Every VM's row, in order, vCLS VMs left out; the first nameless VM is an
/// error.
pub open spec fn vm_rows_of(vms: Seq<MoView>, names: Seq<(Seq<char>, Seq<char>)>) -> Result<Seq<Seq<CellValue>>, Seq<char>>
    decreases vms.len(),
{
    if vms.len() == 0 {
        Ok(Seq::empty())
    } else {
        match vm_rows_of(vms.drop_last(), names) {
            Err(e) => Err(e),
            Ok(rows) => match vm_row_of(vms.last(), names) {
                Err(e) => Err(e),
                Ok(None) => Ok(rows),
                Ok(Some(row)) => Ok(rows.push(row)),
            },
        }
    }
}

fn figure_row(vm: &ManagedObject) -> (r: Vec<Cell>)
    requires
        vm_row_fits(vm@),
    ensures
        row_view(r) == figure_cells(vm@),
{
    let committed = vm.i64_prop("summary.storage.committed");
    let provisioned = match (committed, vm.i64_prop("summary.storage.uncommitted")) {
        (Some(c), Some(u)) => opt_gib(Some(c + u)),
        _ => None,
    };
    let c3 = opt_hundredths(percent(vm.i64_prop("summary.quickStats.overallCpuUsage"), vm.i64_prop("summary.runtime.maxCpuUsage")));
    let c4 = opt_hundredths(percent(vm.i64_prop("summary.quickStats.guestMemoryUsage"), vm.i64_prop("summary.config.memorySizeMB")));
    let c5 = opt_hundredths(provisioned);
    proof { assert(c5@ == hundredths_value(provisioned_of(vm@))); }
    let r = vec![
        Cell::opt_num(whole(vm.i64_prop("config.hardware.numCPU"))),
        Cell::opt_num(whole(vm.i64_prop("config.hardware.numCoresPerSocket"))),
        Cell::opt_num(whole(vm.i64_prop("config.hardware.memoryMB"))),
        c3,
        c4,
        c5,
        opt_hundredths(opt_gib(committed)),
    ];
    proof { assert(row_view(r) =~= figure_cells(vm@)); }
    r
}

#[verifier::rlimit(30)]
fn detail_row(vm: &ManagedObject, names: &Vec<(String, String)>) -> (r: Vec<Cell>)
    ensures
        row_view(r) == detail_cells(vm@, names_view(names@)),
{
    let host = match vm.str_prop("runtime.host") {
        Some(h) => match lookup_name(names, h.as_str()) {
            Some(n) => Some(n),
            None => Some(h),
        },
        None => None,
    };
    let r = vec![
        text_cell(vm.str_prop("guest.ipAddress")),
        text_cell(vm.str_prop("config.guestFullName")),
        text_cell(vm.str_prop("guest.guestFullName")),
        text_cell(vm.str_prop("guest.toolsVersionStatus")),
        text_cell(vm.str_prop("guest.toolsRunningStatus")),
        text_cell(host),
        text_cell(vm.str_prop("config.createDate")),
        text_cell(vm.str_prop("config.version")),
        text_cell(vm.str_prop("config.firmware")),
        Cell::opt_bool(vm.bool_prop("config.bootOptions.efiSecureBootEnabled")),
        text_cell(vm.str_prop("config.files.vmPathName")),
        text_cell(vm.str_prop("config.annotation")),
        text_cell(vm.str_prop("config.changeVersion")),
        text_cell(vm.str_prop("config.uuid")),
    ];
    proof { assert(row_view(r) =~= detail_cells(vm@, names_view(names@))); }
    r
}

/// One VM's vInfo row.
pub fn vm_row(vm: &ManagedObject, names: &Vec<(String, String)>) -> (r: Result<Option<Vec<Cell>>, String>)
    requires
        vm_row_fits(vm@),
    ensures
        match r {
            Ok(Some(row)) => vm_row_of(vm@, names_view(names@)) == Ok::<Option<Seq<CellValue>>, Seq<char>>(Some(row_view(row))),
            Ok(None) => vm_row_of(vm@, names_view(names@)) == Ok::<Option<Seq<CellValue>>, Seq<char>>(None),
            Err(e) => vm_row_of(vm@, names_view(names@)) == Err::<Option<Seq<CellValue>>, Seq<char>>(e@),
        },
{
    let name = match vm.str_prop("name") {
        Some(n) => n,
        None => {
            return Err(String::from_str("VirtualMachine ").concat(vm.moref.as_str()).concat(" returned no name property"));
        },
    };
    if starts_with(name.as_str(), "vCLS-") {
        return Ok(None);
    }
    let ghost nm = name@;
    let head = vec![
        Cell::Text(name),
        text_cell(vm.str_prop("runtime.powerState")),
        Cell::opt_bool(vm.bool_prop("config.template")),
        text_cell(vm.str_prop("guest.hostName")),
    ];
    let ghost hv = row_view(head);
    proof {
        assert(hv =~= seq![
            CellValue::Text(nm),
            opt_text_value(str_prop_of(vm@, "runtime.powerState"@)),
            opt_bool_value(bool_prop_of(vm@, "config.template"@)),
            opt_text_value(str_prop_of(vm@, "guest.hostName"@)),
        ]);
    }
    let r = append_cells(head, figure_row(vm));
    let r = append_cells(r, detail_row(vm, names));
    proof { assert(row_view(r) =~= hv + figure_cells(vm@) + detail_cells(vm@, names_view(names@))); }
    Ok(Some(r))
}

pub proof fn lemma_vm_rows_err_stays(vms: Seq<MoView>, names: Seq<(Seq<char>, Seq<char>)>, k: int)
    requires
        0 <= k <= vms.len(),
        vm_rows_of(vms.take(k), names) is Err,
    ensures
        vm_rows_of(vms, names) == vm_rows_of(vms.take(k), names),
    decreases vms.len() - k,
{
    if k < vms.len() {
        assert(vms.take(k + 1).drop_last() =~= vms.take(k));
        lemma_vm_rows_err_stays(vms, names, k + 1);
    } else {
        assert(vms.take(k) =~= vms);
    }
}

/// Build vInfo rows from an already-fetched snapshot, resolving each VM's
/// host through the snapshot's host names.
pub fn rows(snap: &InventorySnapshot) -> (r: Result<Vec<Vec<Cell>>, String>)
    requires
        forall|i: int| 0 <= i < snap.vms@.len() ==> vm_row_fits(#[trigger] snap.vms@[i]@),
    ensures
        match r {
            Ok(rows) => vm_rows_of(mos_view(snap.vms@), names_view(snap.host_names@)) == Ok::<Seq<Seq<CellValue>>, Seq<char>>(rows_view(rows@)),
            Err(e) => vm_rows_of(mos_view(snap.vms@), names_view(snap.host_names@)) == Err::<Seq<Seq<CellValue>>, Seq<char>>(e@),
        },
{
    let ghost vv = mos_view(snap.vms@);
    let ghost nv = names_view(snap.host_names@);
    let mut out: Vec<Vec<Cell>> = Vec::new();
    let mut i: usize = 0;
    proof {
        assert(vv.take(0) =~= Seq::<MoView>::empty());
        assert(rows_view(out@) =~= Seq::<Seq<CellValue>>::empty());
    }
    while i < snap.vms.len()
        invariant
            i <= snap.vms@.len(),
            vv == mos_view(snap.vms@),
            nv == names_view(snap.host_names@),
            forall|k: int| 0 <= k < snap.vms@.len() ==> vm_row_fits(#[trigger] snap.vms@[k]@),
            vm_rows_of(vv.take(i as int), nv) == Ok::<Seq<Seq<CellValue>>, Seq<char>>(rows_view(out@)),
        decreases snap.vms.len() - i,
    {
        proof {
            assert(vv.take(i + 1).drop_last() =~= vv.take(i as int));
            assert(vv.take(i + 1).last() == snap.vms@[i as int]@);
        }
        match vm_row(&snap.vms[i], &snap.host_names) {
            Ok(Some(row)) => {
                let ghost before = out@;
                out.push(row);
                proof { assert(rows_view(out@) =~= rows_view(before).push(row_view(row))); }
            },
            Ok(None) => {},
            Err(e) => {
                proof { lemma_vm_rows_err_stays(vv, nv, i as int + 1); }
                return Err(e);
            },
        }
        i += 1;
    }
    proof { assert(vv.take(vv.len() as int) =~= vv); }
    Ok(out)
}

/// Whether every VM's committed plus uncommitted space stays within `i64`.
pub fn rows_fit(vms: &Vec<ManagedObject>) -> (r: bool)
    ensures
        r == forall|i: int| 0 <= i < vms@.len() ==> vm_row_fits(#[trigger] vms@[i]@),
{
    let mut i: usize = 0;
    while i < vms.len()
        invariant
            i <= vms@.len(),
            forall|k: int| 0 <= k < i ==> vm_row_fits(#[trigger] vms@[k]@),
        decreases vms.len() - i,
    {
        let vm = &vms[i];
        match (vm.i64_prop("summary.storage.committed"), vm.i64_prop("summary.storage.uncommitted")) {
            (Some(c), Some(u)) => {
                if c.checked_add(u).is_none() {
                    proof { assert(!vm_row_fits(vms@[i as int]@)); }
                    return false;
                }
            },
            _ => {},
        }
        i += 1;
    }
    true
}

/// vInfo rows, or `None` when a VM's committed plus uncommitted space would
/// leave `i64`.
pub fn checked_rows(snap: &InventorySnapshot) -> (r: Option<Result<Vec<Vec<Cell>>, String>>)
    ensures
        match r {
            None => !(forall|i: int| 0 <= i < snap.vms@.len() ==> vm_row_fits(#[trigger] snap.vms@[i]@)),
            Some(Ok(rows)) => vm_rows_of(mos_view(snap.vms@), names_view(snap.host_names@)) == Ok::<Seq<Seq<CellValue>>, Seq<char>>(rows_view(rows@)),
            Some(Err(e)) => vm_rows_of(mos_view(snap.vms@), names_view(snap.host_names@)) == Err::<Seq<Seq<CellValue>>, Seq<char>>(e@),
        },
        r is Some ==> forall|i: int| 0 <= i < snap.vms@.len() ==> vm_row_fits(#[trigger] snap.vms@[i]@),
{
    if rows_fit(&snap.vms) {
        Some(rows(snap))
    } else {
        None
    }
}

/// Every vInfo row has one cell per column.
pub proof fn lemma_vm_rows_width(vms: Seq<MoView>, names: Seq<(Seq<char>, Seq<char>)>)
    ensures
        vm_rows_of(vms, names) matches Ok(rows) ==> crate::data::all_width(rows, column_spec().len() as int),
    decreases vms.len(),
{
    if vms.len() > 0 {
        lemma_vm_rows_width(vms.drop_last(), names);
        if let Ok(rows) = vm_rows_of(vms, names) {
            if let Ok(Some(row)) = vm_row_of(vms.last(), names) {
                let prev = vm_rows_of(vms.drop_last(), names)->Ok_0;
                assert(rows == prev.push(row));
                assert(row.len() == column_spec().len());
                assert forall|i: int| 0 <= i < rows.len() implies (#[trigger] rows[i]).len() == column_spec().len() by {
                    if i < prev.len() {
                        assert(rows[i] == prev[i]);
                    }
                }
            }
        }
    }
}
} // verus!
