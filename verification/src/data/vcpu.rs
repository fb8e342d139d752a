//! vCPU — one row per VM, CPU sizing and scheduling.

use vstd::prelude::*;
use super::{append_cells, columns_view, opt_bool_value, opt_text_value, row_view, rows_view, Cell, CellValue, Column, ColumnKind};
use super::common::{vm_context_of, VmContext, VmContextView};
use super::per_object::{
    mos,
    per_object_rows,
    per_object_rows_of,
    vm_head,
    vm_head_cells,
    vm_tail,
    vm_tail_cells,
    whole_cell,
    whole_value,
    PerObject,
};
use super::snapshot::{names_view, InventorySnapshot};
use super::vdisk::tagged_rows;
use crate::vcenter::soap::{bool_prop_of, i64_prop_of, str_prop_of, ManagedObject, MoView};

verus! {

/// The sheet's columns, labels as RVTools writes them.
pub open spec fn column_spec() -> Seq<(Seq<char>, ColumnKind)> {
    seq![
        ("VM"@, ColumnKind::Text),
        ("Powerstate"@, ColumnKind::Text),
        ("Template"@, ColumnKind::Bool),
        ("CPUs"@, ColumnKind::Number),
        ("Sockets"@, ColumnKind::Number),
        ("Cores p/s"@, ColumnKind::Number),
        ("Max"@, ColumnKind::Number),
        ("Overall"@, ColumnKind::Number),
        ("Level"@, ColumnKind::Text),
        ("Shares"@, ColumnKind::Number),
        ("Reservation"@, ColumnKind::Number),
        ("Entitlement"@, ColumnKind::Number),
        ("DRS Entitlement"@, ColumnKind::Number),
        ("Limit"@, ColumnKind::Number),
        ("Hot Add"@, ColumnKind::Bool),
        ("Hot Remove"@, ColumnKind::Bool),
        ("Host"@, ColumnKind::Text),
        ("Annotation"@, ColumnKind::Text),
    ]
}

/// Which column a label names; `-1` for none.
#[verifier::opaque]
pub open spec fn label_index(s: Seq<char>) -> int {
    if s == "VM"@ {
        0
    } else if s == "Powerstate"@ {
        1
    } else if s == "Template"@ {
        2
    } else if s == "CPUs"@ {
        3
    } else if s == "Sockets"@ {
        4
    } else if s == "Cores p/s"@ {
        5
    } else if s == "Max"@ {
        6
    } else if s == "Overall"@ {
        7
    } else if s == "Level"@ {
        8
    } else if s == "Shares"@ {
        9
    } else if s == "Reservation"@ {
        10
    } else if s == "Entitlement"@ {
        11
    } else if s == "DRS Entitlement"@ {
        12
    } else if s == "Limit"@ {
        13
    } else if s == "Hot Add"@ {
        14
    } else if s == "Hot Remove"@ {
        15
    } else if s == "Host"@ {
        16
    } else if s == "Annotation"@ {
        17
    } else {
        -1
    }
}

/// The sheet's labels are distinct, and none is `VI SDK Server`.
pub proof fn lemma_labels_ok()
    ensures
        super::labels_ok(column_spec()),
{
    reveal(label_index);
    reveal_strlit("VM");
    assert("VM"@.len() == 2);
    reveal_strlit("Powerstate");
    assert("Powerstate"@.len() == 10);
    reveal_strlit("Template");
    assert("Template"@.len() == 8);
    reveal_strlit("CPUs");
    assert("CPUs"@.len() == 4);
    reveal_strlit("Sockets");
    assert("Sockets"@.len() == 7);
    reveal_strlit("Cores p/s");
    assert("Cores p/s"@.len() == 9);
    reveal_strlit("Max");
    assert("Max"@.len() == 3);
    reveal_strlit("Overall");
    assert("Overall"@.len() == 7);
    reveal_strlit("Level");
    assert("Level"@.len() == 5);
    reveal_strlit("Shares");
    assert("Shares"@.len() == 6);
    reveal_strlit("Reservation");
    assert("Reservation"@.len() == 11);
    reveal_strlit("Entitlement");
    assert("Entitlement"@.len() == 11);
    reveal_strlit("DRS Entitlement");
    assert("DRS Entitlement"@.len() == 15);
    reveal_strlit("Limit");
    assert("Limit"@.len() == 5);
    reveal_strlit("Hot Add");
    assert("Hot Add"@.len() == 7);
    reveal_strlit("Hot Remove");
    assert("Hot Remove"@.len() == 10);
    reveal_strlit("Host");
    assert("Host"@.len() == 4);
    reveal_strlit("Annotation");
    assert("Annotation"@.len() == 10);
    reveal_strlit("VI SDK Server");
    assert("VI SDK Server"@.len() == 13);
    assert("Powerstate"@[0] == 'P');
    assert("Hot Remove"@[0] == 'H');
    assert("Annotation"@[0] == 'A');
    assert("CPUs"@[0] == 'C');
    assert("Host"@[0] == 'H');
    assert("Sockets"@[0] == 'S');
    assert("Overall"@[0] == 'O');
    assert("Hot Add"@[0] == 'H');
    assert("Level"@[1] == 'e');
    assert("Limit"@[1] == 'i');
    assert("Reservation"@[0] == 'R');
    assert("Entitlement"@[0] == 'E');
    let cols = column_spec();
    assert(label_index(super::VI_SDK_SERVER@) == -1);
    assert forall|i: int| 0 <= i < cols.len() implies label_index(#[trigger] cols[i].0) == i by {
        if i == 0 {
                    assert(label_index(cols[0].0) == 0);
                } else if i == 1 {
                    assert(label_index(cols[1].0) == 1);
                } else if i == 2 {
                    assert(label_index(cols[2].0) == 2);
                } else if i == 3 {
                    assert(label_index(cols[3].0) == 3);
                } else if i == 4 {
                    assert(label_index(cols[4].0) == 4);
                } else if i == 5 {
                    assert(label_index(cols[5].0) == 5);
                } else if i == 6 {
                    assert(label_index(cols[6].0) == 6);
                } else if i == 7 {
                    assert(label_index(cols[7].0) == 7);
                } else if i == 8 {
                    assert(label_index(cols[8].0) == 8);
                } else if i == 9 {
                    assert(label_index(cols[9].0) == 9);
                } else if i == 10 {
                    assert(label_index(cols[10].0) == 10);
                } else if i == 11 {
                    assert(label_index(cols[11].0) == 11);
                } else if i == 12 {
                    assert(label_index(cols[12].0) == 12);
                } else if i == 13 {
                    assert(label_index(cols[13].0) == 13);
                } else if i == 14 {
                    assert(label_index(cols[14].0) == 14);
                } else if i == 15 {
                    assert(label_index(cols[15].0) == 15);
                } else if i == 16 {
                    assert(label_index(cols[16].0) == 16);
                } else if i == 17 {
                    assert(label_index(cols[17].0) == 17);
                }
    }
}

pub fn columns() -> (r: Vec<Column>)
    ensures
        columns_view(r@) == column_spec(),
{
    let r = vec![
        Column::text("VM"),
        Column::text("Powerstate"),
        Column::bool("Template"),
        Column::number("CPUs"),
        Column::number("Sockets"),
        Column::number("Cores p/s"),
        Column::number("Max"),
        Column::number("Overall"),
        Column::text("Level"),
        Column::number("Shares"),
        Column::number("Reservation"),
        Column::number("Entitlement"),
        Column::number("DRS Entitlement"),
        Column::number("Limit"),
        Column::bool("Hot Add"),
        Column::bool("Hot Remove"),
        Column::text("Host"),
        Column::text("Annotation"),
    ];
    proof { assert(columns_view(r@) =~= column_spec()); }
    r
}

/// `c / p` rounded toward zero, as integer division does.
pub open spec fn quotient(c: int, p: int) -> int {
    if c >= 0 {
        c / p
    } else {
        -((-c) / p)
    }
}

/// Sockets: vCenter reports CPUs and cores per socket, not sockets.
pub open spec fn sockets_of(cpus: Option<i64>, per_socket: Option<i64>) -> Option<i64> {
    match (cpus, per_socket) {
        (Some(c), Some(p)) => if p > 0 {
            Some(quotient(c as int, p as int) as i64)
        } else {
            None
        },
        _ => None,
    }
}

fn sockets(cpus: Option<i64>, per_socket: Option<i64>) -> (r: Option<i64>)
    ensures
        r == sockets_of(cpus, per_socket),
{
    match (cpus, per_socket) {
        (Some(c), Some(p)) => if p > 0 {
            if c >= 0 {
                Some(c / p)
            } else {
                let q: i128 = (-(c as i128)) / (p as i128);
                Some((-q) as i64)
            }
        } else {
            None
        },
        _ => None,
    }
}

/// A VM's vCPU row. The maximum is empty for a powered-off VM, which
/// reports none; 0 would be a lie. A limit of -1 is vCenter's "unlimited",
/// shown as it comes.
pub open spec fn cpu_cells(vm: MoView, ctx: VmContextView) -> Seq<CellValue> {
    vm_head(ctx) + seq![
        whole_value(i64_prop_of(vm, "config.hardware.numCPU"@)),
        whole_value(sockets_of(i64_prop_of(vm, "config.hardware.numCPU"@), i64_prop_of(vm, "config.hardware.numCoresPerSocket"@))),
        whole_value(i64_prop_of(vm, "config.hardware.numCoresPerSocket"@)),
        whole_value(i64_prop_of(vm, "summary.runtime.maxCpuUsage"@)),
        whole_value(i64_prop_of(vm, "summary.quickStats.overallCpuUsage"@)),
        opt_text_value(str_prop_of(vm, "config.cpuAllocation.shares.level"@)),
        whole_value(i64_prop_of(vm, "config.cpuAllocation.shares.shares"@)),
        whole_value(i64_prop_of(vm, "config.cpuAllocation.reservation"@)),
        whole_value(i64_prop_of(vm, "summary.quickStats.staticCpuEntitlement"@)),
        whole_value(i64_prop_of(vm, "summary.quickStats.distributedCpuEntitlement"@)),
        whole_value(i64_prop_of(vm, "config.cpuAllocation.limit"@)),
        opt_bool_value(bool_prop_of(vm, "config.cpuHotAddEnabled"@)),
        opt_bool_value(bool_prop_of(vm, "config.cpuHotRemoveEnabled"@)),
    ] + vm_tail(ctx)
}

fn cpu_row(vm: &ManagedObject, ctx: &VmContext) -> (r: Vec<Cell>)
    ensures
        row_view(r) == cpu_cells(vm@, ctx@),
{
    let cpus = vm.i64_prop("config.hardware.numCPU");
    let per_socket = vm.i64_prop("config.hardware.numCoresPerSocket");
    let mid = vec![
        whole_cell(cpus),
        whole_cell(sockets(cpus, per_socket)),
        whole_cell(per_socket),
        whole_cell(vm.i64_prop("summary.runtime.maxCpuUsage")),
        whole_cell(vm.i64_prop("summary.quickStats.overallCpuUsage")),
        Cell::opt_text(vm.str_prop("config.cpuAllocation.shares.level")),
        whole_cell(vm.i64_prop("config.cpuAllocation.shares.shares")),
        whole_cell(vm.i64_prop("config.cpuAllocation.reservation")),
        whole_cell(vm.i64_prop("summary.quickStats.staticCpuEntitlement")),
        whole_cell(vm.i64_prop("summary.quickStats.distributedCpuEntitlement")),
        whole_cell(vm.i64_prop("config.cpuAllocation.limit")),
        Cell::opt_bool(vm.bool_prop("config.cpuHotAddEnabled")),
        Cell::opt_bool(vm.bool_prop("config.cpuHotRemoveEnabled")),
    ];
    let r = append_cells(append_cells(vm_head_cells(ctx), mid), vm_tail_cells(ctx));
    proof { assert(row_view(r) =~= cpu_cells(vm@, ctx@)); }
    r
}

/// A VM's rows: one, none for a vCLS VM, an error for a nameless VM.
pub open spec fn object_rows_of(vm: MoView, names: Seq<(Seq<char>, Seq<char>)>) -> Result<Seq<Seq<CellValue>>, Seq<char>> {
    match vm_context_of(vm, names) {
        Err(e) => Err(e),
        Ok(None) => Ok(Seq::empty()),
        Ok(Some(ctx)) => Ok(seq![cpu_cells(vm, ctx)]),
    }
}

pub fn object_rows(vm: &ManagedObject, names: &Vec<(String, String)>) -> (r: Result<Vec<Vec<Cell>>, String>)
    ensures
        match r {
            Ok(v) => object_rows_of(vm@, names_view(names@)) == Ok::<Seq<Seq<CellValue>>, Seq<char>>(rows_view(v@)),
            Err(e) => object_rows_of(vm@, names_view(names@)) == Err::<Seq<Seq<CellValue>>, Seq<char>>(e@),
        },
{
    match VmContext::from(vm, names) {
        Err(e) => Err(e),
        Ok(None) => {
            let v: Vec<Vec<Cell>> = Vec::new();
            proof { assert(rows_view(v@) =~= Seq::<Seq<CellValue>>::empty()); }
            Ok(v)
        },
        Ok(Some(ctx)) => {
            let v = vec![cpu_row(vm, &ctx)];
            proof { assert(rows_view(v@) =~= seq![cpu_cells(vm@, ctx@)]); }
            Ok(v)
        },
    }
}

/// vCPU: one row per VM, each with its moref; vCLS VMs are left out and the
/// first nameless VM is an error.
pub fn rows(snap: &InventorySnapshot) -> (r: Result<Vec<(String, Vec<Cell>)>, String>)
    ensures
        match r {
            Ok(v) => per_object_rows_of(PerObject::Cpu, mos(snap.vms@), names_view(snap.host_names@))
                == Ok::<Seq<(Seq<char>, Seq<CellValue>)>, Seq<char>>(tagged_rows(v@)),
            Err(e) => per_object_rows_of(PerObject::Cpu, mos(snap.vms@), names_view(snap.host_names@))
                == Err::<Seq<(Seq<char>, Seq<CellValue>)>, Seq<char>>(e@),
        },
{
    per_object_rows(PerObject::Cpu, &snap.vms, &snap.host_names)
}

} // verus!
