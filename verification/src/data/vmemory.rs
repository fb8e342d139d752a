//! vMemory — one row per VM, memory sizing and what the host is actually
//! backing it with.

use vstd::prelude::*;
use super::{append_cells, columns_view, opt_bool_value, opt_text_value, row_view, rows_view, Cell, CellValue, Column, ColumnKind};
use super::common::{vm_context_of, VmContext, VmContextView};
use super::per_object::{
    mos,
    per_object_rows,
    per_object_rows_of,
    vm_head,
    vm_head_cells,
    vm_tail,
    vm_tail_cells,
    whole_cell,
    whole_value,
    PerObject,
};
use super::snapshot::{names_view, InventorySnapshot};
use super::vdisk::tagged_rows;
use crate::vcenter::soap::{bool_prop_of, i64_prop_of, str_prop_of, ManagedObject, MoView};

verus! {

/// The sheet's columns, labels as RVTools writes them.
pub open spec fn column_spec() -> Seq<(Seq<char>, ColumnKind)> {
    seq![
        ("VM"@, ColumnKind::Text),
        ("Powerstate"@, ColumnKind::Text),
        ("Template"@, ColumnKind::Bool),
        ("Size MiB"@, ColumnKind::Number),
        ("Memory Reservation Locked To Max"@, ColumnKind::Bool),
        ("Consumed"@, ColumnKind::Number),
        ("Consumed Overhead"@, ColumnKind::Number),
        ("Private"@, ColumnKind::Number),
        ("Shared"@, ColumnKind::Number),
        ("Swapped"@, ColumnKind::Number),
        ("Ballooned"@, ColumnKind::Number),
        ("Active"@, ColumnKind::Number),
        ("Entitlement"@, ColumnKind::Number),
        ("DRS Entitlement"@, ColumnKind::Number),
        ("Level"@, ColumnKind::Text),
        ("Shares"@, ColumnKind::Number),
        ("Reservation"@, ColumnKind::Number),
        ("Limit"@, ColumnKind::Number),
        ("Hot Add"@, ColumnKind::Bool),
        ("Host"@, ColumnKind::Text),
        ("Annotation"@, ColumnKind::Text),
    ]
}

/// Which column a label names; `-1` for none.
#[verifier::opaque]
pub open spec fn label_index(s: Seq<char>) -> int {
    if s == "VM"@ {
        0
    } else if s == "Powerstate"@ {
        1
    } else if s == "Template"@ {
        2
    } else if s == "Size MiB"@ {
        3
    } else if s == "Memory Reservation Locked To Max"@ {
        4
    } else if s == "Consumed"@ {
        5
    } else if s == "Consumed Overhead"@ {
        6
    } else if s == "Private"@ {
        7
    } else if s == "Shared"@ {
        8
    } else if s == "Swapped"@ {
        9
    } else if s == "Ballooned"@ {
        10
    } else if s == "Active"@ {
        11
    } else if s == "Entitlement"@ {
        12
    } else if s == "DRS Entitlement"@ {
        13
    } else if s == "Level"@ {
        14
    } else if s == "Shares"@ {
        15
    } else if s == "Reservation"@ {
        16
    } else if s == "Limit"@ {
        17
    } else if s == "Hot Add"@ {
        18
    } else if s == "Host"@ {
        19
    } else if s == "Annotation"@ {
        20
    } else {
        -1
    }
}

/// The sheet's labels are distinct, and none is `VI SDK Server`.
pub proof fn lemma_labels_ok()
    ensures
        super::labels_ok(column_spec()),
{
    reveal(label_index);
    reveal_strlit("VM");
    assert("VM"@.len() == 2);
    reveal_strlit("Powerstate");
    assert("Powerstate"@.len() == 10);
    reveal_strlit("Template");
    assert("Template"@.len() == 8);
    reveal_strlit("Size MiB");
    assert("Size MiB"@.len() == 8);
    reveal_strlit("Memory Reservation Locked To Max");
    assert("Memory Reservation Locked To Max"@.len() == 32);
    reveal_strlit("Consumed");
    assert("Consumed"@.len() == 8);
    reveal_strlit("Consumed Overhead");
    assert("Consumed Overhead"@.len() == 17);
    reveal_strlit("Private");
    assert("Private"@.len() == 7);
    reveal_strlit("Shared");
    assert("Shared"@.len() == 6);
    reveal_strlit("Swapped");
    assert("Swapped"@.len() == 7);
    reveal_strlit("Ballooned");
    assert("Ballooned"@.len() == 9);
    reveal_strlit("Active");
    assert("Active"@.len() == 6);
    reveal_strlit("Entitlement");
    assert("Entitlement"@.len() == 11);
    reveal_strlit("DRS Entitlement");
    assert("DRS Entitlement"@.len() == 15);
    reveal_strlit("Level");
    assert("Level"@.len() == 5);
    reveal_strlit("Shares");
    assert("Shares"@.len() == 6);
    reveal_strlit("Reservation");
    assert("Reservation"@.len() == 11);
    reveal_strlit("Limit");
    assert("Limit"@.len() == 5);
    reveal_strlit("Hot Add");
    assert("Hot Add"@.len() == 7);
    reveal_strlit("Host");
    assert("Host"@.len() == 4);
    reveal_strlit("Annotation");
    assert("Annotation"@.len() == 10);
    reveal_strlit("VI SDK Server");
    assert("VI SDK Server"@.len() == 13);
    assert("Powerstate"@[0] == 'P');
    assert("Annotation"@[0] == 'A');
    assert("Template"@[0] == 'T');
    assert("Size MiB"@[0] == 'S');
    assert("Consumed"@[0] == 'C');
    assert("Private"@[0] == 'P');
    assert("Swapped"@[0] == 'S');
    assert("Hot Add"@[0] == 'H');
    assert("Shared"@[0] == 'S');
    assert("Active"@[0] == 'A');
    assert("Shared"@[5] == 'd');
    assert("Shares"@[5] == 's');
    assert("Shares"@[0] == 'S');
    assert("Entitlement"@[0] == 'E');
    assert("Reservation"@[0] == 'R');
    assert("Level"@[1] == 'e');
    assert("Limit"@[1] == 'i');
    let cols = column_spec();
    assert(label_index(super::VI_SDK_SERVER@) == -1);
    assert forall|i: int| 0 <= i < cols.len() implies label_index(#[trigger] cols[i].0) == i by {
        if i == 0 {
                    assert(label_index(cols[0].0) == 0);
                } else if i == 1 {
                    assert(label_index(cols[1].0) == 1);
                } else if i == 2 {
                    assert(label_index(cols[2].0) == 2);
                } else if i == 3 {
                    assert(label_index(cols[3].0) == 3);
                } else if i == 4 {
                    assert(label_index(cols[4].0) == 4);
                } else if i == 5 {
                    assert(label_index(cols[5].0) == 5);
                } else if i == 6 {
                    assert(label_index(cols[6].0) == 6);
                } else if i == 7 {
                    assert(label_index(cols[7].0) == 7);
                } else if i == 8 {
                    assert(label_index(cols[8].0) == 8);
                } else if i == 9 {
                    assert(label_index(cols[9].0) == 9);
                } else if i == 10 {
                    assert(label_index(cols[10].0) == 10);
                } else if i == 11 {
                    assert(label_index(cols[11].0) == 11);
                } else if i == 12 {
                    assert(label_index(cols[12].0) == 12);
                } else if i == 13 {
                    assert(label_index(cols[13].0) == 13);
                } else if i == 14 {
                    assert(label_index(cols[14].0) == 14);
                } else if i == 15 {
                    assert(label_index(cols[15].0) == 15);
                } else if i == 16 {
                    assert(label_index(cols[16].0) == 16);
                } else if i == 17 {
                    assert(label_index(cols[17].0) == 17);
                } else if i == 18 {
                    assert(label_index(cols[18].0) == 18);
                } else if i == 19 {
                    assert(label_index(cols[19].0) == 19);
                } else if i == 20 {
                    assert(label_index(cols[20].0) == 20);
                }
    }
}

pub fn columns() -> (r: Vec<Column>)
    ensures
        columns_view(r@) == column_spec(),
{
    let r = vec![
        Column::text("VM"),
        Column::text("Powerstate"),
        Column::bool("Template"),
        Column::number("Size MiB"),
        Column::bool("Memory Reservation Locked To Max"),
        Column::number("Consumed"),
        Column::number("Consumed Overhead"),
        Column::number("Private"),
        Column::number("Shared"),
        Column::number("Swapped"),
        Column::number("Ballooned"),
        Column::number("Active"),
        Column::number("Entitlement"),
        Column::number("DRS Entitlement"),
        Column::text("Level"),
        Column::number("Shares"),
        Column::number("Reservation"),
        Column::number("Limit"),
        Column::bool("Hot Add"),
        Column::text("Host"),
        Column::text("Annotation"),
    ];
    proof { assert(columns_view(r@) =~= column_spec()); }
    r
}

/// A VM's vMemory row. Every quickStats figure is already MiB and is shown as vCenter gives it; what the host backs the VM with and what the guest uses are two different facts, both reported.
pub open spec fn memory_cells(vm: MoView, ctx: VmContextView) -> Seq<CellValue> {
    vm_head(ctx) + seq![
        whole_value(i64_prop_of(vm, "summary.config.memorySizeMB"@)),
        opt_bool_value(bool_prop_of(vm, "config.memoryReservationLockedToMax"@)),
        whole_value(i64_prop_of(vm, "summary.quickStats.hostMemoryUsage"@)),
        whole_value(i64_prop_of(vm, "summary.quickStats.consumedOverheadMemory"@)),
        whole_value(i64_prop_of(vm, "summary.quickStats.privateMemory"@)),
        whole_value(i64_prop_of(vm, "summary.quickStats.sharedMemory"@)),
        whole_value(i64_prop_of(vm, "summary.quickStats.swappedMemory"@)),
        whole_value(i64_prop_of(vm, "summary.quickStats.balloonedMemory"@)),
        whole_value(i64_prop_of(vm, "summary.quickStats.guestMemoryUsage"@)),
        whole_value(i64_prop_of(vm, "summary.quickStats.staticMemoryEntitlement"@)),
        whole_value(i64_prop_of(vm, "summary.quickStats.distributedMemoryEntitlement"@)),
        opt_text_value(str_prop_of(vm, "config.memoryAllocation.shares.level"@)),
        whole_value(i64_prop_of(vm, "config.memoryAllocation.shares.shares"@)),
        whole_value(i64_prop_of(vm, "config.memoryAllocation.reservation"@)),
        whole_value(i64_prop_of(vm, "config.memoryAllocation.limit"@)),
        opt_bool_value(bool_prop_of(vm, "config.memoryHotAddEnabled"@)),
    ] + vm_tail(ctx)
}

fn memory_row(vm: &ManagedObject, ctx: &VmContext) -> (r: Vec<Cell>)
    ensures
        row_view(r) == memory_cells(vm@, ctx@),
{
    let mid = vec![
        whole_cell(vm.i64_prop("summary.config.memorySizeMB")),
        Cell::opt_bool(vm.bool_prop("config.memoryReservationLockedToMax")),
        whole_cell(vm.i64_prop("summary.quickStats.hostMemoryUsage")),
        whole_cell(vm.i64_prop("summary.quickStats.consumedOverheadMemory")),
        whole_cell(vm.i64_prop("summary.quickStats.privateMemory")),
        whole_cell(vm.i64_prop("summary.quickStats.sharedMemory")),
        whole_cell(vm.i64_prop("summary.quickStats.swappedMemory")),
        whole_cell(vm.i64_prop("summary.quickStats.balloonedMemory")),
        whole_cell(vm.i64_prop("summary.quickStats.guestMemoryUsage")),
        whole_cell(vm.i64_prop("summary.quickStats.staticMemoryEntitlement")),
        whole_cell(vm.i64_prop("summary.quickStats.distributedMemoryEntitlement")),
        Cell::opt_text(vm.str_prop("config.memoryAllocation.shares.level")),
        whole_cell(vm.i64_prop("config.memoryAllocation.shares.shares")),
        whole_cell(vm.i64_prop("config.memoryAllocation.reservation")),
        whole_cell(vm.i64_prop("config.memoryAllocation.limit")),
        Cell::opt_bool(vm.bool_prop("config.memoryHotAddEnabled")),
    ];
    let r = append_cells(append_cells(vm_head_cells(ctx), mid), vm_tail_cells(ctx));
    proof { assert(row_view(r) =~= memory_cells(vm@, ctx@)); }
    r
}

/// A VM's rows: one, none for a vCLS VM, an error for a nameless VM.
pub open spec fn object_rows_of(vm: MoView, names: Seq<(Seq<char>, Seq<char>)>) -> Result<Seq<Seq<CellValue>>, Seq<char>> {
    match vm_context_of(vm, names) {
        Err(e) => Err(e),
        Ok(None) => Ok(Seq::empty()),
        Ok(Some(ctx)) => Ok(seq![memory_cells(vm, ctx)]),
    }
}

pub fn object_rows(vm: &ManagedObject, names: &Vec<(String, String)>) -> (r: Result<Vec<Vec<Cell>>, String>)
    ensures
        match r {
            Ok(v) => object_rows_of(vm@, names_view(names@)) == Ok::<Seq<Seq<CellValue>>, Seq<char>>(rows_view(v@)),
            Err(e) => object_rows_of(vm@, names_view(names@)) == Err::<Seq<Seq<CellValue>>, Seq<char>>(e@),
        },
{
    match VmContext::from(vm, names) {
        Err(e) => Err(e),
        Ok(None) => {
            let v: Vec<Vec<Cell>> = Vec::new();
            proof { assert(rows_view(v@) =~= Seq::<Seq<CellValue>>::empty()); }
            Ok(v)
        },
        Ok(Some(ctx)) => {
            let v = vec![memory_row(vm, &ctx)];
            proof { assert(rows_view(v@) =~= seq![memory_cells(vm@, ctx@)]); }
            Ok(v)
        },
    }
}

/// vMemory: one row per VM, each with its moref; vCLS VMs are left out and the first nameless VM is an error.
pub fn rows(snap: &InventorySnapshot) -> (r: Result<Vec<(String, Vec<Cell>)>, String>)
    ensures
        match r {
            Ok(v) => per_object_rows_of(PerObject::Memory, mos(snap.vms@), names_view(snap.host_names@))
                == Ok::<Seq<(Seq<char>, Seq<CellValue>)>, Seq<char>>(tagged_rows(v@)),
            Err(e) => per_object_rows_of(PerObject::Memory, mos(snap.vms@), names_view(snap.host_names@))
                == Err::<Seq<(Seq<char>, Seq<CellValue>)>, Seq<char>>(e@),
        },
{
    per_object_rows(PerObject::Memory, &snap.vms, &snap.host_names)
}

} // verus!
