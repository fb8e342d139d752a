//! vTools — one row per VM, VMware Tools state.

use vstd::prelude::*;
use super::{append_cells, columns_view, opt_bool_value, opt_text_value, row_view, rows_view, Cell, CellValue, Column, ColumnKind};
use super::common::{vm_context_of, VmContext, VmContextView};
use super::per_object::{mos, per_object_rows, per_object_rows_of, vm_head, vm_head_cells, vm_tail, vm_tail_cells, PerObject};
use super::snapshot::{names_view, InventorySnapshot};
use super::vdisk::tagged_rows;
use crate::vcenter::soap::{bool_prop_of, str_prop_of, ManagedObject, MoView};

verus! {

/// The sheet's columns, labels as RVTools writes them.
pub open spec fn column_spec() -> Seq<(Seq<char>, ColumnKind)> {
    seq![
        ("VM"@, ColumnKind::Text),
        ("Powerstate"@, ColumnKind::Text),
        ("Template"@, ColumnKind::Bool),
        ("VM Version"@, ColumnKind::Text),
        ("Tools"@, ColumnKind::Text),
        ("Tools Version"@, ColumnKind::Text),
        ("Upgradeable"@, ColumnKind::Text),
        ("Upgrade Policy"@, ColumnKind::Text),
        ("Sync time"@, ColumnKind::Bool),
        ("App status"@, ColumnKind::Text),
        ("Heartbeat status"@, ColumnKind::Text),
        ("Kernel Crash state"@, ColumnKind::Bool),
        ("Operation Ready"@, ColumnKind::Bool),
        ("State change support"@, ColumnKind::Bool),
        ("Interactive Guest"@, ColumnKind::Bool),
        ("Host"@, ColumnKind::Text),
        ("Annotation"@, ColumnKind::Text),
    ]
}

/// Which column a label names; `-1` for none.
#[verifier::opaque]
pub open spec fn label_index(s: Seq<char>) -> int {
    if s == "VM"@ {
        0
    } else if s == "Powerstate"@ {
        1
    } else if s == "Template"@ {
        2
    } else if s == "VM Version"@ {
        3
    } else if s == "Tools"@ {
        4
    } else if s == "Tools Version"@ {
        5
    } else if s == "Upgradeable"@ {
        6
    } else if s == "Upgrade Policy"@ {
        7
    } else if s == "Sync time"@ {
        8
    } else if s == "App status"@ {
        9
    } else if s == "Heartbeat status"@ {
        10
    } else if s == "Kernel Crash state"@ {
        11
    } else if s == "Operation Ready"@ {
        12
    } else if s == "State change support"@ {
        13
    } else if s == "Interactive Guest"@ {
        14
    } else if s == "Host"@ {
        15
    } else if s == "Annotation"@ {
        16
    } else {
        -1
    }
}

/// The sheet's labels are distinct, and none is `VI SDK Server`.
pub proof fn lemma_labels_ok()
    ensures
        super::labels_ok(column_spec()),
{
    reveal(label_index);
    reveal_strlit("VM");
    assert("VM"@.len() == 2);
    reveal_strlit("Powerstate");
    assert("Powerstate"@.len() == 10);
    reveal_strlit("Template");
    assert("Template"@.len() == 8);
    reveal_strlit("VM Version");
    assert("VM Version"@.len() == 10);
    reveal_strlit("Tools");
    assert("Tools"@.len() == 5);
    reveal_strlit("Tools Version");
    assert("Tools Version"@.len() == 13);
    reveal_strlit("Upgradeable");
    assert("Upgradeable"@.len() == 11);
    reveal_strlit("Upgrade Policy");
    assert("Upgrade Policy"@.len() == 14);
    reveal_strlit("Sync time");
    assert("Sync time"@.len() == 9);
    reveal_strlit("App status");
    assert("App status"@.len() == 10);
    reveal_strlit("Heartbeat status");
    assert("Heartbeat status"@.len() == 16);
    reveal_strlit("Kernel Crash state");
    assert("Kernel Crash state"@.len() == 18);
    reveal_strlit("Operation Ready");
    assert("Operation Ready"@.len() == 15);
    reveal_strlit("State change support");
    assert("State change support"@.len() == 20);
    reveal_strlit("Interactive Guest");
    assert("Interactive Guest"@.len() == 17);
    reveal_strlit("Host");
    assert("Host"@.len() == 4);
    reveal_strlit("Annotation");
    assert("Annotation"@.len() == 10);
    reveal_strlit("VI SDK Server");
    assert("VI SDK Server"@.len() == 13);
    assert("Powerstate"@[0] == 'P');
    assert("VM Version"@[0] == 'V');
    assert("App status"@[0] == 'A');
    assert("Annotation"@[0] == 'A');
    assert("Tools Version"@[0] == 'T');
    assert("VI SDK Server"@[0] == 'V');
    assert("App status"@[1] == 'p');
    assert("Annotation"@[1] == 'n');
    let cols = column_spec();
    assert(label_index(super::VI_SDK_SERVER@) == -1);
    assert forall|i: int| 0 <= i < cols.len() implies label_index(#[trigger] cols[i].0) == i by {
        if i == 0 {
                    assert(label_index(cols[0].0) == 0);
                } else if i == 1 {
                    assert(label_index(cols[1].0) == 1);
                } else if i == 2 {
                    assert(label_index(cols[2].0) == 2);
                } else if i == 3 {
                    assert(label_index(cols[3].0) == 3);
                } else if i == 4 {
                    assert(label_index(cols[4].0) == 4);
                } else if i == 5 {
                    assert(label_index(cols[5].0) == 5);
                } else if i == 6 {
                    assert(label_index(cols[6].0) == 6);
                } else if i == 7 {
                    assert(label_index(cols[7].0) == 7);
                } else if i == 8 {
                    assert(label_index(cols[8].0) == 8);
                } else if i == 9 {
                    assert(label_index(cols[9].0) == 9);
                } else if i == 10 {
                    assert(label_index(cols[10].0) == 10);
                } else if i == 11 {
                    assert(label_index(cols[11].0) == 11);
                } else if i == 12 {
                    assert(label_index(cols[12].0) == 12);
                } else if i == 13 {
                    assert(label_index(cols[13].0) == 13);
                } else if i == 14 {
                    assert(label_index(cols[14].0) == 14);
                } else if i == 15 {
                    assert(label_index(cols[15].0) == 15);
                } else if i == 16 {
                    assert(label_index(cols[16].0) == 16);
                }
    }
}

pub fn columns() -> (r: Vec<Column>)
    ensures
        columns_view(r@) == column_spec(),
{
    let r = vec![
        Column::text("VM"),
        Column::text("Powerstate"),
        Column::bool("Template"),
        Column::text("VM Version"),
        Column::text("Tools"),
        Column::text("Tools Version"),
        Column::text("Upgradeable"),
        Column::text("Upgrade Policy"),
        Column::bool("Sync time"),
        Column::text("App status"),
        Column::text("Heartbeat status"),
        Column::bool("Kernel Crash state"),
        Column::bool("Operation Ready"),
        Column::bool("State change support"),
        Column::bool("Interactive Guest"),
        Column::text("Host"),
        Column::text("Annotation"),
    ];
    proof { assert(columns_view(r@) =~= column_spec()); }
    r
}

/// A VM's vTools row. `toolsVersionStatus2` is the current form of the deprecated `toolsVersionStatus`.
pub open spec fn tools_cells(vm: MoView, ctx: VmContextView) -> Seq<CellValue> {
    vm_head(ctx) + seq![
        opt_text_value(str_prop_of(vm, "config.version"@)),
        opt_text_value(str_prop_of(vm, "guest.toolsRunningStatus"@)),
        opt_text_value(str_prop_of(vm, "guest.toolsVersion"@)),
        opt_text_value(str_prop_of(vm, "guest.toolsVersionStatus2"@)),
        opt_text_value(str_prop_of(vm, "config.tools.toolsUpgradePolicy"@)),
        opt_bool_value(bool_prop_of(vm, "config.tools.syncTimeWithHost"@)),
        opt_text_value(str_prop_of(vm, "guest.appHeartbeatStatus"@)),
        opt_text_value(str_prop_of(vm, "guestHeartbeatStatus"@)),
        opt_bool_value(bool_prop_of(vm, "guest.guestKernelCrashed"@)),
        opt_bool_value(bool_prop_of(vm, "guest.guestOperationsReady"@)),
        opt_bool_value(bool_prop_of(vm, "guest.guestStateChangeSupported"@)),
        opt_bool_value(bool_prop_of(vm, "guest.interactiveGuestOperationsReady"@)),
    ] + vm_tail(ctx)
}

fn tools_row(vm: &ManagedObject, ctx: &VmContext) -> (r: Vec<Cell>)
    ensures
        row_view(r) == tools_cells(vm@, ctx@),
{
    let mid = vec![
        Cell::opt_text(vm.str_prop("config.version")),
        Cell::opt_text(vm.str_prop("guest.toolsRunningStatus")),
        Cell::opt_text(vm.str_prop("guest.toolsVersion")),
        Cell::opt_text(vm.str_prop("guest.toolsVersionStatus2")),
        Cell::opt_text(vm.str_prop("config.tools.toolsUpgradePolicy")),
        Cell::opt_bool(vm.bool_prop("config.tools.syncTimeWithHost")),
        Cell::opt_text(vm.str_prop("guest.appHeartbeatStatus")),
        Cell::opt_text(vm.str_prop("guestHeartbeatStatus")),
        Cell::opt_bool(vm.bool_prop("guest.guestKernelCrashed")),
        Cell::opt_bool(vm.bool_prop("guest.guestOperationsReady")),
        Cell::opt_bool(vm.bool_prop("guest.guestStateChangeSupported")),
        Cell::opt_bool(vm.bool_prop("guest.interactiveGuestOperationsReady")),
    ];
    let r = append_cells(append_cells(vm_head_cells(ctx), mid), vm_tail_cells(ctx));
    proof { assert(row_view(r) =~= tools_cells(vm@, ctx@)); }
    r
}

/// A VM's rows: one, none for a vCLS VM, an error for a nameless VM.
pub open spec fn object_rows_of(vm: MoView, names: Seq<(Seq<char>, Seq<char>)>) -> Result<Seq<Seq<CellValue>>, Seq<char>> {
    match vm_context_of(vm, names) {
        Err(e) => Err(e),
        Ok(None) => Ok(Seq::empty()),
        Ok(Some(ctx)) => Ok(seq![tools_cells(vm, ctx)]),
    }
}

pub fn object_rows(vm: &ManagedObject, names: &Vec<(String, String)>) -> (r: Result<Vec<Vec<Cell>>, String>)
    ensures
        match r {
            Ok(v) => object_rows_of(vm@, names_view(names@)) == Ok::<Seq<Seq<CellValue>>, Seq<char>>(rows_view(v@)),
            Err(e) => object_rows_of(vm@, names_view(names@)) == Err::<Seq<Seq<CellValue>>, Seq<char>>(e@),
        },
{
    match VmContext::from(vm, names) {
        Err(e) => Err(e),
        Ok(None) => {
            let v: Vec<Vec<Cell>> = Vec::new();
            proof { assert(rows_view(v@) =~= Seq::<Seq<CellValue>>::empty()); }
            Ok(v)
        },
        Ok(Some(ctx)) => {
            let v = vec![tools_row(vm, &ctx)];
            proof { assert(rows_view(v@) =~= seq![tools_cells(vm@, ctx@)]); }
            Ok(v)
        },
    }
}

/// vTools: one row per VM, each with its moref; vCLS VMs are left out and the first nameless VM is an error.
pub fn rows(snap: &InventorySnapshot) -> (r: Result<Vec<(String, Vec<Cell>)>, String>)
    ensures
        match r {
            Ok(v) => per_object_rows_of(PerObject::Tools, mos(snap.vms@), names_view(snap.host_names@))
                == Ok::<Seq<(Seq<char>, Seq<CellValue>)>, Seq<char>>(tagged_rows(v@)),
            Err(e) => per_object_rows_of(PerObject::Tools, mos(snap.vms@), names_view(snap.host_names@))
                == Err::<Seq<(Seq<char>, Seq<CellValue>)>, Seq<char>>(e@),
        },
{
    per_object_rows(PerObject::Tools, &snap.vms, &snap.host_names)
}

} // verus!
