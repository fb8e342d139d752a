//! vRP — one row per resource pool.

use vstd::prelude::*;
use super::{
    append_cells,
    columns_view,
    hundredths_value,
    opt_bool_value,
    opt_hundredths,
    opt_text_value,
    row_view,
    rows_view,
    Cell,
    CellValue,
    Column,
    ColumnKind,
};
use super::common::no_name_error;
use super::per_object::{
    child_under,
    child_under_el,
    mos,
    nonempty_under,
    nonempty_under_el,
    number_under,
    number_under_el,
    opt_node,
    per_object_rows,
    per_object_rows_of,
    prop_el,
    prop_node,
    true_at,
    true_at_el,
    PerObject,
};
use super::vdisk::tagged_rows;
use crate::vcenter::soap::{strs_view, array_prop_of, str_prop_of, ManagedObject, MoView};
use crate::vcenter::xml::{Element, XNode};

verus! {

/// The sheet's columns, labels as RVTools writes them.
pub open spec fn column_spec() -> Seq<(Seq<char>, ColumnKind)> {
    seq![
        ("Resource Pool name"@, ColumnKind::Text),
        ("Status"@, ColumnKind::Text),
        ("# VMs"@, ColumnKind::Number),
        ("CPU limit"@, ColumnKind::Number),
        ("CPU reservation"@, ColumnKind::Number),
        ("CPU level"@, ColumnKind::Text),
        ("CPU shares"@, ColumnKind::Number),
        ("CPU expandableReservation"@, ColumnKind::Bool),
        ("Mem limit"@, ColumnKind::Number),
        ("Mem reservation"@, ColumnKind::Number),
        ("Mem level"@, ColumnKind::Text),
        ("Mem shares"@, ColumnKind::Number),
        ("Mem expandableReservation"@, ColumnKind::Bool),
        ("QS overallCpuUsage"@, ColumnKind::Number),
        ("QS overallCpuDemand"@, ColumnKind::Number),
        ("QS staticCpuEntitlement"@, ColumnKind::Number),
        ("QS distributedCpuEntitlement"@, ColumnKind::Number),
        ("QS guestMemoryUsage"@, ColumnKind::Number),
        ("QS hostMemoryUsage"@, ColumnKind::Number),
        ("QS privateMemory"@, ColumnKind::Number),
        ("QS sharedMemory"@, ColumnKind::Number),
        ("QS swappedMemory"@, ColumnKind::Number),
        ("QS balloonedMemory"@, ColumnKind::Number),
        ("QS overheadMemory"@, ColumnKind::Number),
        ("QS consumedOverheadMemory"@, ColumnKind::Number),
        ("QS compressedMemory"@, ColumnKind::Number),
        ("QS staticMemoryEntitlement"@, ColumnKind::Number),
        ("QS distributedMemoryEntitlement"@, ColumnKind::Number),
    ]
}

/// Which column a label names; `-1` for none.
#[verifier::opaque]
pub open spec fn label_index(s: Seq<char>) -> int {
    if s == "Resource Pool name"@ {
        0
    } else if s == "Status"@ {
        1
    } else if s == "# VMs"@ {
        2
    } else if s == "CPU limit"@ {
        3
    } else if s == "CPU reservation"@ {
        4
    } else if s == "CPU level"@ {
        5
    } else if s == "CPU shares"@ {
        6
    } else if s == "CPU expandableReservation"@ {
        7
    } else if s == "Mem limit"@ {
        8
    } else if s == "Mem reservation"@ {
        9
    } else if s == "Mem level"@ {
        10
    } else if s == "Mem shares"@ {
        11
    } else if s == "Mem expandableReservation"@ {
        12
    } else if s == "QS overallCpuUsage"@ {
        13
    } else if s == "QS overallCpuDemand"@ {
        14
    } else if s == "QS staticCpuEntitlement"@ {
        15
    } else if s == "QS distributedCpuEntitlement"@ {
        16
    } else if s == "QS guestMemoryUsage"@ {
        17
    } else if s == "QS hostMemoryUsage"@ {
        18
    } else if s == "QS privateMemory"@ {
        19
    } else if s == "QS sharedMemory"@ {
        20
    } else if s == "QS swappedMemory"@ {
        21
    } else if s == "QS balloonedMemory"@ {
        22
    } else if s == "QS overheadMemory"@ {
        23
    } else if s == "QS consumedOverheadMemory"@ {
        24
    } else if s == "QS compressedMemory"@ {
        25
    } else if s == "QS staticMemoryEntitlement"@ {
        26
    } else if s == "QS distributedMemoryEntitlement"@ {
        27
    } else {
        -1
    }
}

/// The sheet's labels are distinct, and none is `VI SDK Server`.
pub proof fn lemma_labels_ok()
    ensures
        super::labels_ok(column_spec()),
{
    reveal(label_index);
    reveal_strlit("Resource Pool name");
    assert("Resource Pool name"@.len() == 18);
    reveal_strlit("Status");
    assert("Status"@.len() == 6);
    reveal_strlit("# VMs");
    assert("# VMs"@.len() == 5);
    reveal_strlit("CPU limit");
    assert("CPU limit"@.len() == 9);
    reveal_strlit("CPU reservation");
    assert("CPU reservation"@.len() == 15);
    reveal_strlit("CPU level");
    assert("CPU level"@.len() == 9);
    reveal_strlit("CPU shares");
    assert("CPU shares"@.len() == 10);
    reveal_strlit("CPU expandableReservation");
    assert("CPU expandableReservation"@.len() == 25);
    reveal_strlit("Mem limit");
    assert("Mem limit"@.len() == 9);
    reveal_strlit("Mem reservation");
    assert("Mem reservation"@.len() == 15);
    reveal_strlit("Mem level");
    assert("Mem level"@.len() == 9);
    reveal_strlit("Mem shares");
    assert("Mem shares"@.len() == 10);
    reveal_strlit("Mem expandableReservation");
    assert("Mem expandableReservation"@.len() == 25);
    reveal_strlit("QS overallCpuUsage");
    assert("QS overallCpuUsage"@.len() == 18);
    reveal_strlit("QS overallCpuDemand");
    assert("QS overallCpuDemand"@.len() == 19);
    reveal_strlit("QS staticCpuEntitlement");
    assert("QS staticCpuEntitlement"@.len() == 23);
    reveal_strlit("QS distributedCpuEntitlement");
    assert("QS distributedCpuEntitlement"@.len() == 28);
    reveal_strlit("QS guestMemoryUsage");
    assert("QS guestMemoryUsage"@.len() == 19);
    reveal_strlit("QS hostMemoryUsage");
    assert("QS hostMemoryUsage"@.len() == 18);
    reveal_strlit("QS privateMemory");
    assert("QS privateMemory"@.len() == 16);
    reveal_strlit("QS sharedMemory");
    assert("QS sharedMemory"@.len() == 15);
    reveal_strlit("QS swappedMemory");
    assert("QS swappedMemory"@.len() == 16);
    reveal_strlit("QS balloonedMemory");
    assert("QS balloonedMemory"@.len() == 18);
    reveal_strlit("QS overheadMemory");
    assert("QS overheadMemory"@.len() == 17);
    reveal_strlit("QS consumedOverheadMemory");
    assert("QS consumedOverheadMemory"@.len() == 25);
    reveal_strlit("QS compressedMemory");
    assert("QS compressedMemory"@.len() == 19);
    reveal_strlit("QS staticMemoryEntitlement");
    assert("QS staticMemoryEntitlement"@.len() == 26);
    reveal_strlit("QS distributedMemoryEntitlement");
    assert("QS distributedMemoryEntitlement"@.len() == 31);
    reveal_strlit("VI SDK Server");
    assert("VI SDK Server"@.len() == 13);
    assert("Resource Pool name"@[0] == 'R');
    assert("QS overallCpuUsage"@[0] == 'Q');
    assert("QS hostMemoryUsage"@[0] == 'Q');
    assert("QS balloonedMemory"@[0] == 'Q');
    assert("CPU limit"@[5] == 'i');
    assert("CPU level"@[5] == 'e');
    assert("CPU limit"@[0] == 'C');
    assert("Mem limit"@[0] == 'M');
    assert("Mem level"@[0] == 'M');
    assert("CPU reservation"@[0] == 'C');
    assert("Mem reservation"@[0] == 'M');
    assert("QS sharedMemory"@[0] == 'Q');
    assert("CPU level"@[0] == 'C');
    assert("CPU shares"@[0] == 'C');
    assert("Mem shares"@[0] == 'M');
    assert("CPU expandableReservation"@[0] == 'C');
    assert("Mem expandableReservation"@[0] == 'M');
    assert("QS consumedOverheadMemory"@[0] == 'Q');
    assert("Mem limit"@[5] == 'i');
    assert("Mem level"@[5] == 'e');
    assert("QS overallCpuUsage"@[3] == 'o');
    assert("QS hostMemoryUsage"@[3] == 'h');
    assert("QS balloonedMemory"@[3] == 'b');
    assert("QS overallCpuDemand"@[3] == 'o');
    assert("QS guestMemoryUsage"@[3] == 'g');
    assert("QS compressedMemory"@[3] == 'c');
    assert("QS privateMemory"@[3] == 'p');
    assert("QS swappedMemory"@[3] == 's');
    let cols = column_spec();
    assert(label_index(super::VI_SDK_SERVER@) == -1);
    assert forall|i: int| 0 <= i < cols.len() implies label_index(#[trigger] cols[i].0) == i by {
        if i == 0 {
                    assert(label_index(cols[0].0) == 0);
                } else if i == 1 {
                    assert(label_index(cols[1].0) == 1);
                } else if i == 2 {
                    assert(label_index(cols[2].0) == 2);
                } else if i == 3 {
                    assert(label_index(cols[3].0) == 3);
                } else if i == 4 {
                    assert(label_index(cols[4].0) == 4);
                } else if i == 5 {
                    assert(label_index(cols[5].0) == 5);
                } else if i == 6 {
                    assert(label_index(cols[6].0) == 6);
                } else if i == 7 {
                    assert(label_index(cols[7].0) == 7);
                } else if i == 8 {
                    assert(label_index(cols[8].0) == 8);
                } else if i == 9 {
                    assert(label_index(cols[9].0) == 9);
                } else if i == 10 {
                    assert(label_index(cols[10].0) == 10);
                } else if i == 11 {
                    assert(label_index(cols[11].0) == 11);
                } else if i == 12 {
                    assert(label_index(cols[12].0) == 12);
                } else if i == 13 {
                    assert(label_index(cols[13].0) == 13);
                } else if i == 14 {
                    assert(label_index(cols[14].0) == 14);
                } else if i == 15 {
                    assert(label_index(cols[15].0) == 15);
                } else if i == 16 {
                    assert(label_index(cols[16].0) == 16);
                } else if i == 17 {
                    assert(label_index(cols[17].0) == 17);
                } else if i == 18 {
                    assert(label_index(cols[18].0) == 18);
                } else if i == 19 {
                    assert(label_index(cols[19].0) == 19);
                } else if i == 20 {
                    assert(label_index(cols[20].0) == 20);
                } else if i == 21 {
                    assert(label_index(cols[21].0) == 21);
                } else if i == 22 {
                    assert(label_index(cols[22].0) == 22);
                } else if i == 23 {
                    assert(label_index(cols[23].0) == 23);
                } else if i == 24 {
                    assert(label_index(cols[24].0) == 24);
                } else if i == 25 {
                    assert(label_index(cols[25].0) == 25);
                } else if i == 26 {
                    assert(label_index(cols[26].0) == 26);
                } else if i == 27 {
                    assert(label_index(cols[27].0) == 27);
                }
    }
}

pub fn columns() -> (r: Vec<Column>)
    ensures
        columns_view(r@) == column_spec(),
{
    let r = vec![
        Column::text("Resource Pool name"),
        Column::text("Status"),
        Column::number("# VMs"),
        Column::number("CPU limit"),
        Column::number("CPU reservation"),
        Column::text("CPU level"),
        Column::number("CPU shares"),
        Column::bool("CPU expandableReservation"),
        Column::number("Mem limit"),
        Column::number("Mem reservation"),
        Column::text("Mem level"),
        Column::number("Mem shares"),
        Column::bool("Mem expandableReservation"),
        Column::number("QS overallCpuUsage"),
        Column::number("QS overallCpuDemand"),
        Column::number("QS staticCpuEntitlement"),
        Column::number("QS distributedCpuEntitlement"),
        Column::number("QS guestMemoryUsage"),
        Column::number("QS hostMemoryUsage"),
        Column::number("QS privateMemory"),
        Column::number("QS sharedMemory"),
        Column::number("QS swappedMemory"),
        Column::number("QS balloonedMemory"),
        Column::number("QS overheadMemory"),
        Column::number("QS consumedOverheadMemory"),
        Column::number("QS compressedMemory"),
        Column::number("QS staticMemoryEntitlement"),
        Column::number("QS distributedMemoryEntitlement"),
    ];
    proof { assert(columns_view(r@) =~= column_spec()); }
    r
}

/// `ResourcePool` properties this sheet reads.
pub open spec fn rp_prop_names() -> Seq<Seq<char>> {
    seq![
        "name"@,
        "config"@,
        "summary"@,
        "vm"@,
    ]
}

/// `ResourcePool` properties this sheet reads.
pub fn rp_props() -> (r: Vec<&'static str>)
    ensures
        strs_view(r@) == rp_prop_names(),
{
    let r = vec![
        "name",
        "config",
        "summary",
        "vm",
    ];
    proof { assert(strs_view(r@) =~= rp_prop_names()); }
    r
}

/// A pool's name, status and VM count.
pub open spec fn head_cells(name: Seq<char>, p: MoView) -> Seq<CellValue> {
    seq![
        CellValue::Text(name),
        opt_text_value(nonempty_under(prop_node(p, "summary"@), "runtime/overallStatus"@)),
        CellValue::Number((array_prop_of(p, "vm"@).len() * 100) as i128),
    ]
}

/// One allocation block of the pool's `config` (CPU or memory): limit
/// (`-1` is vCenter's "unlimited", shown as-is), reservation, share level,
/// shares and whether the reservation is expandable.
pub open spec fn alloc_cells(config: Option<XNode>, limit: Seq<char>, reservation: Seq<char>, level: Seq<char>, shares: Seq<char>, expandable: Seq<char>) -> Seq<CellValue> {
    seq![
        hundredths_value(number_under(config, limit)),
        hundredths_value(number_under(config, reservation)),
        opt_text_value(nonempty_under(config, level)),
        hundredths_value(number_under(config, shares)),
        opt_bool_value(true_at(config, expandable)),
    ]
}

/// The pool's CPU quick statistics.
pub open spec fn cpu_stats_cells(qs: Option<XNode>) -> Seq<CellValue> {
    seq![
        hundredths_value(number_under(qs, "overallCpuUsage"@)),
        hundredths_value(number_under(qs, "overallCpuDemand"@)),
        hundredths_value(number_under(qs, "staticCpuEntitlement"@)),
        hundredths_value(number_under(qs, "distributedCpuEntitlement"@)),
        hundredths_value(number_under(qs, "guestMemoryUsage"@)),
        hundredths_value(number_under(qs, "hostMemoryUsage"@)),
        hundredths_value(number_under(qs, "privateMemory"@)),
    ]
}

/// The pool's memory quick statistics.
pub open spec fn mem_stats_cells(qs: Option<XNode>) -> Seq<CellValue> {
    seq![
        hundredths_value(number_under(qs, "sharedMemory"@)),
        hundredths_value(number_under(qs, "swappedMemory"@)),
        hundredths_value(number_under(qs, "balloonedMemory"@)),
        hundredths_value(number_under(qs, "overheadMemory"@)),
        hundredths_value(number_under(qs, "consumedOverheadMemory"@)),
        hundredths_value(number_under(qs, "compressedMemory"@)),
        hundredths_value(number_under(qs, "staticMemoryEntitlement"@)),
        hundredths_value(number_under(qs, "distributedMemoryEntitlement"@)),
    ]
}

/// The pool's quick statistics.
pub open spec fn stats_cells(qs: Option<XNode>) -> Seq<CellValue> {
    cpu_stats_cells(qs) + mem_stats_cells(qs)
}

/// A resource pool's row.
pub open spec fn pool_cells(name: Seq<char>, p: MoView) -> Seq<CellValue> {
    let config = prop_node(p, "config"@);
    head_cells(name, p) + alloc_cells(
        config,
        "cpuAllocation/limit"@,
        "cpuAllocation/reservation"@,
        "cpuAllocation/shares/level"@,
        "cpuAllocation/shares/shares"@,
        "cpuAllocation/expandableReservation"@,
    ) + alloc_cells(
        config,
        "memoryAllocation/limit"@,
        "memoryAllocation/reservation"@,
        "memoryAllocation/shares/level"@,
        "memoryAllocation/shares/shares"@,
        "memoryAllocation/expandableReservation"@,
    ) + stats_cells(child_under(prop_node(p, "summary"@), "quickStats"@))
}

fn head_row(name: String, p: &ManagedObject) -> (r: Vec<Cell>)
    ensures
        row_view(r) == head_cells(name@, p@),
{
    let vms = p.array_prop("vm").len();
    let r = vec![
        Cell::Text(name),
        Cell::opt_text(nonempty_under_el(prop_el(p, "summary"), "runtime/overallStatus")),
        Cell::Number(vms as i128 * 100),
    ];
    proof { assert(row_view(r) =~= head_cells(name@, p@)); }
    r
}

fn alloc_row(config: Option<&Element>, limit: &str, reservation: &str, level: &str, shares: &str, expandable: &str) -> (r: Vec<Cell>)
    ensures
        row_view(r) == alloc_cells(opt_node(config), limit@, reservation@, level@, shares@, expandable@),
{
    let r = vec![
        opt_hundredths(number_under_el(config, limit)),
        opt_hundredths(number_under_el(config, reservation)),
        Cell::opt_text(nonempty_under_el(config, level)),
        opt_hundredths(number_under_el(config, shares)),
        Cell::opt_bool(true_at_el(config, expandable)),
    ];
    proof { assert(row_view(r) =~= alloc_cells(opt_node(config), limit@, reservation@, level@, shares@, expandable@)); }
    r
}

fn cpu_stats_row(qs: Option<&Element>) -> (r: Vec<Cell>)
    ensures
        row_view(r) == cpu_stats_cells(opt_node(qs)),
{
    let r = vec![
        opt_hundredths(number_under_el(qs, "overallCpuUsage")),
        opt_hundredths(number_under_el(qs, "overallCpuDemand")),
        opt_hundredths(number_under_el(qs, "staticCpuEntitlement")),
        opt_hundredths(number_under_el(qs, "distributedCpuEntitlement")),
        opt_hundredths(number_under_el(qs, "guestMemoryUsage")),
        opt_hundredths(number_under_el(qs, "hostMemoryUsage")),
        opt_hundredths(number_under_el(qs, "privateMemory")),
    ];
    proof { assert(row_view(r) =~= cpu_stats_cells(opt_node(qs))); }
    r
}

fn mem_stats_row(qs: Option<&Element>) -> (r: Vec<Cell>)
    ensures
        row_view(r) == mem_stats_cells(opt_node(qs)),
{
    let r = vec![
        opt_hundredths(number_under_el(qs, "sharedMemory")),
        opt_hundredths(number_under_el(qs, "swappedMemory")),
        opt_hundredths(number_under_el(qs, "balloonedMemory")),
        opt_hundredths(number_under_el(qs, "overheadMemory")),
        opt_hundredths(number_under_el(qs, "consumedOverheadMemory")),
        opt_hundredths(number_under_el(qs, "compressedMemory")),
        opt_hundredths(number_under_el(qs, "staticMemoryEntitlement")),
        opt_hundredths(number_under_el(qs, "distributedMemoryEntitlement")),
    ];
    proof { assert(row_view(r) =~= mem_stats_cells(opt_node(qs))); }
    r
}

fn pool_row(name: String, p: &ManagedObject) -> (r: Vec<Cell>)
    ensures
        row_view(r) == pool_cells(name@, p@),
{
    let config = prop_el(p, "config");
    let head = head_row(name, p);
    let cpu = alloc_row(
        config,
        "cpuAllocation/limit",
        "cpuAllocation/reservation",
        "cpuAllocation/shares/level",
        "cpuAllocation/shares/shares",
        "cpuAllocation/expandableReservation",
    );
    let mem = alloc_row(
        config,
        "memoryAllocation/limit",
        "memoryAllocation/reservation",
        "memoryAllocation/shares/level",
        "memoryAllocation/shares/shares",
        "memoryAllocation/expandableReservation",
    );
    let qs = child_under_el(prop_el(p, "summary"), "quickStats");
    let stats = append_cells(cpu_stats_row(qs), mem_stats_row(qs));
    append_cells(append_cells(append_cells(head, cpu), mem), stats)
}

/// A pool's single row, or an error for a nameless pool.
pub open spec fn object_rows_of(p: MoView) -> Result<Seq<Seq<CellValue>>, Seq<char>> {
    match str_prop_of(p, "name"@) {
        None => Err(no_name_error("ResourcePool "@, p.moref)),
        Some(n) => Ok(seq![pool_cells(n, p)]),
    }
}

pub fn object_rows(p: &ManagedObject) -> (r: Result<Vec<Vec<Cell>>, String>)
    ensures
        match r {
            Ok(v) => object_rows_of(p@) == Ok::<Seq<Seq<CellValue>>, Seq<char>>(rows_view(v@)),
            Err(e) => object_rows_of(p@) == Err::<Seq<Seq<CellValue>>, Seq<char>>(e@),
        },
{
    let name = match p.str_prop("name") {
        Some(n) => n,
        None => return Err(String::from_str("ResourcePool ").concat(p.moref.as_str()).concat(" returned no name property")),
    };
    let ghost n = name@;
    let row = pool_row(name, p);
    let out = vec![row];
    proof { assert(rows_view(out@) =~= seq![pool_cells(n, p@)]); }
    Ok(out)
}

/// A pool's row has one cell per column.
pub proof fn lemma_rows_width(p: MoView)
    ensures
        object_rows_of(p) matches Ok(rows) ==> super::all_width(rows, column_spec().len() as int),
{
    if let Some(n) = str_prop_of(p, "name"@) {
        assert(pool_cells(n, p).len() == 28);
    }
}

/// vRP: one row per resource pool, each with its moref; the first nameless
/// pool is an error.
pub fn rows(pools: &Vec<ManagedObject>) -> (r: Result<Vec<(String, Vec<Cell>)>, String>)
    ensures
        match r {
            Ok(v) => per_object_rows_of(PerObject::Pool, mos(pools@), Seq::empty())
                == Ok::<Seq<(Seq<char>, Seq<CellValue>)>, Seq<char>>(tagged_rows(v@)),
            Err(e) => per_object_rows_of(PerObject::Pool, mos(pools@), Seq::empty())
                == Err::<Seq<(Seq<char>, Seq<CellValue>)>, Seq<char>>(e@),
        },
{
    let none: Vec<(String, String)> = Vec::new();
    proof { assert(super::snapshot::names_view(none@) =~= Seq::empty()); }
    per_object_rows(PerObject::Pool, pools, &none)
}
} // verus!
