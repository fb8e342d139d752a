//! vCluster — one row per cluster.

use vstd::prelude::*;
use super::{
    append_cells,
    columns_view,
    hundredths_value,
    opt_bool_value,
    opt_hundredths,
    opt_text_value,
    row_view,
    rows_view,
    Cell,
    CellValue,
    Column,
    ColumnKind,
};
use super::common::{gib_of, no_name_error, opt_gib};
use super::per_object::{
    child_under,
    child_under_el,
    int_under,
    int_under_el,
    mos,
    nonempty_under,
    nonempty_under_el,
    number_under,
    number_under_el,
    opt_node,
    per_object_rows,
    per_object_rows_of,
    prop_el,
    prop_node,
    true_at,
    true_at_el,
    PerObject,
};
use super::vdisk::tagged_rows;
use crate::vcenter::soap::{strs_view, str_prop_of, ManagedObject, MoView};
use crate::vcenter::xml::{Element, XNode};

verus! {

/// The sheet's columns, labels as RVTools writes them.
pub open spec fn column_spec() -> Seq<(Seq<char>, ColumnKind)> {
    seq![
        ("Name"@, ColumnKind::Text),
        ("Config status"@, ColumnKind::Text),
        ("OverallStatus"@, ColumnKind::Text),
        ("NumHosts"@, ColumnKind::Number),
        ("numEffectiveHosts"@, ColumnKind::Number),
        ("TotalCpu"@, ColumnKind::Number),
        ("NumCpuCores"@, ColumnKind::Number),
        ("NumCpuThreads"@, ColumnKind::Number),
        ("Effective Cpu"@, ColumnKind::Number),
        ("TotalMemory GiB"@, ColumnKind::Number),
        ("Num VMotions"@, ColumnKind::Number),
        ("HA enabled"@, ColumnKind::Bool),
        ("Failover Level"@, ColumnKind::Number),
        ("AdmissionControlEnabled"@, ColumnKind::Bool),
        ("Host monitoring"@, ColumnKind::Text),
        ("HB Datastore Candidate Policy"@, ColumnKind::Text),
        ("Isolation Response"@, ColumnKind::Text),
        ("Restart Priority"@, ColumnKind::Text),
        ("VM Monitoring"@, ColumnKind::Text),
        ("DRS enabled"@, ColumnKind::Bool),
        ("DRS default VM behavior"@, ColumnKind::Text),
        ("DRS vmotion rate"@, ColumnKind::Number),
        ("DPM enabled"@, ColumnKind::Bool),
        ("DPM default behavior"@, ColumnKind::Text),
        ("DPM Host Power Action Rate"@, ColumnKind::Number),
    ]
}

/// Which column a label names; `-1` for none.
#[verifier::opaque]
pub open spec fn label_index(s: Seq<char>) -> int {
    if s == "Name"@ {
        0
    } else if s == "Config status"@ {
        1
    } else if s == "OverallStatus"@ {
        2
    } else if s == "NumHosts"@ {
        3
    } else if s == "numEffectiveHosts"@ {
        4
    } else if s == "TotalCpu"@ {
        5
    } else if s == "NumCpuCores"@ {
        6
    } else if s == "NumCpuThreads"@ {
        7
    } else if s == "Effective Cpu"@ {
        8
    } else if s == "TotalMemory GiB"@ {
        9
    } else if s == "Num VMotions"@ {
        10
    } else if s == "HA enabled"@ {
        11
    } else if s == "Failover Level"@ {
        12
    } else if s == "AdmissionControlEnabled"@ {
        13
    } else if s == "Host monitoring"@ {
        14
    } else if s == "HB Datastore Candidate Policy"@ {
        15
    } else if s == "Isolation Response"@ {
        16
    } else if s == "Restart Priority"@ {
        17
    } else if s == "VM Monitoring"@ {
        18
    } else if s == "DRS enabled"@ {
        19
    } else if s == "DRS default VM behavior"@ {
        20
    } else if s == "DRS vmotion rate"@ {
        21
    } else if s == "DPM enabled"@ {
        22
    } else if s == "DPM default behavior"@ {
        23
    } else if s == "DPM Host Power Action Rate"@ {
        24
    } else {
        -1
    }
}

/// The sheet's labels are distinct, and none is `VI SDK Server`.
pub proof fn lemma_labels_ok()
    ensures
        super::labels_ok(column_spec()),
{
    reveal(label_index);
    reveal_strlit("Name");
    assert("Name"@.len() == 4);
    reveal_strlit("Config status");
    assert("Config status"@.len() == 13);
    reveal_strlit("OverallStatus");
    assert("OverallStatus"@.len() == 13);
    reveal_strlit("NumHosts");
    assert("NumHosts"@.len() == 8);
    reveal_strlit("numEffectiveHosts");
    assert("numEffectiveHosts"@.len() == 17);
    reveal_strlit("TotalCpu");
    assert("TotalCpu"@.len() == 8);
    reveal_strlit("NumCpuCores");
    assert("NumCpuCores"@.len() == 11);
    reveal_strlit("NumCpuThreads");
    assert("NumCpuThreads"@.len() == 13);
    reveal_strlit("Effective Cpu");
    assert("Effective Cpu"@.len() == 13);
    reveal_strlit("TotalMemory GiB");
    assert("TotalMemory GiB"@.len() == 15);
    reveal_strlit("Num VMotions");
    assert("Num VMotions"@.len() == 12);
    reveal_strlit("HA enabled");
    assert("HA enabled"@.len() == 10);
    reveal_strlit("Failover Level");
    assert("Failover Level"@.len() == 14);
    reveal_strlit("AdmissionControlEnabled");
    assert("AdmissionControlEnabled"@.len() == 23);
    reveal_strlit("Host monitoring");
    assert("Host monitoring"@.len() == 15);
    reveal_strlit("HB Datastore Candidate Policy");
    assert("HB Datastore Candidate Policy"@.len() == 29);
    reveal_strlit("Isolation Response");
    assert("Isolation Response"@.len() == 18);
    reveal_strlit("Restart Priority");
    assert("Restart Priority"@.len() == 16);
    reveal_strlit("VM Monitoring");
    assert("VM Monitoring"@.len() == 13);
    reveal_strlit("DRS enabled");
    assert("DRS enabled"@.len() == 11);
    reveal_strlit("DRS default VM behavior");
    assert("DRS default VM behavior"@.len() == 23);
    reveal_strlit("DRS vmotion rate");
    assert("DRS vmotion rate"@.len() == 16);
    reveal_strlit("DPM enabled");
    assert("DPM enabled"@.len() == 11);
    reveal_strlit("DPM default behavior");
    assert("DPM default behavior"@.len() == 20);
    reveal_strlit("DPM Host Power Action Rate");
    assert("DPM Host Power Action Rate"@.len() == 26);
    reveal_strlit("VI SDK Server");
    assert("VI SDK Server"@.len() == 13);
    assert("Config status"@[0] == 'C');
    assert("OverallStatus"@[0] == 'O');
    assert("NumCpuThreads"@[0] == 'N');
    assert("Effective Cpu"@[0] == 'E');
    assert("VM Monitoring"@[0] == 'V');
    assert("VI SDK Server"@[0] == 'V');
    assert("NumHosts"@[0] == 'N');
    assert("TotalCpu"@[0] == 'T');
    assert("NumCpuCores"@[0] == 'N');
    assert("DRS enabled"@[0] == 'D');
    assert("DPM enabled"@[0] == 'D');
    assert("TotalMemory GiB"@[0] == 'T');
    assert("Host monitoring"@[0] == 'H');
    assert("AdmissionControlEnabled"@[0] == 'A');
    assert("DRS default VM behavior"@[0] == 'D');
    assert("Restart Priority"@[0] == 'R');
    assert("DRS vmotion rate"@[0] == 'D');
    assert("VM Monitoring"@[1] == 'M');
    assert("VI SDK Server"@[1] == 'I');
    assert("DRS enabled"@[1] == 'R');
    assert("DPM enabled"@[1] == 'P');
    let cols = column_spec();
    assert(label_index(super::VI_SDK_SERVER@) == -1);
    assert forall|i: int| 0 <= i < cols.len() implies label_index(#[trigger] cols[i].0) == i by {
        if i == 0 {
                    assert(label_index(cols[0].0) == 0);
                } else if i == 1 {
                    assert(label_index(cols[1].0) == 1);
                } else if i == 2 {
                    assert(label_index(cols[2].0) == 2);
                } else if i == 3 {
                    assert(label_index(cols[3].0) == 3);
                } else if i == 4 {
                    assert(label_index(cols[4].0) == 4);
                } else if i == 5 {
                    assert(label_index(cols[5].0) == 5);
                } else if i == 6 {
                    assert(label_index(cols[6].0) == 6);
                } else if i == 7 {
                    assert(label_index(cols[7].0) == 7);
                } else if i == 8 {
                    assert(label_index(cols[8].0) == 8);
                } else if i == 9 {
                    assert(label_index(cols[9].0) == 9);
                } else if i == 10 {
                    assert(label_index(cols[10].0) == 10);
                } else if i == 11 {
                    assert(label_index(cols[11].0) == 11);
                } else if i == 12 {
                    assert(label_index(cols[12].0) == 12);
                } else if i == 13 {
                    assert(label_index(cols[13].0) == 13);
                } else if i == 14 {
                    assert(label_index(cols[14].0) == 14);
                } else if i == 15 {
                    assert(label_index(cols[15].0) == 15);
                } else if i == 16 {
                    assert(label_index(cols[16].0) == 16);
                } else if i == 17 {
                    assert(label_index(cols[17].0) == 17);
                } else if i == 18 {
                    assert(label_index(cols[18].0) == 18);
                } else if i == 19 {
                    assert(label_index(cols[19].0) == 19);
                } else if i == 20 {
                    assert(label_index(cols[20].0) == 20);
                } else if i == 21 {
                    assert(label_index(cols[21].0) == 21);
                } else if i == 22 {
                    assert(label_index(cols[22].0) == 22);
                } else if i == 23 {
                    assert(label_index(cols[23].0) == 23);
                } else if i == 24 {
                    assert(label_index(cols[24].0) == 24);
                }
    }
}

pub fn columns() -> (r: Vec<Column>)
    ensures
        columns_view(r@) == column_spec(),
{
    let r = vec![
        Column::text("Name"),
        Column::text("Config status"),
        Column::text("OverallStatus"),
        Column::number("NumHosts"),
        Column::number("numEffectiveHosts"),
        Column::number("TotalCpu"),
        Column::number("NumCpuCores"),
        Column::number("NumCpuThreads"),
        Column::number("Effective Cpu"),
        Column::number("TotalMemory GiB"),
        Column::number("Num VMotions"),
        Column::bool("HA enabled"),
        Column::number("Failover Level"),
        Column::bool("AdmissionControlEnabled"),
        Column::text("Host monitoring"),
        Column::text("HB Datastore Candidate Policy"),
        Column::text("Isolation Response"),
        Column::text("Restart Priority"),
        Column::text("VM Monitoring"),
        Column::bool("DRS enabled"),
        Column::text("DRS default VM behavior"),
        Column::number("DRS vmotion rate"),
        Column::bool("DPM enabled"),
        Column::text("DPM default behavior"),
        Column::number("DPM Host Power Action Rate"),
    ];
    proof { assert(columns_view(r@) =~= column_spec()); }
    r
}

/// `ClusterComputeResource` properties this sheet reads.
pub open spec fn cluster_prop_names() -> Seq<Seq<char>> {
    seq![
        "name"@,
        "summary"@,
        "configurationEx"@,
        "overallStatus"@,
        "configStatus"@,
    ]
}

/// `ClusterComputeResource` properties this sheet reads.
pub fn cluster_props() -> (r: Vec<&'static str>)
    ensures
        strs_view(r@) == cluster_prop_names(),
{
    let r = vec![
        "name",
        "summary",
        "configurationEx",
        "overallStatus",
        "configStatus",
    ];
    proof { assert(strs_view(r@) =~= cluster_prop_names()); }
    r
}

/// A cluster's name, status and sizing, the sizing from `summary`.
pub open spec fn sizing_cells(name: Seq<char>, c: MoView) -> Seq<CellValue> {
    let summary = prop_node(c, "summary"@);
    seq![
        CellValue::Text(name),
        opt_text_value(str_prop_of(c, "configStatus"@)),
        opt_text_value(str_prop_of(c, "overallStatus"@)),
        hundredths_value(number_under(summary, "numHosts"@)),
        hundredths_value(number_under(summary, "numEffectiveHosts"@)),
        hundredths_value(number_under(summary, "totalCpu"@)),
        hundredths_value(number_under(summary, "numCpuCores"@)),
        hundredths_value(number_under(summary, "numCpuThreads"@)),
        hundredths_value(number_under(summary, "effectiveCpu"@)),
        hundredths_value(gib_of(int_under(summary, "totalMemory"@))),
        hundredths_value(number_under(summary, "numVmotions"@)),
    ]
}

/// The HA settings (`dasConfig`).
pub open spec fn ha_cells(das: Option<XNode>) -> Seq<CellValue> {
    seq![
        opt_bool_value(true_at(das, "enabled"@)),
        hundredths_value(number_under(das, "failoverLevel"@)),
        opt_bool_value(true_at(das, "admissionControlEnabled"@)),
        opt_text_value(nonempty_under(das, "hostMonitoring"@)),
        opt_text_value(nonempty_under(das, "hBDatastoreCandidatePolicy"@)),
        opt_text_value(nonempty_under(das, "defaultVmSettings/isolationResponse"@)),
        opt_text_value(nonempty_under(das, "defaultVmSettings/restartPriority"@)),
        opt_text_value(nonempty_under(das, "vmMonitoring"@)),
    ]
}

/// The DRS (`drsConfig`) and DPM (`dpmConfigInfo`) settings.
pub open spec fn drs_dpm_cells(drs: Option<XNode>, dpm: Option<XNode>) -> Seq<CellValue> {
    seq![
        opt_bool_value(true_at(drs, "enabled"@)),
        opt_text_value(nonempty_under(drs, "defaultVmBehavior"@)),
        hundredths_value(number_under(drs, "vmotionRate"@)),
        opt_bool_value(true_at(dpm, "enabled"@)),
        opt_text_value(nonempty_under(dpm, "defaultDpmBehavior"@)),
        hundredths_value(number_under(dpm, "hostPowerActionRate"@)),
    ]
}

/// A cluster's row: sizing and health from `summary`, and the HA, DRS and
/// DPM settings from the three blocks of `configurationEx`.
pub open spec fn cluster_cells(name: Seq<char>, c: MoView) -> Seq<CellValue> {
    let cfg = prop_node(c, "configurationEx"@);
    sizing_cells(name, c) + ha_cells(child_under(cfg, "dasConfig"@)) + drs_dpm_cells(
        child_under(cfg, "drsConfig"@),
        child_under(cfg, "dpmConfigInfo"@),
    )
}

fn sizing_row(name: String, c: &ManagedObject) -> (r: Vec<Cell>)
    ensures
        row_view(r) == sizing_cells(name@, c@),
{
    let summary = prop_el(c, "summary");
    let r = vec![
        Cell::Text(name),
        Cell::opt_text(c.str_prop("configStatus")),
        Cell::opt_text(c.str_prop("overallStatus")),
        opt_hundredths(number_under_el(summary, "numHosts")),
        opt_hundredths(number_under_el(summary, "numEffectiveHosts")),
        opt_hundredths(number_under_el(summary, "totalCpu")),
        opt_hundredths(number_under_el(summary, "numCpuCores")),
        opt_hundredths(number_under_el(summary, "numCpuThreads")),
        opt_hundredths(number_under_el(summary, "effectiveCpu")),
        opt_hundredths(opt_gib(int_under_el(summary, "totalMemory"))),
        opt_hundredths(number_under_el(summary, "numVmotions")),
    ];
    proof { assert(row_view(r) =~= sizing_cells(name@, c@)); }
    r
}

fn ha_row(das: Option<&Element>) -> (r: Vec<Cell>)
    ensures
        row_view(r) == ha_cells(opt_node(das)),
{
    let r = vec![
        Cell::opt_bool(true_at_el(das, "enabled")),
        opt_hundredths(number_under_el(das, "failoverLevel")),
        Cell::opt_bool(true_at_el(das, "admissionControlEnabled")),
        Cell::opt_text(nonempty_under_el(das, "hostMonitoring")),
        Cell::opt_text(nonempty_under_el(das, "hBDatastoreCandidatePolicy")),
        Cell::opt_text(nonempty_under_el(das, "defaultVmSettings/isolationResponse")),
        Cell::opt_text(nonempty_under_el(das, "defaultVmSettings/restartPriority")),
        Cell::opt_text(nonempty_under_el(das, "vmMonitoring")),
    ];
    proof { assert(row_view(r) =~= ha_cells(opt_node(das))); }
    r
}

fn drs_dpm_row(drs: Option<&Element>, dpm: Option<&Element>) -> (r: Vec<Cell>)
    ensures
        row_view(r) == drs_dpm_cells(opt_node(drs), opt_node(dpm)),
{
    let r = vec![
        Cell::opt_bool(true_at_el(drs, "enabled")),
        Cell::opt_text(nonempty_under_el(drs, "defaultVmBehavior")),
        opt_hundredths(number_under_el(drs, "vmotionRate")),
        Cell::opt_bool(true_at_el(dpm, "enabled")),
        Cell::opt_text(nonempty_under_el(dpm, "defaultDpmBehavior")),
        opt_hundredths(number_under_el(dpm, "hostPowerActionRate")),
    ];
    proof { assert(row_view(r) =~= drs_dpm_cells(opt_node(drs), opt_node(dpm))); }
    r
}

fn cluster_row(name: String, c: &ManagedObject) -> (r: Vec<Cell>)
    ensures
        row_view(r) == cluster_cells(name@, c@),
{
    let cfg = prop_el(c, "configurationEx");
    let head = sizing_row(name, c);
    let ha = ha_row(child_under_el(cfg, "dasConfig"));
    let rest = drs_dpm_row(child_under_el(cfg, "drsConfig"), child_under_el(cfg, "dpmConfigInfo"));
    append_cells(append_cells(head, ha), rest)
}

/// A cluster's single row, or an error for a nameless cluster.
pub open spec fn object_rows_of(c: MoView) -> Result<Seq<Seq<CellValue>>, Seq<char>> {
    match str_prop_of(c, "name"@) {
        None => Err(no_name_error("ClusterComputeResource "@, c.moref)),
        Some(n) => Ok(seq![cluster_cells(n, c)]),
    }
}

pub fn object_rows(c: &ManagedObject) -> (r: Result<Vec<Vec<Cell>>, String>)
    ensures
        match r {
            Ok(v) => object_rows_of(c@) == Ok::<Seq<Seq<CellValue>>, Seq<char>>(rows_view(v@)),
            Err(e) => object_rows_of(c@) == Err::<Seq<Seq<CellValue>>, Seq<char>>(e@),
        },
{
    let name = match c.str_prop("name") {
        Some(n) => n,
        None => return Err(String::from_str("ClusterComputeResource ").concat(c.moref.as_str()).concat(" returned no name property")),
    };
    let ghost n = name@;
    let row = cluster_row(name, c);
    let out = vec![row];
    proof { assert(rows_view(out@) =~= seq![cluster_cells(n, c@)]); }
    Ok(out)
}

/// A cluster's row has one cell per column.
pub proof fn lemma_rows_width(c: MoView)
    ensures
        object_rows_of(c) matches Ok(rows) ==> super::all_width(rows, column_spec().len() as int),
{
    if let Some(n) = str_prop_of(c, "name"@) {
        assert(cluster_cells(n, c).len() == 25);
    }
}

/// vCluster: one row per cluster, each with its moref; the first nameless
/// cluster is an error.
pub fn rows(clusters: &Vec<ManagedObject>) -> (r: Result<Vec<(String, Vec<Cell>)>, String>)
    ensures
        match r {
            Ok(v) => per_object_rows_of(PerObject::Cluster, mos(clusters@), Seq::empty())
                == Ok::<Seq<(Seq<char>, Seq<CellValue>)>, Seq<char>>(tagged_rows(v@)),
            Err(e) => per_object_rows_of(PerObject::Cluster, mos(clusters@), Seq::empty())
                == Err::<Seq<(Seq<char>, Seq<CellValue>)>, Seq<char>>(e@),
        },
{
    let none: Vec<(String, String)> = Vec::new();
    proof { assert(super::snapshot::names_view(none@) =~= Seq::empty()); }
    per_object_rows(PerObject::Cluster, clusters, &none)
}
} // verus!
