use invar::data::snapshot::{chosen_fit, sheet_fits_in};
use invar::data::snapshot::{
    fetch_props, new_tables, record_failure, record_snapshot, sheet_columns, sheet_rows, sheets,
    snapshot_host_props, InventorySnapshot, SheetKind,
};
use invar::data::{Cell, VI_SDK_SERVER};
use invar::vcenter::soap::ManagedObject;
use invar::vcenter::xml_read::parse;

fn object(moref_type: &str, moref: &str, props: &[(&str, &str)]) -> ManagedObject {
    let props: String = props
        .iter()
        .map(|(name, val)| format!("<propSet><name>{name}</name><val>{val}</val></propSet>"))
        .collect();
    let fragment = format!(r#"<objects><obj type="{moref_type}">{moref}</obj>{props}</objects>"#);
    ManagedObject::from_element(&parse(&fragment).expect("fragment parses"))
}

fn vm(moref: &str, props: &[(&str, &str)]) -> ManagedObject {
    object("VirtualMachine", moref, props)
}

fn host(moref: &str, props: &[(&str, &str)]) -> ManagedObject {
    object("HostSystem", moref, props)
}

#[test]
fn the_registry_lists_the_sheets_in_tab_order() {
    let names: Vec<&str> = sheets().iter().map(|s| s.name).collect();
    assert_eq!(names, vec!["vInfo", "vHost", "vDisk", "vSnapshot", "vHealth"]);
    assert!(sheets().iter().all(|s| !s.wants_files));
}

#[test]
fn each_table_starts_empty_with_the_source_column_last() {
    let specs = sheets();
    let tables = new_tables(&specs, &vec![1, 0]);
    assert_eq!(tables.len(), 2);
    assert_eq!(tables[0].name, "vHost");
    assert_eq!(tables[1].name, "vInfo");
    let cols = &tables[1].columns;
    assert_eq!(cols.len(), sheet_columns(SheetKind::Info).len() + 1);
    assert_eq!(cols[cols.len() - 1].label, VI_SDK_SERVER);
    assert!(tables.iter().all(|t| t.rows.is_empty() && t.warnings.is_empty()));
}

#[test]
fn an_unreachable_vcenter_warns_in_every_table() {
    let specs = sheets();
    let mut tables = new_tables(&specs, &vec![0, 2]);
    record_failure(&mut tables, "vc1", "connection refused");
    for t in &tables {
        assert_eq!(t.warnings, vec!["vc1: connection refused".to_string()]);
        assert!(t.rows.is_empty());
    }
}

#[test]
fn every_row_is_tagged_with_its_vcenter() {
    let specs = sheets();
    let mut tables = new_tables(&specs, &vec![0]);
    let snap = InventorySnapshot::assemble(
        "vc1.example.com".to_string(),
        vec![vm("vm-1", &[("name", "web01"), ("runtime.host", "host-1")])],
        vec![host("host-1", &[("name", "esx01")])],
    );
    record_snapshot(&mut tables, &specs, &vec![0], &snap);
    assert_eq!(tables[0].rows.len(), 1);
    let row = &tables[0].rows[0];
    assert_eq!(row.len(), tables[0].columns.len());
    assert!(matches!(&row[row.len() - 1], Cell::Text(s) if s == "vc1.example.com"));
    assert!(matches!(&row[0], Cell::Text(s) if s == "web01"));
    assert!(tables[0].warnings.is_empty());
}

#[test]
fn a_failing_sheet_warns_only_in_its_own_table() {
    let specs = sheets();
    let mut tables = new_tables(&specs, &vec![0, 1]);
    let snap = InventorySnapshot::assemble("vc1".to_string(), vec![vm("vm-7", &[])], Vec::new());
    record_snapshot(&mut tables, &specs, &vec![0, 1], &snap);
    assert_eq!(
        tables[0].warnings,
        vec!["vc1: VirtualMachine vm-7 returned no name property".to_string()]
    );
    assert!(tables[0].rows.is_empty());
    assert!(tables[1].warnings.is_empty());
}

#[test]
fn the_disk_sheet_drops_the_vm_moref_from_its_rows() {
    let snap = InventorySnapshot::assemble("vc1".to_string(), Vec::new(), Vec::new());
    match sheet_rows(SheetKind::Disk, &snap) {
        Some(Ok(rows)) => assert!(rows.is_empty()),
        _ => panic!("an empty snapshot has no disks and no error"),
    }
}

#[test]
fn a_committed_size_past_i64_is_out_of_range() {
    let snap = InventorySnapshot::assemble(
        "vc1".to_string(),
        vec![vm(
            "vm-1",
            &[
                ("name", "big"),
                ("summary.storage.committed", "9223372036854775807"),
                ("summary.storage.uncommitted", "1"),
            ],
        )],
        Vec::new(),
    );
    assert!(sheet_rows(SheetKind::Info, &snap).is_none());
    assert!(sheet_rows(SheetKind::Health, &snap).is_some());
}

#[test]
fn one_fetch_asks_for_the_union_of_the_chosen_sheets() {
    let specs = sheets();
    let (vm_props, host_props) = fetch_props(&specs, &vec![0, 4]);
    assert_eq!(vm_props[0], "name");
    assert_eq!(vm_props.iter().filter(|p| **p == "name").count(), 1);
    assert!(vm_props.contains(&"snapshot.rootSnapshotList"));
    assert!(host_props.contains(&"config.service.service"));
    let (vm_only, none) = fetch_props(&specs, &vec![0]);
    assert!(!vm_only.is_empty());
    assert!(none.is_empty());
}

#[test]
fn a_vm_fetch_adds_the_host_name() {
    assert_eq!(snapshot_host_props(&vec!["name"], &Vec::new()), vec!["name"]);
    assert_eq!(
        snapshot_host_props(&vec!["name"], &vec!["overallStatus"]),
        vec!["overallStatus", "name"]
    );
    assert_eq!(snapshot_host_props(&Vec::new(), &vec!["overallStatus"]), vec!["overallStatus"]);
    assert!(snapshot_host_props(&Vec::new(), &Vec::new()).is_empty());
}

#[test]
fn an_assembled_snapshot_keeps_its_server() {
    let snap = InventorySnapshot::assemble(
        "vc9".to_string(),
        Vec::new(),
        vec![host("host-1", &[("name", "esx01")])],
    );
    assert_eq!(snap.server, "vc9");
    assert_eq!(snap.host_name("host-1").as_deref(), Some("esx01"));
}

#[test]
fn an_oversized_figure_is_caught_before_the_sheets_are_built() {
    let specs = sheets();
    let big = InventorySnapshot::assemble(
        "vc1".to_string(),
        vec![vm("vm-1", &[("name", "big"), ("summary.storage.committed", "9223372036854775807"), ("summary.storage.uncommitted", "1")])],
        Vec::new(),
    );
    assert!(!sheet_fits_in(SheetKind::Info, &big));
    assert!(sheet_fits_in(SheetKind::Host, &big));
    assert!(!chosen_fit(&specs, &vec![1, 0], &big));
    assert!(chosen_fit(&specs, &vec![1, 4], &big));
    let host = InventorySnapshot::assemble(
        "vc1".to_string(),
        Vec::new(),
        vec![host("host-1", &[("name", "esx"), ("summary.hardware.numCpuCores", "4611686018427387904"), ("summary.hardware.cpuMhz", "4")])],
    );
    assert!(!sheet_fits_in(SheetKind::Host, &host));
}
