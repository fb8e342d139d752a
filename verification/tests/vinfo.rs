use invar::data::snapshot::InventorySnapshot;
use invar::data::vinfo::{columns, rows};
use invar::data::{Cell, Column};
use invar::vcenter::soap::ManagedObject;
use invar::vcenter::xml_read::parse;

fn object(moref_type: &str, moref: &str, props: &[(&str, &str)]) -> ManagedObject {
    let props: String = props
        .iter()
        .map(|(name, val)| format!("<propSet><name>{name}</name><val>{val}</val></propSet>"))
        .collect();
    let fragment = format!(r#"<objects><obj type="{moref_type}">{moref}</obj>{props}</objects>"#);
    ManagedObject::from_element(&parse(&fragment).expect("fragment parses"))
}

fn vm(moref: &str, props: &[(&str, &str)]) -> ManagedObject {
    object("VirtualMachine", moref, props)
}

fn host(moref: &str, props: &[(&str, &str)]) -> ManagedObject {
    object("HostSystem", moref, props)
}

fn col(columns: &[Column], label: &str) -> usize {
    columns
        .iter()
        .position(|c| c.label == label)
        .unwrap_or_else(|| panic!("no column labelled {label}"))
}

fn cell(rows: &[Vec<Cell>], row: usize, label: &str) -> Cell {
    rows[row][col(&columns(), label)].clone()
}

#[test]
fn a_vm_resolves_its_host_through_the_snapshot() {
    let snap = InventorySnapshot::from_parts(
        vec![vm("vm-1", &[("name", "OPS91"), ("runtime.host", "host-7")])],
        vec![host("host-7", &[("name", "esx9-01.example.com")])],
    );

    let rows = rows(&snap).expect("named VM yields a row");
    assert_eq!(rows.len(), 1);
    assert!(matches!(cell(&rows, 0, "VM"), Cell::Text(v) if v == "OPS91"));
    assert!(
        matches!(cell(&rows, 0, "Host"), Cell::Text(v) if v == "esx9-01.example.com"),
        "runtime.host should be resolved to the host name"
    );
}

#[test]
fn an_unknown_host_moref_falls_back_to_the_moref() {
    let snap = InventorySnapshot::from_parts(
        vec![vm("vm-1", &[("name", "OPS91"), ("runtime.host", "host-404")])],
        Vec::new(),
    );
    let rows = rows(&snap).expect("row is still produced");
    assert!(matches!(cell(&rows, 0, "Host"), Cell::Text(v) if v == "host-404"));
}

#[test]
fn vcls_vms_are_excluded() {
    let snap = InventorySnapshot::from_parts(
        vec![
            vm("vm-1", &[("name", "vCLS-4f2e")]),
            vm("vm-2", &[("name", "OPS91")]),
        ],
        Vec::new(),
    );
    let rows = rows(&snap).expect("rows build");
    assert_eq!(rows.len(), 1);
    assert!(matches!(cell(&rows, 0, "VM"), Cell::Text(v) if v == "OPS91"));
}

#[test]
fn a_vm_without_a_name_is_an_error() {
    let snap = InventorySnapshot::from_parts(vec![vm("vm-1", &[])], Vec::new());
    let err = rows(&snap).expect_err("a nameless VM is reported");
    assert!(err.contains("vm-1"), "the error names the object: {err}");
}

#[test]
fn a_missing_denominator_leaves_usage_empty() {
    let snap = InventorySnapshot::from_parts(
        vec![vm("vm-1", &[("name", "OPS91"), ("summary.quickStats.overallCpuUsage", "0")])],
        Vec::new(),
    );
    let rows = rows(&snap).expect("rows build");
    assert!(matches!(cell(&rows, 0, "CPU Usage (%)"), Cell::Empty));
}

#[test]
fn provisioned_needs_both_halves() {
    let both = InventorySnapshot::from_parts(
        vec![vm(
            "vm-1",
            &[
                ("name", "OPS91"),
                ("summary.storage.committed", "1073741824"),
                ("summary.storage.uncommitted", "1073741824"),
            ],
        )],
        Vec::new(),
    );
    let built = rows(&both).expect("rows build");
    // Figures are held in hundredths: 2.0 GiB is 200.
    assert!(matches!(cell(&built, 0, "Provisioned GiB"), Cell::Number(v) if v == 200));
    assert!(matches!(cell(&built, 0, "In Use GiB"), Cell::Number(v) if v == 100));

    let half = InventorySnapshot::from_parts(
        vec![vm("vm-1", &[("name", "OPS91"), ("summary.storage.committed", "1073741824")])],
        Vec::new(),
    );
    let built = rows(&half).expect("rows build");
    assert!(matches!(cell(&built, 0, "Provisioned GiB"), Cell::Empty));
}

#[test]
fn usage_is_a_percentage_to_two_places() {
    let snap = InventorySnapshot::from_parts(
        vec![vm(
            "vm-1",
            &[
                ("name", "OPS91"),
                ("summary.quickStats.overallCpuUsage", "1"),
                ("summary.runtime.maxCpuUsage", "3"),
                ("summary.quickStats.guestMemoryUsage", "2"),
                ("summary.config.memorySizeMB", "3"),
            ],
        )],
        Vec::new(),
    );
    let rows = rows(&snap).expect("rows build");
    // 1/3 is 33.33%, 2/3 is 66.67%.
    assert!(matches!(cell(&rows, 0, "CPU Usage (%)"), Cell::Number(v) if v == 3333));
    assert!(matches!(cell(&rows, 0, "Memory Usage (%)"), Cell::Number(v) if v == 6667));
}
