use invar::data::vhealth::{folder_of, host_findings, vm_findings};
use invar::data::timestamp::format_created;
use invar::data::Cell;
use invar::vcenter::soap::ManagedObject;
use invar::vcenter::xml_read::parse;

fn object(props: &str) -> ManagedObject {
    let xml = format!(r#"<objects><obj type="X">x-1</obj>{props}</objects>"#);
    ManagedObject::from_element(&parse(&xml).expect("fragment parses"))
}

fn prop(name: &str, val: &str) -> String {
    format!("<propSet><name>{name}</name><val>{val}</val></propSet>")
}

fn messages(rows: &[Vec<Cell>]) -> Vec<(String, String)> {
    rows.iter()
        .map(|r| match (&r[1], &r[2]) {
            (Cell::Text(m), Cell::Text(t)) => (t.clone(), m.clone()),
            _ => panic!("message and type are always text"),
        })
        .collect()
}

#[test]
fn folder_is_taken_from_the_vmx_path() {
    assert_eq!(folder_of("[SYN-HDD] OPS91/OPS91.vmx"), Some("OPS91"));
    assert_eq!(folder_of("[SYN-HDD] a/b/c.vmx"), Some("a/b"));
    assert_eq!(folder_of("[SYN-HDD] OPS91.vmx"), None);
    assert_eq!(folder_of("nonsense"), None);
}

#[test]
fn snapshot_timestamps_use_rvtools_format() {
    assert_eq!(format_created("2026-08-27T16:17:12.873279Z"), "2026/08/27 16:17:12");
    assert_eq!(format_created("not a date"), "not a date");
}

#[test]
fn host_without_ntp_servers_is_reported() {
    let host = object(&format!(
        "{}{}",
        prop("name", "esx1.example.com"),
        prop("config.dateTimeInfo.ntpConfig.server", "")
    ));
    let mut rows = Vec::new();
    host_findings(&host, &mut rows).expect("named host");
    assert_eq!(
        messages(&rows),
        vec![
            ("NTP".into(), "NTP Server value is null!".to_string()),
            ("NTPD".into(), "NTPD service is not running!".to_string()),
        ]
    );
}

#[test]
fn host_with_ntp_and_running_ntpd_is_clean() {
    let host = object(&format!(
        "{}{}{}",
        prop("name", "esx1.example.com"),
        prop("config.dateTimeInfo.ntpConfig.server", "<string>time.example.com</string>"),
        prop(
            "config.service.service",
            "<HostService><key>ntpd</key><running>true</running></HostService>"
        )
    ));
    let mut rows = Vec::new();
    host_findings(&host, &mut rows).expect("named host");
    assert!(rows.is_empty(), "clean host produced {rows:?}");
}

#[test]
fn only_connected_cdroms_are_reported() {
    let vm = object(&format!(
        "{}{}",
        prop("name", "VM1"),
        prop(
            "config.hardware.device",
            &[r#"<VirtualDevice xsi:type="VirtualCdrom"><deviceInfo><label>CD/DVD drive 1</label></deviceInfo><connectable><connected>true</connected></connectable></VirtualDevice>"#, r#"<VirtualDevice xsi:type="VirtualCdrom"><deviceInfo><label>CD/DVD drive 2</label></deviceInfo><connectable><connected>false</connected></connectable></VirtualDevice>"#, r#"<VirtualDevice xsi:type="VirtualE1000e"><deviceInfo><label>Network adapter 1</label></deviceInfo><connectable><connected>true</connected></connectable></VirtualDevice>"#].concat()
        )
    ));
    let mut rows = Vec::new();
    vm_findings(&vm, &mut rows).expect("named vm");
    assert_eq!(
        messages(&rows),
        vec![("CDROM".into(), "VM has a CDROM device connected! CD/DVD drive 1".to_string())]
    );
}

#[test]
fn nested_snapshots_are_flattened() {
    let vm = object(&format!(
        "{}{}",
        prop("name", "VM1"),
        prop(
            "snapshot.rootSnapshotList",
            &["<VirtualMachineSnapshotTree><name>root</name>", "<createTime>2026-01-01T00:00:00Z</createTime>", "<childSnapshotList><name>child</name>", "<createTime>2026-01-02T03:04:05Z</createTime>", "<childSnapshotList><name>grandchild</name>", "<createTime>2026-01-03T00:00:00Z</createTime></childSnapshotList>", "</childSnapshotList></VirtualMachineSnapshotTree>"].concat()
        )
    ));
    let mut rows = Vec::new();
    vm_findings(&vm, &mut rows).expect("named vm");
    let msgs = messages(&rows);
    assert_eq!(msgs.len(), 3, "root, child and grandchild: {msgs:?}");
    assert_eq!(msgs[1].1, "VM has an active snapshot! child created on 2026/01/02 03:04:05");
    assert!(msgs[2].1.contains("grandchild"));
}

#[test]
fn folder_mismatch_is_case_sensitive() {
    let vm = object(&format!(
        "{}{}",
        prop("name", "FLASK"),
        prop("config.files.vmPathName", "[DS1] flask/FLASK.vmx")
    ));
    let mut rows = Vec::new();
    vm_findings(&vm, &mut rows).expect("named vm");
    assert_eq!(
        messages(&rows),
        vec![(
            "Foldername".into(),
            "Inconsistent Foldername! VMname = FLASK Foldername = flask".to_string()
        )]
    );
}

#[test]
fn vcls_vms_are_skipped() {
    let vm = object(&format!(
        "{}{}",
        prop("name", "vCLS-abc"),
        prop("config.files.vmPathName", "[DS1] other/vCLS-abc.vmx")
    ));
    let mut rows = Vec::new();
    vm_findings(&vm, &mut rows).expect("named vm");
    assert!(rows.is_empty());
}

#[test]
fn a_nameless_host_is_an_error_naming_its_moref() {
    let host = object(&prop("config.service.service", ""));
    let mut rows = Vec::new();
    let err = host_findings(&host, &mut rows).unwrap_err();
    assert_eq!(err, "HostSystem x-1 returned no name property");
    assert!(rows.is_empty());
}

#[test]
fn timestamps_are_shown_in_utc() {
    assert_eq!(format_created("2026-01-01T01:30:00+02:00"), "2025/12/31 23:30:00");
}
