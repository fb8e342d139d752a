use invar::data::common::{bytes_to_gib, bytes_to_mib, percent, ratio, totals_for, vm_totals_by_host};
use invar::data::exceptions::setting;
use invar::data::snapshot::InventorySnapshot;
use invar::data::vfileinfo::friendly_type;
use invar::data::vlicense::property;
use invar::data::vmultipath::adapter_name;
use invar::data::vnetwork::{guest_ipv4_by_device, is_ethernet_card, network_name};
use invar::data::vsnapshot::flatten;
use invar::data::{vdisk, Cell};
use invar::vcenter::soap::ManagedObject;
use invar::vcenter::xml_read::parse;

fn object(moref_type: &str, moref: &str, props: &[(&str, &str)]) -> ManagedObject {
    let props: String = props
        .iter()
        .map(|(name, val)| format!("<propSet><name>{name}</name><val>{val}</val></propSet>"))
        .collect();
    let fragment = format!(
        r#"<objects xmlns:xsi="http://www.w3.org/2001/XMLSchema-instance"><obj type="{moref_type}">{moref}</obj>{props}</objects>"#
    );
    ManagedObject::from_element(&parse(&fragment).expect("fragment parses"))
}

#[test]
fn nested_snapshots_are_flattened_depth_first() {
    let tree = parse(
        "<VirtualMachineSnapshotTree><snapshot>snapshot-1</snapshot><name>root</name><createTime>2026-01-01T00:00:00Z</createTime><state>poweredOn</state><childSnapshotList><snapshot>snapshot-2</snapshot><name>child</name><createTime>2026-01-02T00:00:00Z</createTime><quiesced>true</quiesced></childSnapshotList><childSnapshotList><snapshot>snapshot-3</snapshot><name>sibling</name></childSnapshotList></VirtualMachineSnapshotTree>",
    )
    .expect("fragment parses");

    let mut out = Vec::new();
    flatten(&tree, &mut out);

    let names: Vec<_> = out.iter().map(|s| s.name.clone().unwrap_or_default()).collect();
    assert_eq!(names, vec!["root", "child", "sibling"]);
    assert_eq!(out[0].moref, "snapshot-1");
    assert_eq!(out[1].quiesced, Some(true));
    assert_eq!(out[2].create_time, None);
}

#[test]
fn a_disk_row_reads_its_backing_and_controller() {
    let devices = concat_devices();
    let vm = object("VirtualMachine", "vm-1", &[
        ("name", "web01"),
        ("runtime.powerState", "poweredOn"),
        ("runtime.host", "host-1"),
        ("config.hardware.device", &devices),
    ]);
    let host = object("HostSystem", "host-1", &[("name", "esx01")]);
    let snap = InventorySnapshot::from_parts(vec![vm], vec![host]);
    let rows = vdisk::rows(&snap).expect("named VM");
    assert_eq!(rows.len(), 1);
    let (moref, r) = &rows[0];
    assert_eq!(moref, "vm-1");
    let cols: Vec<String> = vdisk::columns().into_iter().map(|c| c.label).collect();
    let at = |l: &str| &r[cols.iter().position(|c| c == l).expect(l)];
    assert!(matches!(at("VM"), Cell::Text(s) if s == "web01"));
    assert!(matches!(at("Disk"), Cell::Text(s) if s == "Hard disk 1"));
    assert!(matches!(at("Disk Key"), Cell::Number(200000)));
    assert!(matches!(at("Capacity MiB"), Cell::Number(204800)));
    assert!(matches!(at("Raw"), Cell::Bool(false)));
    assert!(matches!(at("Thin"), Cell::Bool(true)));
    assert!(matches!(at("Limit"), Cell::Number(-100)));
    assert!(matches!(at("Level"), Cell::Text(s) if s == "normal"));
    assert!(matches!(at("Controller"), Cell::Text(s) if s == "SCSI controller 0"));
    assert!(matches!(at("Host"), Cell::Text(s) if s == "esx01"));
    assert!(matches!(at("Raw LUN ID"), Cell::Empty));
}

fn concat_devices() -> String {
    let mut s = String::new();
    s.push_str(r#"<VirtualDevice xsi:type="VirtualLsiLogicSASController"><key>1000</key><deviceInfo><label>SCSI controller 0</label></deviceInfo></VirtualDevice>"#);
    s.push_str(r#"<VirtualDevice xsi:type="VirtualDisk"><key>2000</key><deviceInfo><label>Hard disk 1</label></deviceInfo><backing xsi:type="VirtualDiskFlatVer2BackingInfo"><fileName>[ds1] web01/web01.vmdk</fileName><diskMode>persistent</diskMode><thinProvisioned>true</thinProvisioned></backing><controllerKey>1000</controllerKey><unitNumber>0</unitNumber><capacityInKB>2097152</capacityInKB><storageIOAllocation><limit>-1</limit><shares><shares>1000</shares><level>normal</level></shares></storageIOAllocation></VirtualDevice>"#);
    s.push_str(r#"<VirtualDevice xsi:type="VirtualCdrom"><key>3000</key></VirtualDevice>"#);
    s
}

#[test]
fn the_adapter_key_is_reduced_to_its_device_name() {
    assert_eq!(adapter_name("key-vim.host.SerialAttachedHba-vmhba0").as_deref(), Some("vmhba0"));
    assert_eq!(adapter_name("").as_deref(), None);
    assert_eq!(adapter_name("vmhba1").as_deref(), Some("vmhba1"));
}

#[test]
fn file_types_read_as_words() {
    assert_eq!(friendly_type(Some("VmDiskFileInfo")).as_deref(), Some("Vm Disk"));
    assert_eq!(friendly_type(Some("FolderFileInfo")).as_deref(), Some("Folder"));
    assert_eq!(friendly_type(None), None);
}

#[test]
fn nics_are_recognised_by_type() {
    assert!(is_ethernet_card("VirtualVmxnet3"));
    assert!(is_ethernet_card("VirtualE1000e"));
    assert!(!is_ethernet_card("VirtualDisk"));
}

#[test]
fn the_first_ipv4_per_device_wins() {
    let vm = object("VirtualMachine", "vm-1", &[(
        "guest.net",
        "<GuestNicInfo><deviceConfigId>4000</deviceConfigId><ipAddress>fe80::1</ipAddress><ipAddress>10.0.0.5</ipAddress><ipAddress>10.0.0.6</ipAddress></GuestNicInfo><GuestNicInfo><deviceConfigId>4000</deviceConfigId><ipAddress>10.9.9.9</ipAddress></GuestNicInfo><GuestNicInfo><ipAddress>10.1.1.1</ipAddress></GuestNicInfo>",
    )]);
    assert_eq!(guest_ipv4_by_device(&vm), vec![("4000".to_string(), "10.0.0.5".to_string())]);
}

#[test]
fn a_backing_names_its_network() {
    let names = vec![("dvportgroup-1".to_string(), "Prod-VLAN10".to_string())];
    let dvs = parse("<backing><port><portgroupKey>dvportgroup-1</portgroupKey></port></backing>").unwrap();
    assert_eq!(network_name(Some(&dvs), &names).as_deref(), Some("Prod-VLAN10"));
    let unknown = parse("<backing><port><portgroupKey>dvportgroup-9</portgroupKey></port></backing>").unwrap();
    assert_eq!(network_name(Some(&unknown), &names).as_deref(), Some("dvportgroup-9"));
    let std = parse("<backing><deviceName>VM Network</deviceName><network>network-1</network></backing>").unwrap();
    assert_eq!(network_name(Some(&std), &names).as_deref(), Some("VM Network"));
    let bare = parse("<backing><network>network-1</network></backing>").unwrap();
    assert_eq!(network_name(Some(&bare), &names).as_deref(), Some("network-1"));
    assert_eq!(network_name(None, &names), None);
}

#[test]
fn a_license_property_is_found_by_key() {
    let lic = parse("<LicenseManagerLicenseInfo><properties><key>ProductName</key><value>vSphere</value></properties><properties><key>Empty</key><value></value></properties></LicenseManagerLicenseInfo>").unwrap();
    assert_eq!(property(&lic, "ProductName").as_deref(), Some("vSphere"));
    assert_eq!(property(&lic, "Empty"), None);
    assert_eq!(property(&lic, "Missing"), None);
}

#[test]
fn an_override_setting_is_trimmed() {
    let entry = parse("<ClusterDasVmConfigInfo><dasSettings><restartPriority> high </restartPriority><isolationResponse>  </isolationResponse></dasSettings></ClusterDasVmConfigInfo>").unwrap();
    assert_eq!(setting(&entry, "restartPriority").as_deref(), Some("high"));
    assert_eq!(setting(&entry, "isolationResponse"), None);
    assert_eq!(setting(&entry, "missing"), None);
}

#[test]
fn sizes_and_ratios_round_to_two_places() {
    assert_eq!(bytes_to_gib(1024 * 1024 * 1024), 100);
    assert_eq!(bytes_to_gib(1610612736), 150);
    assert_eq!(bytes_to_gib(5368709), 0);
    assert_eq!(bytes_to_gib(5368710), 1);
    assert_eq!(bytes_to_mib(1572864), 150);
    assert_eq!(percent(Some(1), Some(3)), Some(3333));
    assert_eq!(percent(Some(2), Some(3)), Some(6667));
    assert_eq!(percent(Some(1), Some(0)), None);
    assert_eq!(percent(None, Some(3)), None);
    assert_eq!(ratio(10, Some(4)), Some(250));
    assert_eq!(ratio(1, Some(0)), None);
    assert_eq!(ratio(1, None), None);
}

#[test]
fn vm_totals_skip_vcls_and_unregistered_vms() {
    let vms = vec![
        object("VirtualMachine", "vm-1", &[("name", "a"), ("runtime.host", "host-1"), ("runtime.powerState", "poweredOn"), ("config.hardware.numCPU", "2"), ("config.hardware.memoryMB", "1024")]),
        object("VirtualMachine", "vm-2", &[("name", "vCLS-x"), ("runtime.host", "host-1"), ("config.hardware.numCPU", "1")]),
        object("VirtualMachine", "vm-3", &[("name", "b"), ("runtime.host", "host-1"), ("config.hardware.numCPU", "4")]),
        object("VirtualMachine", "vm-4", &[("name", "c")]),
    ];
    let t = vm_totals_by_host(&vms);
    let h = totals_for(&t, "host-1");
    assert_eq!((h.vms_total, h.vms_powered_on, h.vcpus, h.vram_mib), (2, 1, 6, 1024));
    let none = totals_for(&t, "host-2");
    assert_eq!((none.vms_total, none.vcpus), (0, 0));
}
