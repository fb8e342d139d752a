use invar::data::snapshot::InventorySnapshot;
use invar::data::{vcd, vcpu, vhba, vmemory, vnic, vpartition, vport, vswitch, vtools, vusb, Cell, Column};
use invar::vcenter::soap::ManagedObject;
use invar::vcenter::xml_read::parse;

fn object(moref_type: &str, moref: &str, props: &[(&str, &str)]) -> ManagedObject {
    let props: String = props
        .iter()
        .map(|(name, val)| format!("<propSet><name>{name}</name><val>{val}</val></propSet>"))
        .collect();
    let fragment = format!(
        r#"<objects xmlns:xsi="http://www.w3.org/2001/XMLSchema-instance"><obj type="{moref_type}">{moref}</obj>{props}</objects>"#
    );
    ManagedObject::from_element(&parse(&fragment).expect("fragment parses"))
}

fn col(columns: &[Column], label: &str) -> usize {
    columns.iter().position(|c| c.label == label).unwrap_or_else(|| panic!("no column labelled {label}"))
}

fn vm(props: &[(&str, &str)]) -> ManagedObject {
    let mut all = vec![("name", "web01"), ("runtime.powerState", "poweredOn"), ("runtime.host", "host-1")];
    all.extend_from_slice(props);
    object("VirtualMachine", "vm-1", &all)
}

fn snap_with_vm(props: &[(&str, &str)]) -> InventorySnapshot {
    InventorySnapshot::from_parts(vec![vm(props)], vec![object("HostSystem", "host-1", &[("name", "esx01")])])
}

fn snap_with_host(props: &[(&str, &str)]) -> InventorySnapshot {
    let mut all = vec![("name", "esx01")];
    all.extend_from_slice(props);
    InventorySnapshot::from_parts(Vec::new(), vec![object("HostSystem", "host-1", &all)])
}

#[test]
fn vcpu_derives_sockets_and_keeps_the_vm_context() {
    let rows = vcpu::rows(&snap_with_vm(&[
        ("config.hardware.numCPU", "8"),
        ("config.hardware.numCoresPerSocket", "4"),
        ("config.cpuAllocation.limit", "-1"),
        ("config.cpuHotAddEnabled", "true"),
    ]))
    .expect("named VM");
    assert_eq!(rows.len(), 1);
    let (moref, r) = &rows[0];
    assert_eq!(moref, "vm-1");
    let c = vcpu::columns();
    assert_eq!(r.len(), c.len());
    assert!(matches!(&r[col(&c, "VM")], Cell::Text(s) if s == "web01"));
    assert!(matches!(r[col(&c, "CPUs")], Cell::Number(800)));
    assert!(matches!(r[col(&c, "Sockets")], Cell::Number(200)));
    assert!(matches!(r[col(&c, "Limit")], Cell::Number(-100)));
    assert!(matches!(r[col(&c, "Max")], Cell::Empty));
    assert!(matches!(r[col(&c, "Hot Add")], Cell::Bool(true)));
    assert!(matches!(&r[col(&c, "Host")], Cell::Text(s) if s == "esx01"));
}

#[test]
fn a_nameless_vm_stops_a_per_vm_sheet() {
    let snap = InventorySnapshot::from_parts(vec![object("VirtualMachine", "vm-9", &[])], Vec::new());
    assert_eq!(vcpu::rows(&snap).err().as_deref(), Some("VirtualMachine vm-9 returned no name property"));
    assert_eq!(vcd::rows(&snap).err().as_deref(), Some("VirtualMachine vm-9 returned no name property"));
    let vcls = InventorySnapshot::from_parts(vec![object("VirtualMachine", "vm-2", &[("name", "vCLS-1")])], Vec::new());
    assert!(vmemory::rows(&vcls).expect("vCLS is skipped").is_empty());
}

#[test]
fn vmemory_and_vtools_read_their_properties() {
    let snap = snap_with_vm(&[
        ("summary.config.memorySizeMB", "4096"),
        ("summary.quickStats.consumedOverheadMemory", "31"),
        ("guest.toolsRunningStatus", "guestToolsRunning"),
        ("guest.guestOperationsReady", "false"),
    ]);
    let m = vmemory::rows(&snap).unwrap();
    let mc = vmemory::columns();
    assert_eq!(m[0].1.len(), mc.len());
    assert!(matches!(m[0].1[col(&mc, "Size MiB")], Cell::Number(409600)));
    assert!(matches!(m[0].1[col(&mc, "Consumed Overhead")], Cell::Number(3100)));
    let t = vtools::rows(&snap).unwrap();
    let tc = vtools::columns();
    assert_eq!(t[0].1.len(), tc.len());
    assert!(matches!(&t[0].1[col(&tc, "Tools")], Cell::Text(s) if s == "guestToolsRunning"));
}

#[test]
fn vcd_and_vusb_pick_their_devices() {
    let devices = r#"<VirtualDevice xsi:type="VirtualCdrom"><key>3000</key><deviceInfo><label>CD/DVD drive 1</label><summary></summary></deviceInfo><backing xsi:type="VirtualCdromIsoBackingInfo"/><connectable><connected>false</connected><startConnected>true</startConnected></connectable></VirtualDevice><VirtualDevice xsi:type="VirtualUSBController"><key>7000</key></VirtualDevice><VirtualDevice xsi:type="VirtualUSB"><key>7001</key><deviceInfo><label>USB 1</label><summary>key</summary></deviceInfo><connected>true</connected><unitNumber>2</unitNumber></VirtualDevice>"#;
    let snap = snap_with_vm(&[("config.hardware.device", devices)]);
    let cd = vcd::rows(&snap).unwrap();
    let cc = vcd::columns();
    assert_eq!(cd.len(), 1);
    assert_eq!(cd[0].1.len(), cc.len());
    assert!(matches!(cd[0].1[col(&cc, "Connected")], Cell::Bool(false)));
    assert!(matches!(cd[0].1[col(&cc, "Starts Connected")], Cell::Bool(true)));
    assert!(matches!(&cd[0].1[col(&cc, "Device Type")], Cell::Text(s) if s == "VirtualCdromIsoBackingInfo"));
    assert!(matches!(cd[0].1[col(&cc, "Summary")], Cell::Empty));
    let usb = vusb::rows(&snap).unwrap();
    let uc = vusb::columns();
    assert_eq!(usb.len(), 1);
    assert!(matches!(usb[0].1[col(&uc, "Connected")], Cell::Bool(true)));
    assert!(matches!(usb[0].1[col(&uc, "Unit number")], Cell::Number(200)));
}

#[test]
fn vpartition_derives_consumed_and_free_share() {
    let disks = "<GuestDiskInfo><diskPath>C:\\</diskPath><capacity>10485760</capacity><freeSpace>2621440</freeSpace><filesystemType>NTFS</filesystemType></GuestDiskInfo><GuestDiskInfo><diskPath>D:\\</diskPath><capacity>0</capacity><freeSpace>0</freeSpace></GuestDiskInfo>";
    let rows = vpartition::rows(&snap_with_vm(&[("guest.disk", disks)])).unwrap();
    let c = vpartition::columns();
    assert_eq!(rows.len(), 2);
    let r = &rows[0].1;
    assert!(matches!(r[col(&c, "Capacity MiB")], Cell::Number(1000)));
    assert!(matches!(r[col(&c, "Consumed MiB")], Cell::Number(750)));
    assert!(matches!(r[col(&c, "Free MiB")], Cell::Number(250)));
    assert!(matches!(r[col(&c, "Free %")], Cell::Number(2500)));
    assert!(matches!(rows[1].1[col(&c, "Free %")], Cell::Empty));
}

#[test]
fn host_sheets_give_one_row_per_item() {
    let snap = snap_with_host(&[
        ("config.storageDevice.hostBusAdapter", r#"<HostHostBusAdapter xsi:type="HostBlockHba"><device>vmhba0</device><status>online</status><model></model></HostHostBusAdapter>"#),
        ("config.network.pnic", "<PhysicalNic><device>vmnic0</device><linkSpeed><speedMb>10000</speedMb><duplex>true</duplex></linkSpeed></PhysicalNic><PhysicalNic><device>vmnic1</device></PhysicalNic>"),
        ("config.network.vswitch", "<HostVirtualSwitch><name>vSwitch0</name><numPorts>128</numPorts><mtu>1500</mtu><spec><policy><security><allowPromiscuous>false</allowPromiscuous></security><nicTeaming><policy>loadbalance_srcid</policy></nicTeaming></policy></spec></HostVirtualSwitch>"),
        ("config.network.portgroup", "<HostPortGroup><spec><name>VM Network</name><vlanId>10</vlanId><vswitchName>vSwitch0</vswitchName><policy><security><macChanges>true</macChanges></security></policy></spec></HostPortGroup>"),
    ]);
    let hba = vhba::rows(&snap).unwrap();
    let hc = vhba::columns();
    assert_eq!(hba.len(), 1);
    assert_eq!(hba[0].0, "host-1");
    assert!(matches!(&hba[0].1[col(&hc, "Type")], Cell::Text(s) if s == "HostBlockHba"));
    assert!(matches!(hba[0].1[col(&hc, "Model")], Cell::Empty));
    let nic = vnic::rows(&snap).unwrap();
    let nc = vnic::columns();
    assert_eq!(nic.len(), 2);
    assert!(matches!(nic[0].1[col(&nc, "Speed")], Cell::Number(1000000)));
    assert!(matches!(nic[1].1[col(&nc, "Speed")], Cell::Empty));
    let sw = vswitch::rows(&snap).unwrap();
    let sc = vswitch::columns();
    assert!(matches!(sw[0].1[col(&sc, "# Ports")], Cell::Number(12800)));
    assert!(matches!(sw[0].1[col(&sc, "Promiscuous Mode")], Cell::Bool(false)));
    assert!(matches!(&sw[0].1[col(&sc, "Policy")], Cell::Text(s) if s == "loadbalance_srcid"));
    let pg = vport::rows(&snap).unwrap();
    let pc = vport::columns();
    assert!(matches!(&pg[0].1[col(&pc, "Port Group")], Cell::Text(s) if s == "VM Network"));
    assert!(matches!(pg[0].1[col(&pc, "VLAN")], Cell::Number(1000)));
    assert!(matches!(pg[0].1[col(&pc, "Mac Changes")], Cell::Bool(true)));
    let nameless = InventorySnapshot::from_parts(Vec::new(), vec![object("HostSystem", "host-9", &[])]);
    assert_eq!(vhba::rows(&nameless).err().as_deref(), Some("HostSystem host-9 returned no name property"));
}
