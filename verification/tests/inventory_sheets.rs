use invar::data::{
    drift, dvport, dvswitch, exceptions, vcluster, vdatastore, vfileinfo, vlicense, vmultipath, vnetwork, vrp, vsc_vmk, vsource, Cell,
    Column,
};
use invar::data::hostnet::policy_num;
use invar::data::snapshot::InventorySnapshot;
use invar::vcenter::soap::ManagedObject;
use invar::vcenter::xml_read::parse;

fn object(moref_type: &str, moref: &str, props: &[(&str, &str)]) -> ManagedObject {
    let props: String = props
        .iter()
        .map(|(name, val)| format!("<propSet><name>{name}</name><val>{val}</val></propSet>"))
        .collect();
    let fragment = format!(
        r#"<objects xmlns:xsi="http://www.w3.org/2001/XMLSchema-instance"><obj type="{moref_type}">{moref}</obj>{props}</objects>"#
    );
    ManagedObject::from_element(&parse(&fragment).expect("fragment parses"))
}

fn col(columns: &[Column], label: &str) -> usize {
    columns.iter().position(|c| c.label == label).unwrap_or_else(|| panic!("no column labelled {label}"))
}

fn names(pairs: &[(&str, &str)]) -> Vec<(String, String)> {
    pairs.iter().map(|(a, b)| (a.to_string(), b.to_string())).collect()
}

fn is_text(c: &Cell, want: &str) -> bool {
    matches!(c, Cell::Text(s) if s == want)
}

const CLUSTER_SUMMARY: &str = "<numHosts>3</numHosts><numEffectiveHosts>3</numEffectiveHosts><totalCpu>60000</totalCpu><numCpuCores>48</numCpuCores><numCpuThreads>96</numCpuThreads><effectiveCpu>55000</effectiveCpu><totalMemory>1099511627776</totalMemory><numVmotions>12</numVmotions>";

const CLUSTER_CONFIG: &str = "<dasConfig><enabled>true</enabled><failoverLevel>1</failoverLevel><admissionControlEnabled>true</admissionControlEnabled><hostMonitoring>enabled</hostMonitoring><defaultVmSettings><isolationResponse> none </isolationResponse><restartPriority>medium</restartPriority></defaultVmSettings><vmMonitoring>vmMonitoringDisabled</vmMonitoring></dasConfig><drsConfig><enabled>true</enabled><defaultVmBehavior>fullyAutomated</defaultVmBehavior><vmotionRate>3</vmotionRate></drsConfig><dpmConfigInfo><enabled>false</enabled></dpmConfigInfo><dasVmConfig><key>vm-1</key><dasSettings><restartPriority>high</restartPriority><isolationResponse>clusterIsolationResponse</isolationResponse></dasSettings></dasVmConfig><dasVmConfig><key>vm-2</key><dasSettings><restartPriority>medium</restartPriority><isolationResponse>powerOff</isolationResponse></dasSettings></dasVmConfig><dasVmConfig><key></key><dasSettings><restartPriority>low</restartPriority></dasSettings></dasVmConfig>";

fn cluster() -> ManagedObject {
    object(
        "ClusterComputeResource",
        "domain-c8",
        &[
            ("name", "cl01"),
            ("overallStatus", "green"),
            ("summary", CLUSTER_SUMMARY),
            ("configurationEx", CLUSTER_CONFIG),
        ],
    )
}

#[test]
fn vcluster_reads_sizing_ha_drs_and_dpm() {
    let rows = vcluster::rows(&vec![cluster()]).expect("named cluster");
    let c = vcluster::columns();
    assert_eq!(rows.len(), 1);
    let (moref, r) = &rows[0];
    assert_eq!(moref, "domain-c8");
    assert_eq!(r.len(), c.len());
    assert!(is_text(&r[col(&c, "Name")], "cl01"));
    assert!(matches!(r[col(&c, "Config status")], Cell::Empty));
    assert!(is_text(&r[col(&c, "OverallStatus")], "green"));
    assert!(matches!(r[col(&c, "NumHosts")], Cell::Number(300)));
    assert!(matches!(r[col(&c, "TotalMemory GiB")], Cell::Number(102400)));
    assert!(matches!(r[col(&c, "HA enabled")], Cell::Bool(true)));
    assert!(matches!(r[col(&c, "Failover Level")], Cell::Number(100)));
    assert!(is_text(&r[col(&c, "Isolation Response")], "none"));
    assert!(matches!(r[col(&c, "DRS enabled")], Cell::Bool(true)));
    assert!(is_text(&r[col(&c, "DRS default VM behavior")], "fullyAutomated"));
    assert!(matches!(r[col(&c, "DRS vmotion rate")], Cell::Number(300)));
    assert!(matches!(r[col(&c, "DPM enabled")], Cell::Bool(false)));
    assert!(matches!(r[col(&c, "DPM default behavior")], Cell::Empty));
}

#[test]
fn vcluster_refuses_a_nameless_cluster() {
    let err = vcluster::rows(&vec![object("ClusterComputeResource", "domain-c9", &[])]).unwrap_err();
    assert_eq!(err, "ClusterComputeResource domain-c9 returned no name property");
}

#[test]
fn exceptions_report_only_departures_from_the_cluster_default() {
    let rows = exceptions::rows(&vec![cluster()], &names(&[("vm-1", "web01")])).unwrap();
    let c = exceptions::columns();
    assert_eq!(rows.len(), 2);
    assert_eq!(rows[0].0, "vm-1");
    assert!(is_text(&rows[0].1[col(&c, "VM")], "web01"));
    assert!(is_text(&rows[0].1[col(&c, "Setting")], "HA restart priority"));
    assert!(is_text(&rows[0].1[col(&c, "This VM")], "high"));
    assert!(is_text(&rows[0].1[col(&c, "Cluster default")], "medium"));
    assert_eq!(rows[1].0, "vm-2");
    assert!(is_text(&rows[1].1[col(&c, "VM")], "vm-2"));
    assert!(is_text(&rows[1].1[col(&c, "Setting")], "HA isolation response"));
    assert!(is_text(&rows[1].1[col(&c, "This VM")], "powerOff"));
    assert!(is_text(&rows[1].1[col(&c, "Cluster default")], "none"));
}

#[test]
fn exceptions_skip_a_cluster_without_ha_settings() {
    let bare = object("ClusterComputeResource", "domain-c1", &[("name", "bare")]);
    assert!(exceptions::rows(&vec![bare], &Vec::new()).unwrap().is_empty());
}

#[test]
fn vrp_reads_allocations_and_quick_stats() {
    let pool = object(
        "ResourcePool",
        "resgroup-1",
        &[
            ("name", "Resources"),
            ("config", "<cpuAllocation><limit>-1</limit><reservation>0</reservation><shares><level>normal</level><shares>4000</shares></shares><expandableReservation>true</expandableReservation></cpuAllocation>"),
            ("summary", "<runtime><overallStatus>green</overallStatus></runtime><quickStats><overallCpuUsage>120</overallCpuUsage><privateMemory>2048</privateMemory></quickStats>"),
            ("vm", "<ManagedObjectReference>vm-1</ManagedObjectReference><ManagedObjectReference>vm-2</ManagedObjectReference>"),
        ],
    );
    let rows = vrp::rows(&vec![pool]).unwrap();
    let c = vrp::columns();
    let r = &rows[0].1;
    assert_eq!(r.len(), c.len());
    assert!(is_text(&r[col(&c, "Status")], "green"));
    assert!(matches!(r[col(&c, "# VMs")], Cell::Number(200)));
    assert!(matches!(r[col(&c, "CPU limit")], Cell::Number(-100)));
    assert!(is_text(&r[col(&c, "CPU level")], "normal"));
    assert!(matches!(r[col(&c, "CPU shares")], Cell::Number(400000)));
    assert!(matches!(r[col(&c, "CPU expandableReservation")], Cell::Bool(true)));
    assert!(matches!(r[col(&c, "Mem limit")], Cell::Empty));
    assert!(matches!(r[col(&c, "QS overallCpuUsage")], Cell::Number(12000)));
    assert!(matches!(r[col(&c, "QS privateMemory")], Cell::Number(204800)));
}

#[test]
fn vdatastore_derives_in_use_provisioned_and_free_share() {
    let ds = object(
        "Datastore",
        "datastore-1",
        &[
            ("name", "ds01"),
            ("overallStatus", "green"),
            ("summary", "<capacity>10737418240</capacity><freeSpace>2147483648</freeSpace><uncommitted>1073741824</uncommitted><type>VMFS</type><accessible>true</accessible><multipleHostAccess>true</multipleHostAccess><url>ds:///vmfs/volumes/1/</url>"),
            ("host", "<DatastoreHostMount/><DatastoreHostMount/><DatastoreHostMount/>"),
            ("iormConfiguration", "<enabled>false</enabled><congestionThreshold>30</congestionThreshold>"),
        ],
    );
    let rows = vdatastore::rows(&vec![ds]).unwrap();
    let c = vdatastore::columns();
    let r = &rows[0].1;
    assert_eq!(r.len(), c.len());
    assert!(is_text(&r[col(&c, "Type")], "VMFS"));
    assert!(matches!(r[col(&c, "Accessible")], Cell::Bool(true)));
    assert!(matches!(r[col(&c, "# VMs")], Cell::Number(0)));
    assert!(matches!(r[col(&c, "# Hosts")], Cell::Number(300)));
    assert!(matches!(r[col(&c, "Capacity MiB")], Cell::Number(1024000)));
    assert!(matches!(r[col(&c, "Provisioned MiB")], Cell::Number(921600)));
    assert!(matches!(r[col(&c, "In Use MiB")], Cell::Number(819200)));
    assert!(matches!(r[col(&c, "Free MiB")], Cell::Number(204800)));
    assert!(matches!(r[col(&c, "Free %")], Cell::Number(2000)));
    assert!(matches!(r[col(&c, "SIOC enabled")], Cell::Bool(false)));
    assert!(matches!(r[col(&c, "SIOC Threshold")], Cell::Number(3000)));
    assert!(matches!(r[col(&c, "MHA")], Cell::Bool(true)));
}

#[test]
fn vmultipath_has_a_row_per_path_with_its_device() {
    let lun = "<ScsiLun xsi:type=\"HostScsiDisk\"><key>key-1</key><canonicalName>naa.1</canonicalName><displayName>Disk 1</displayName><vendor>DELL</vendor><lunType>disk</lunType><ssd>true</ssd><localDisk>false</localDisk><capacity><block>2097152</block><blockSize>512</blockSize></capacity><queueDepth>64</queueDepth></ScsiLun>";
    let paths = "<lun><lun>key-1</lun><policy><policy>VMW_PSP_RR</policy></policy><path><name>vmhba0:C0:T0:L0</name><state>active</state><isWorkingPath>true</isWorkingPath><adapter>key-vim.host.SerialAttachedHba-vmhba0</adapter><transport xsi:type=\"HostSerialAttachedTargetTransport\"/></path><path><name>vmhba1:C0:T0:L0</name><isWorkingPath>false</isWorkingPath></path></lun>";
    let host = object(
        "HostSystem",
        "host-1",
        &[("name", "esx01"), ("config.storageDevice.scsiLun", lun), ("config.storageDevice.multipathInfo", paths)],
    );
    let snap = InventorySnapshot::from_parts(Vec::new(), vec![host]);
    let rows = vmultipath::rows(&snap).unwrap();
    let c = vmultipath::columns();
    assert_eq!(rows.len(), 2);
    let r = &rows[0].1;
    assert_eq!(r.len(), c.len());
    assert!(is_text(&r[col(&c, "Host")], "esx01"));
    assert!(is_text(&r[col(&c, "Device")], "naa.1"));
    assert!(is_text(&r[col(&c, "Policy")], "VMW_PSP_RR"));
    assert!(is_text(&r[col(&c, "Runtime Name")], "vmhba0:C0:T0:L0"));
    assert!(matches!(r[col(&c, "Working path")], Cell::Bool(true)));
    assert!(is_text(&r[col(&c, "Adapter")], "vmhba0"));
    assert!(is_text(&r[col(&c, "Transport")], "HostSerialAttachedTargetTransport"));
    assert!(matches!(r[col(&c, "SSD")], Cell::Bool(true)));
    assert!(matches!(r[col(&c, "Local disk")], Cell::Bool(false)));
    assert!(matches!(r[col(&c, "Capacity MiB")], Cell::Number(102400)));
    assert!(matches!(r[col(&c, "Queue depth")], Cell::Number(6400)));
    assert!(matches!(rows[1].1[col(&c, "Working path")], Cell::Bool(false)));
    assert!(matches!(rows[1].1[col(&c, "Adapter")], Cell::Empty));
}

#[test]
fn vsc_vmk_names_a_distributed_port_group() {
    let vnics = "<HostVirtualNic><device>vmk0</device><portgroup>Management Network</portgroup><spec><mac>00:50:56:aa:bb:cc</mac><ip><dhcp>false</dhcp><ipAddress>10.0.0.5</ipAddress><subnetMask>255.255.255.0</subnetMask></ip><mtu>1500</mtu><netStackInstanceKey>defaultTcpipStack</netStackInstanceKey></spec></HostVirtualNic><HostVirtualNic><device>vmk1</device><portgroup></portgroup><spec><distributedVirtualPort><portgroupKey>dvportgroup-10</portgroupKey></distributedVirtualPort></spec></HostVirtualNic>";
    let host = object("HostSystem", "host-1", &[("name", "esx01"), ("config.network.vnic", vnics)]);
    let rows = vsc_vmk::rows(&vec![host], &names(&[("dvportgroup-10", "vMotion-PG")])).unwrap();
    let c = vsc_vmk::columns();
    assert_eq!(rows.len(), 2);
    let r = &rows[0].1;
    assert_eq!(r.len(), c.len());
    assert!(is_text(&r[col(&c, "Port Group")], "Management Network"));
    assert!(matches!(r[col(&c, "DHCP")], Cell::Bool(false)));
    assert!(is_text(&r[col(&c, "IP Address")], "10.0.0.5"));
    assert!(matches!(r[col(&c, "MTU")], Cell::Number(150000)));
    assert!(is_text(&r[col(&c, "TCP/IP Stack")], "defaultTcpipStack"));
    assert!(is_text(&rows[1].1[col(&c, "Port Group")], "vMotion-PG"));
}

#[test]
fn vlicense_reads_seats_and_expiry() {
    let lics = "<LicenseManagerLicenseInfo><licenseKey>AAAAA-BBBBB</licenseKey><editionKey>esx.enterprisePlus.cpuPackage</editionKey><name>vSphere 8 Enterprise Plus</name><total>16</total><used>6</used><costUnit>cpuPackage</costUnit><properties><key>ProductName</key><value>VMware ESX Server</value></properties><properties><key>expirationDate</key><value>2030-01-01</value></properties></LicenseManagerLicenseInfo>";
    let lm = object("LicenseManager", "LicenseManager", &[("licenses", lics)]);
    let rows = vlicense::rows(Some(&lm)).unwrap();
    let c = vlicense::columns();
    assert_eq!(rows.len(), 1);
    assert_eq!(rows[0].0, "LicenseManager");
    let r = &rows[0].1;
    assert!(is_text(&r[col(&c, "Name")], "vSphere 8 Enterprise Plus"));
    assert!(matches!(r[col(&c, "Total")], Cell::Number(1600)));
    assert!(matches!(r[col(&c, "Used")], Cell::Number(600)));
    assert!(is_text(&r[col(&c, "Expiration Date")], "2030-01-01"));
    assert!(vlicense::rows(None).unwrap().is_empty());
}

#[test]
fn vsource_describes_the_vcenter_by_its_instance_uuid() {
    let about = parse("<about><name>VMware vCenter Server</name><apiType>VirtualCenter</apiType><version>8.0.2</version><build>22617221</build><instanceUuid>abc-123</instanceUuid></about>").unwrap();
    let rows = vsource::rows(Some(&about)).unwrap();
    let c = vsource::columns();
    assert_eq!(rows.len(), 1);
    assert_eq!(rows[0].0, "abc-123");
    let r = &rows[0].1;
    assert_eq!(r.len(), c.len());
    assert!(is_text(&r[col(&c, "Name")], "VMware vCenter Server"));
    assert!(matches!(r[col(&c, "OS type")], Cell::Empty));
    assert!(is_text(&r[col(&c, "Build")], "22617221"));
    assert!(vsource::rows(None).unwrap().is_empty());
}

#[test]
fn dvport_reads_effective_policy_values() {
    let config = "<name>PG-A</name><distributedVirtualSwitch type=\"VmwareDistributedVirtualSwitch\">dvs-1</distributedVirtualSwitch><type>earlyBinding</type><numPorts>8</numPorts><defaultPortConfig><vlan><vlanId>100</vlanId></vlan><blocked><inherited>true</inherited><value>false</value></blocked><securityPolicy><allowPromiscuous><inherited>false</inherited><value>true</value></allowPromiscuous></securityPolicy><uplinkTeamingPolicy><policy><value>loadbalance_srcid</value></policy><uplinkPortOrder><activeUplinkPort>Uplink 1</activeUplinkPort><activeUplinkPort>Uplink 2</activeUplinkPort><standbyUplinkPort></standbyUplinkPort></uplinkPortOrder></uplinkTeamingPolicy><inShapingPolicy><averageBandwidth><value>100000</value></averageBandwidth></inShapingPolicy></defaultPortConfig>";
    let pg = object("DistributedVirtualPortgroup", "dvportgroup-10", &[("config", config)]);
    let rows = dvport::rows(&vec![pg], &names(&[("dvs-1", "DSwitch")])).unwrap();
    let c = dvport::columns();
    assert_eq!(rows.len(), 1);
    let r = &rows[0].1;
    assert_eq!(r.len(), c.len());
    assert!(is_text(&r[col(&c, "Port")], "PG-A"));
    assert!(is_text(&r[col(&c, "Switch")], "DSwitch"));
    assert!(matches!(r[col(&c, "# Ports")], Cell::Number(800)));
    assert!(matches!(r[col(&c, "VLAN")], Cell::Number(10000)));
    assert!(matches!(r[col(&c, "Blocked")], Cell::Bool(false)));
    assert!(matches!(r[col(&c, "Allow Promiscuous")], Cell::Bool(true)));
    assert!(is_text(&r[col(&c, "Policy")], "loadbalance_srcid"));
    assert!(is_text(&r[col(&c, "Active Uplink")], "Uplink 1, Uplink 2"));
    assert!(matches!(r[col(&c, "Standby Uplink")], Cell::Empty));
    assert!(matches!(r[col(&c, "In Avg")], Cell::Number(10000000)));
    assert!(matches!(r[col(&c, "Out Avg")], Cell::Empty));
}

#[test]
fn dvswitch_counts_members_and_names_its_datacenter() {
    let dvs = object(
        "VmwareDistributedVirtualSwitch",
        "dvs-1",
        &[
            ("parent", "group-n5"),
            ("config", "<uuid>50 2a</uuid><name>DSwitch</name><productInfo><vendor>VMware, Inc.</vendor><version>8.0.0</version></productInfo><maxPorts>2147483647</maxPorts><numPorts>100</numPorts><maxMtu>9000</maxMtu><linkDiscoveryProtocolConfig><protocol>cdp</protocol><operation>listen</operation></linkDiscoveryProtocolConfig>"),
            ("summary", "<hostMember>host-1</hostMember><hostMember>host-2</hostMember><vm>vm-1</vm>"),
        ],
    );
    let rows = dvswitch::rows(&vec![dvs], &names(&[("group-n5", "DC1")])).unwrap();
    let c = dvswitch::columns();
    let r = &rows[0].1;
    assert_eq!(r.len(), c.len());
    assert!(is_text(&r[col(&c, "Switch")], "50 2a"));
    assert!(is_text(&r[col(&c, "Datacenter")], "DC1"));
    assert!(matches!(r[col(&c, "Host members")], Cell::Number(200)));
    assert!(matches!(r[col(&c, "# VMs")], Cell::Number(100)));
    assert!(matches!(r[col(&c, "Max MTU")], Cell::Number(900000)));
    assert!(is_text(&r[col(&c, "CDP Type")], "cdp"));
}

fn host(moref: &str, name: &str, cpu: &str, extra: &[(&str, &str)]) -> ManagedObject {
    let mut all = vec![("name", name), ("summary.hardware.cpuModel", cpu)];
    all.extend_from_slice(extra);
    object("HostSystem", moref, &all)
}

#[test]
fn drift_flags_the_minority_host_only() {
    let hosts = vec![
        host("host-1", "esx01", "Xeon A", &[("summary.config.product.build", "1"), ("summary.hardware.memorySize", "68719476736")]),
        host("host-2", "esx02", "Xeon A", &[("summary.config.product.build", "2"), ("summary.hardware.memorySize", "68719476736")]),
        host("host-3", "esx03", "Xeon B", &[("summary.hardware.memorySize", "68719000000")]),
        host("host-4", "esx04", "Xeon C", &[]),
    ];
    let clusters = names(&[("host-1", "domain-c1"), ("host-2", "domain-c1"), ("host-3", "domain-c1"), ("host-4", "domain-c2")]);
    let rows = drift::rows(&hosts, &clusters).unwrap();
    let c = drift::columns();
    assert_eq!(rows.len(), 1);
    assert_eq!(rows[0].0, "host-3");
    let r = &rows[0].1;
    assert!(is_text(&r[col(&c, "Host")], "esx03"));
    assert!(is_text(&r[col(&c, "Setting")], "CPU model"));
    assert!(is_text(&r[col(&c, "This host")], "Xeon B"));
    assert!(is_text(&r[col(&c, "Cluster majority")], "Xeon A"));
    assert!(matches!(r[col(&c, "Hosts agreeing")], Cell::Number(200)));
    assert!(matches!(r[col(&c, "Hosts compared")], Cell::Number(300)));
}

#[test]
fn drift_walks_clusters_in_moref_order() {
    let hosts = vec![
        host("host-1", "a1", "X", &[]),
        host("host-2", "a2", "X", &[]),
        host("host-3", "a3", "Y", &[]),
        host("host-4", "b1", "X", &[]),
        host("host-5", "b2", "Z", &[]),
        host("host-6", "b3", "Z", &[]),
    ];
    let clusters = names(&[
        ("host-1", "domain-c9"),
        ("host-2", "domain-c9"),
        ("host-3", "domain-c9"),
        ("host-4", "domain-c10"),
        ("host-5", "domain-c10"),
        ("host-6", "domain-c10"),
    ]);
    let rows = drift::rows(&hosts, &clusters).unwrap();
    assert_eq!(rows.len(), 2);
    assert_eq!(rows[0].0, "host-4");
    assert_eq!(rows[1].0, "host-3");
}

#[test]
fn drift_finds_nothing_in_a_consistent_cluster() {
    let hosts = vec![
        host("host-1", "esx01", "Xeon A", &[("config.dateTimeInfo.ntpConfig.server", "<string>b</string><string>a</string>")]),
        host("host-2", "esx02", "Xeon A", &[("config.dateTimeInfo.ntpConfig.server", "<string>a</string><string> b </string>")]),
    ];
    let clusters = names(&[("host-1", "domain-c1"), ("host-2", "domain-c1")]);
    assert!(drift::rows(&hosts, &clusters).unwrap().is_empty());
}

#[test]
fn vnetwork_has_a_row_per_nic_with_its_ipv4_address() {
    let devices = r#"<VirtualDevice xsi:type="VirtualVmxnet3"><key>4000</key><deviceInfo><label>Network adapter 1</label></deviceInfo><backing xsi:type="VirtualEthernetCardNetworkBackingInfo"><deviceName>VM Network</deviceName></backing><connectable><connected>true</connected><startConnected>true</startConnected></connectable><macAddress>00:50:56:01:02:03</macAddress><addressType>assigned</addressType></VirtualDevice><VirtualDevice xsi:type="VirtualDisk"><key>2000</key></VirtualDevice>"#;
    let guest = "<GuestNicInfo><deviceConfigId>4000</deviceConfigId><ipAddress>fe80::1</ipAddress><ipAddress>10.0.0.9</ipAddress></GuestNicInfo>";
    let vm = object(
        "VirtualMachine",
        "vm-1",
        &[("name", "web01"), ("runtime.host", "host-1"), ("config.hardware.device", devices), ("guest.net", guest)],
    );
    let rows = vnetwork::rows(&vec![vm], &names(&[("host-1", "esx01")])).unwrap();
    let c = vnetwork::columns();
    assert_eq!(rows.len(), 1);
    let r = &rows[0].1;
    assert_eq!(r.len(), c.len());
    assert!(is_text(&r[col(&c, "NIC label")], "Network adapter 1"));
    assert!(is_text(&r[col(&c, "Adapter")], "VirtualVmxnet3"));
    assert!(is_text(&r[col(&c, "Network")], "VM Network"));
    assert!(matches!(r[col(&c, "Connected")], Cell::Bool(true)));
    assert!(is_text(&r[col(&c, "Type")], "assigned"));
    assert!(is_text(&r[col(&c, "IPv4 Address")], "10.0.0.9"));
    assert!(is_text(&r[col(&c, "Host")], "esx01"));
}

#[test]
fn vfileinfo_lists_each_file_with_its_full_path() {
    let folder = parse(r#"<HostDatastoreBrowserSearchResults xmlns:xsi="http://www.w3.org/2001/XMLSchema-instance"><datastore type="Datastore">datastore-1</datastore><folderPath>[ds01] web01/</folderPath><file xsi:type="VmDiskFileInfo"><path>web01.vmdk</path><fileSize>1024</fileSize><modification>2024-01-01T00:00:00Z</modification></file><file xsi:type="FileInfo"><path>notes.txt</path></file></HostDatastoreBrowserSearchResults>"#).unwrap();
    let rows = vfileinfo::rows(&vec![folder]).unwrap();
    let c = vfileinfo::columns();
    assert_eq!(rows.len(), 2);
    assert_eq!(rows[0].0, "datastore-1");
    let r = &rows[0].1;
    assert!(is_text(&r[col(&c, "Friendly Path Name")], "[ds01] web01/"));
    assert!(is_text(&r[col(&c, "File Name")], "web01.vmdk"));
    assert!(is_text(&r[col(&c, "File Type")], "Vm Disk"));
    assert!(matches!(r[col(&c, "File Size in bytes")], Cell::Number(102400)));
    assert!(is_text(&r[col(&c, "Path")], "[ds01] web01/web01.vmdk"));
    assert!(is_text(&rows[1].1[col(&c, "File Type")], "FileInfo"));
    assert!(matches!(rows[1].1[col(&c, "File Size in bytes")], Cell::Empty));
}

#[test]
fn policy_num_reads_a_whole_number_value() {
    let root = parse("<dpc><speed><inherited>false</inherited><value>10</value></speed><mode><value>fast</value></mode></dpc>").unwrap();
    assert_eq!(policy_num(Some(&root), "speed"), Some(1000));
    assert_eq!(policy_num(Some(&root), "mode"), None);
    assert_eq!(policy_num(None, "speed"), None);
}
