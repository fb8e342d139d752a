use invar::data::common::vm_totals_by_host;
use invar::data::insights::{cluster_summary, usage, Insights};
use invar::data::topology::{ServerTopology, Topology};
use invar::report::{
    datacenters_text, datastore_rows, diagram_layout, diagram_svg, esc, host_rows, kind_class,
    mount_names, mounted_by_host, render, servers_text, state_label, tenths, warnings_html,
    DatastoreText, HostText, ServerText,
};
use invar::vcenter::soap::ManagedObject;
use invar::vcenter::xml_read::parse;

fn object(moref_type: &str, moref: &str, props: &[(&str, &str)]) -> ManagedObject {
    let props: String = props
        .iter()
        .map(|(name, val)| format!("<propSet><name>{name}</name><val>{val}</val></propSet>"))
        .collect();
    let fragment = format!(r#"<objects><obj type="{moref_type}">{moref}</obj>{props}</objects>"#);
    ManagedObject::from_element(&parse(&fragment).expect("fragment parses"))
}

const GIB: i64 = 1024 * 1024 * 1024;

fn lab() -> ServerTopology {
    let dcs = vec![object("Datacenter", "datacenter-1", &[("name", "DC &lt;1&gt;")])];
    let mem = (16 * GIB).to_string();
    let hosts = vec![
        object("HostSystem", "host-1", &[
            ("name", "esx01"),
            ("runtime.connectionState", "connected"),
            ("runtime.inMaintenanceMode", "false"),
            ("summary.hardware.numCpuCores", "8"),
            ("summary.hardware.memorySize", &mem),
        ]),
        object("HostSystem", "host-2", &[
            ("name", "esx02"),
            ("runtime.connectionState", "connected"),
            ("runtime.inMaintenanceMode", "true"),
            ("summary.hardware.numCpuCores", "4"),
        ]),
        object("HostSystem", "host-3", &[("name", "esx03"), ("runtime.connectionState", "disconnected")]),
    ];
    let clusters = vec![object(
        "ClusterComputeResource",
        "domain-c1",
        &[("name", "Prod"), ("host", "<ManagedObjectReference type=\"HostSystem\">host-2</ManagedObjectReference><ManagedObjectReference type=\"HostSystem\">host-1</ManagedObjectReference>")],
    )];
    let cap = (100 * GIB).to_string();
    let free = (25 * GIB).to_string();
    let datastores = vec![
        object("Datastore", "datastore-2", &[
            ("name", "zeta"),
            ("summary.type", "nfs41"),
            ("host", "<DatastoreHostMount><key>host-3</key></DatastoreHostMount><DatastoreHostMount><key>host-1</key></DatastoreHostMount><DatastoreHostMount><key>host-99</key></DatastoreHostMount>"),
        ]),
        object("Datastore", "datastore-1", &[
            ("name", "alpha"),
            ("summary.type", "VMFS"),
            ("summary.capacity", &cap),
            ("summary.freeSpace", &free),
            ("vm", "<ManagedObjectReference type=\"VirtualMachine\">vm-1</ManagedObjectReference>"),
            ("host", "<DatastoreHostMount><key>host-1</key></DatastoreHostMount>"),
        ]),
    ];
    ServerTopology::from_objects("vc1", &dcs, &hosts, &clusters, &datastores).expect("named objects")
}

#[test]
fn hosts_are_grouped_by_cluster_and_the_rest_stand_alone() {
    let t = lab();
    assert_eq!(t.datacenters, vec!["DC <1>".to_string()]);
    assert_eq!(t.clusters.len(), 1);
    assert_eq!(t.clusters[0].0, "Prod");
    let members: Vec<&str> = t.clusters[0].1.iter().map(|h| h.name.as_str()).collect();
    assert_eq!(members, vec!["esx02", "esx01"]);
    assert!(t.clusters[0].1.iter().all(|h| h.cluster.as_deref() == Some("Prod")));
    assert_eq!(t.standalone_hosts.len(), 1);
    assert_eq!(t.standalone_hosts[0].name, "esx03");
    assert_eq!(t.standalone_hosts[0].cluster, None);
    let all: Vec<&str> = t.all_hosts().iter().map(|h| h.name.as_str()).collect();
    assert_eq!(all, vec!["esx02", "esx01", "esx03"]);
}

#[test]
fn host_figures_come_off_the_host() {
    let t = lab();
    let h = &t.clusters[0].1[1];
    assert_eq!(h.cpu_cores, Some(8));
    assert_eq!(h.memory_gib, Some(1600));
    assert_eq!(h.dram_gib, None);
    assert!(t.clusters[0].1[0].in_maintenance);
}

#[test]
fn datastores_are_sorted_by_name_with_their_mounts() {
    let t = lab();
    let names: Vec<&str> = t.datastores.iter().map(|d| d.name.as_str()).collect();
    assert_eq!(names, vec!["alpha", "zeta"]);
    let a = &t.datastores[0];
    assert_eq!(a.capacity_gib, Some(10000));
    assert_eq!(a.free_gib, Some(2500));
    assert_eq!(a.used_gib(), Some(7500));
    assert_eq!(a.used_percent(), Some(7500));
    assert_eq!(a.vm_count, 1);
    assert_eq!(t.datastores[1].mounted_by, vec!["host-3", "host-1", "host-99"]);
    assert_eq!(t.datastores[1].used_percent(), None);
}

#[test]
fn a_nameless_object_is_an_error() {
    let hosts = vec![object("HostSystem", "host-9", &[])];
    let r = ServerTopology::from_objects("vc1", &Vec::new(), &hosts, &Vec::new(), &Vec::new());
    assert_eq!(r.err().as_deref(), Some("HostSystem host-9 returned no name property"));
    let ds = vec![object("Datastore", "datastore-9", &[])];
    let r = ServerTopology::from_objects("vc1", &Vec::new(), &Vec::new(), &Vec::new(), &ds);
    assert_eq!(r.err().as_deref(), Some("Datastore datastore-9 returned no name property"));
}

#[test]
fn an_unreachable_vcenter_is_a_warning_not_a_gap() {
    let mut topo = Topology::new();
    topo.record("vc1", Ok(lab()));
    topo.record("vc2", Err("timed out".to_string()));
    assert_eq!(topo.servers.len(), 1);
    assert_eq!(topo.warnings, vec!["vc2: timed out".to_string()]);
    assert_eq!(servers_text(&topo), "vc1");
    assert_eq!(servers_text(&Topology::new()), "No vCenter");
}

#[test]
fn the_report_escapes_names_and_counts_warnings() {
    assert_eq!(esc("<a href=\"x\">Tom's & Co</a>"), "&lt;a href=&quot;x&quot;&gt;Tom&#39;s &amp; Co&lt;/a&gt;");
    assert_eq!(datacenters_text(&lab()), "DC &lt;1&gt;");
    assert_eq!(warnings_html(&Vec::new()), "");
    assert_eq!(
        warnings_html(&vec!["vc2: <down>".to_string()]),
        "<div class=\"warnings\"><strong>1 vCenter could not be queried \u{2014} this report is incomplete:</strong><ul><li>vc2: &lt;down&gt;</li></ul></div>"
    );
    assert!(warnings_html(&vec!["a".to_string(), "b".to_string()]).starts_with("<div class=\"warnings\"><strong>2 vCenters could"));
}

#[test]
fn datastore_colours_follow_the_backing_type() {
    assert_eq!(kind_class(Some("vmfs")), "vmfs");
    assert_eq!(kind_class(Some("NFS41")), "nfs");
    assert_eq!(kind_class(Some("vsan")), "vsan");
    assert_eq!(kind_class(Some("VVOL")), "vvol");
    assert_eq!(kind_class(Some("PMEM")), "other");
    assert_eq!(kind_class(None), "other");
}

#[test]
fn the_tables_name_mounts_and_states() {
    let t = lab();
    assert_eq!(mount_names(&t, &t.datastores[1]), vec!["esx01", "esx03", "host-99"]);
    assert_eq!(mounted_by_host(&t, "host-1"), vec![0, 1]);
    assert!(mounted_by_host(&t, "host-2").is_empty());
    assert_eq!(state_label(&t.clusters[0].1[0]), "maintenance");
    assert_eq!(state_label(&t.clusters[0].1[1]), "connected");
}

#[test]
fn every_link_starts_at_a_host_box() {
    let t = lab();
    let d = diagram_layout(&t);
    assert_eq!(d.groups.len(), 2);
    assert_eq!(d.groups[0].label, "Prod");
    assert_eq!(d.hosts.len(), 3);
    let states: Vec<&str> = d.hosts.iter().map(|h| h.state).collect();
    assert_eq!(states, vec!["maint", "ok", "bad"]);
    assert_eq!(d.links.len(), 3);
    for l in &d.links {
        assert!(d.hosts.iter().any(|h| h.host.moref == l.host));
    }
    assert!(d.links.iter().all(|l| l.host != "host-99"));
    assert_eq!(d.links[0].class, "vmfs");
    assert_eq!(d.links[1].class, "nfs");
}

#[test]
fn insights_roll_up_hosts_vms_and_storage() {
    let t = lab();
    let vms = vec![
        object("VirtualMachine", "vm-1", &[("name", "web"), ("runtime.host", "host-1"), ("runtime.powerState", "poweredOn"), ("config.hardware.numCPU", "2"), ("config.hardware.memoryMB", "2048")]),
        object("VirtualMachine", "vm-2", &[("name", "vCLS-1"), ("runtime.host", "host-1"), ("config.hardware.numCPU", "1")]),
        object("VirtualMachine", "vm-3", &[("name", "db"), ("runtime.host", "host-2"), ("config.hardware.numCPU", "4"), ("config.hardware.memoryMB", "1024")]),
    ];
    let totals = vm_totals_by_host(&vms);
    let mut ins = Insights::new();
    ins.accumulate("vc1", &t, &totals);
    ins.record_failure("vc2", "timed out");
    ins.finish();
    assert_eq!(ins.servers, vec!["vc1".to_string()]);
    assert_eq!(ins.hosts, 3);
    assert_eq!(ins.hosts_in_maintenance, 1);
    assert_eq!(ins.hosts_disconnected, 1);
    assert_eq!(ins.cores, 12);
    assert_eq!(ins.vms_total, 2);
    assert_eq!(ins.vms_powered_on, 1);
    assert_eq!(ins.vcpus, 6);
    assert_eq!(ins.vram_mib, 3072);
    assert_eq!(ins.vram_gib, 300);
    assert_eq!(ins.vcpu_core_ratio, Some(50));
    assert_eq!(ins.datastores, 2);
    assert_eq!(ins.storage_capacity_gib, 10000);
    assert_eq!(ins.storage_used_gib, 7500);
    assert_eq!(ins.storage_used_percent, 7500);
    assert_eq!(ins.storage_by_type[0].kind, "VMFS");
    assert_eq!(ins.top_datastores[0].name, "alpha");
    assert_eq!(ins.cluster_summaries.len(), 1);
    assert_eq!(ins.cluster_summaries[0].cores, 12);
    assert_eq!(ins.warnings, vec!["vc2: timed out".to_string()]);
}

#[test]
fn a_cluster_summary_and_a_usage_row() {
    let t = lab();
    let s = cluster_summary(&t.clusters[0].0, &t.clusters[0].1, "vc1");
    assert_eq!((s.name.as_str(), s.server.as_str(), s.hosts, s.cores), ("Prod", "vc1", 2, 12));
    let u = usage(&t.datastores[1], "vc1");
    assert_eq!(u.kind, "nfs41");
    assert_eq!((u.capacity_gib, u.used_gib, u.used_percent), (0, 0, 0));
}

fn small() -> ServerTopology {
    let mem = (16 * GIB).to_string();
    let hosts = vec![object("HostSystem", "host-1", &[
        ("name", "esx&lt;1&gt;"),
        ("runtime.connectionState", "connected"),
        ("summary.hardware.numCpuCores", "8"),
        ("summary.hardware.memorySize", &mem),
    ])];
    let clusters = vec![object(
        "ClusterComputeResource",
        "domain-c1",
        &[("name", "C"), ("host", "<ManagedObjectReference type=\"HostSystem\">host-1</ManagedObjectReference>")],
    )];
    let datastores = vec![object("Datastore", "datastore-1", &[
        ("name", "alpha"),
        ("summary.type", "VMFS"),
        ("host", "<DatastoreHostMount><key>host-1</key></DatastoreHostMount>"),
    ])];
    ServerTopology::from_objects("vc1", &Vec::new(), &hosts, &clusters, &datastores).expect("named objects")
}

fn host_text() -> HostText {
    HostText { dram: "\u{2014}".to_string(), memory: "16.0 GiB".to_string() }
}

fn ds_text() -> DatastoreText {
    DatastoreText {
        capacity: "100.0 GiB".to_string(),
        used: "75.0 GiB".to_string(),
        free: "25.0 GiB".to_string(),
        used_percent: "75.0%".to_string(),
        bar: "163.5".to_string(),
    }
}

#[test]
fn lengths_print_to_one_decimal() {
    assert_eq!(tenths(0), "0.0");
    assert_eq!(tenths(265), "26.5");
    assert_eq!(tenths(4840), "484.0");
}

#[test]
fn the_diagram_places_boxes_and_links() {
    let t = small();
    let svg = diagram_svg(&t, &vec![host_text()], &vec![ds_text()]);
    assert!(svg.starts_with("<svg class=\"topology\" viewBox=\"0 0 758 192\" role=\"img\""));
    assert!(svg.contains("<g class=\"cluster\"><rect x=\"10.0\" y=\"26.0\" width=\"278.0\" height=\"96.0\" rx=\"8\"/>\n<text class=\"cluster-label\" x=\"22.0\" y=\"43.0\">C</text></g>"));
    assert!(svg.contains("<g class=\"node host ok\" data-host=\"host-1\"><rect x=\"24.0\" y=\"58.0\" width=\"250.0\" height=\"52.0\" rx=\"6\"/>"));
    assert!(svg.contains("<text class=\"node-title\" x=\"54.0\" y=\"79.0\">esx&lt;1&gt;</text>"));
    assert!(svg.contains("<text class=\"node-sub\" x=\"54.0\" y=\"96.0\">8 cores \u{b7} 16.0 GiB</text>"));
    assert!(svg.contains("<path class=\"link vmfs\" data-host=\"host-1\" data-ds=\"datastore-1\" d=\"M274.0,84.0 C379.0,84.0 379.0,81.0 484.0,81.0\"/>"));
    assert!(svg.contains("<text class=\"node-sub\" x=\"500.0\" y=\"86.0\">VMFS \u{b7} 25.0 GiB free of 100.0 GiB</text>"));
    assert!(svg.contains("<rect class=\"cap-fill\" x=\"500.0\" y=\"96.0\" width=\"163.5\" height=\"5\" rx=\"2.5\"/></g>"));
    assert!(svg.ends_with("</svg>"));
}

#[test]
fn the_tables_show_each_datastore_and_host() {
    let t = small();
    assert_eq!(
        datastore_rows(&t, &vec![ds_text()]),
        "<tr><td>alpha</td><td><span class=\"tag vmfs\">VMFS</span></td>\n<td class=\"num\">100.0 GiB</td><td class=\"num\">75.0 GiB</td><td class=\"num\">25.0 GiB</td>\n<td class=\"num\">75.0%</td><td class=\"num\">0</td><td class=\"num\">1</td><td class=\"hosts\">esx&lt;1&gt;</td></tr>"
    );
    assert_eq!(
        host_rows(&t, &vec![host_text()]),
        "<tr><td>esx&lt;1&gt;</td><td>C</td><td>connected</td><td class=\"num\">8</td>\n<td class=\"num\">\u{2014}</td><td class=\"num\">16.0 GiB</td><td class=\"num\">1</td><td class=\"hosts\">alpha</td></tr>"
    );
}

#[test]
fn the_page_is_self_contained_and_flags_missing_servers() {
    let mut topo = Topology::new();
    topo.record("vc1", Ok(small()));
    topo.record("vc2", Err("timed out".to_string()));
    let texts = vec![ServerText {
        hosts: vec![host_text()],
        datastores: vec![ds_text()],
        capacity: "100.0 GiB".to_string(),
        free: "25.0 GiB".to_string(),
    }];
    let page = render(&topo, &texts, "2026-01-02 03:04:05 UTC", "invar", "0.1.0");
    assert!(page.starts_with("<!DOCTYPE html>"));
    assert!(page.contains("<p class=\"meta\">vc1 \u{b7} generated 2026-01-02 03:04:05 UTC by invar 0.1.0</p>"));
    assert!(page.contains("<strong>1 vCenter could not be queried"));
    assert!(page.contains("<h2>vc1</h2>\n<p class=\"meta\">no datacenter \u{b7} 1 clusters \u{b7} 1 hosts \u{b7} 1 datastores \u{b7} 100.0 GiB capacity, 25.0 GiB free</p>"));
    assert!(!page.contains("<link") && !page.contains("src=\"http"));
    assert!(page.ends_with("</script>\n</body></html>"));
    let empty = render(&Topology::new(), &Vec::new(), "now", "invar", "0.1.0");
    assert!(empty.contains("No vCenter \u{b7} generated now"));
    assert!(empty.contains("<main><p class=\"meta\">No vCenter returned any topology data.</p></main>"));
}
