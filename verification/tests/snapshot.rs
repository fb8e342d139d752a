use invar::data::snapshot::{sheets, union, InventorySnapshot};
use invar::vcenter::soap::ManagedObject;
use invar::vcenter::xml_read::parse;

fn object(moref_type: &str, moref: &str, props: &[(&str, &str)]) -> ManagedObject {
    let props: String = props
        .iter()
        .map(|(name, val)| format!("<propSet><name>{name}</name><val>{val}</val></propSet>"))
        .collect();
    let fragment = format!(r#"<objects><obj type="{moref_type}">{moref}</obj>{props}</objects>"#);
    ManagedObject::from_element(&parse(&fragment).expect("fragment parses"))
}

fn host(moref: &str, props: &[(&str, &str)]) -> ManagedObject {
    object("HostSystem", moref, props)
}

#[test]
fn union_dedupes_and_keeps_first_seen_order() {
    let merged = union(&[
        &["name", "runtime.host"],
        &["runtime.host", "config.template"],
        &["name"],
    ]);
    assert_eq!(merged, vec!["name", "runtime.host", "config.template"]);
}

#[test]
fn union_of_nothing_is_empty() {
    assert!(union(&[]).is_empty());
    assert!(union(&[&[], &[]]).is_empty());
}

#[test]
fn a_vm_fetch_always_carries_host_names() {
    assert_eq!(union(&[&[], &["name"]]), vec!["name"]);
}

#[test]
fn a_snapshot_derives_host_names_from_its_hosts() {
    let snap = InventorySnapshot::from_parts(
        Vec::new(),
        vec![
            host("host-1", &[("name", "esx1.example.com")]),
            host("host-2", &[("name", "esx2.example.com")]),
        ],
    );
    assert_eq!(snap.host_name("host-1").as_deref(), Some("esx1.example.com"));
    assert_eq!(snap.host_name("host-2").as_deref(), Some("esx2.example.com"));
    assert_eq!(snap.host_names.len(), 2);
}

#[test]
fn every_registered_sheet_contributes_its_props_to_the_union() {
    let specs = sheets();
    let vm_sets: Vec<&[&'static str]> =
        specs.iter().flat_map(|s| s.vm_props.iter().map(|v| v.as_slice())).collect();
    let merged = union(&vm_sets);

    for spec in &specs {
        for set in &spec.vm_props {
            for prop in set {
                assert!(
                    merged.contains(prop),
                    "{} asks for {prop}, which the union dropped",
                    spec.name
                );
            }
        }
    }
}

#[test]
fn a_later_name_for_the_same_moref_wins() {
    let snap = InventorySnapshot::from_parts(
        Vec::new(),
        vec![host("host-1", &[("name", "old")]), host("host-1", &[("name", "new")])],
    );
    assert_eq!(snap.host_name("host-1").as_deref(), Some("new"));
    assert_eq!(snap.host_name("host-9"), None);
}

#[test]
fn a_host_without_a_name_is_not_listed() {
    let snap = InventorySnapshot::from_parts(Vec::new(), vec![host("host-1", &[])]);
    assert!(snap.host_names.is_empty());
}
