use invar::data::hostnet::walk;
use invar::data::{vdisk, vhealth, vhost, vinfo, vsnapshot, Column, VI_SDK_SERVER};
use invar::vcenter::config::VCenterConnection;
use invar::vcenter::xml_read::parse;

fn labels_ok(columns: &[Column]) {
    for (i, a) in columns.iter().enumerate() {
        assert_ne!(a.label, VI_SDK_SERVER);
        for b in &columns[i + 1..] {
            assert_ne!(a.label, b.label);
        }
    }
}

#[test]
fn exported_sheets_have_distinct_labels() {
    labels_ok(&vinfo::columns());
    labels_ok(&vhost::columns());
    labels_ok(&vdisk::columns());
    labels_ok(&vsnapshot::columns());
    labels_ok(&vhealth::columns());
}

#[test]
fn walking_a_slash_b_is_walking_a_then_b() {
    let root = parse("<r><a><x/><b>first</b></a><a><b>second</b></a></r>").unwrap();
    let direct = walk(&root, "a/b").map(|n| n.text.clone());
    let stepwise = walk(&root, "a").and_then(|n| walk(n, "b")).map(|n| n.text.clone());
    assert_eq!(direct, Some("first".to_string()));
    assert_eq!(direct, stepwise);
    assert!(walk(&root, "a/c").is_none());
}

#[test]
fn every_form_of_a_host_gives_one_base_url() {
    for host in ["vc01.lab", "https://vc01.lab", "http://vc01.lab", "vc01.lab/", "https://vc01.lab//", "  vc01.lab  "] {
        assert_eq!(VCenterConnection::new(host, "admin").base_url(), "https://vc01.lab");
    }
}

#[test]
fn parse_reads_the_document_it_is_given() {
    let a = parse("<root><a>1</a></root>").unwrap();
    let b = parse("<root><b>2</b></root>").unwrap();
    assert_eq!(a.children[0].name, "a");
    assert_eq!(b.children[0].name, "b");
    assert!(parse("<root><a></b></root>").is_err());
}
