use invar::data::drift::{joined, majority, num, text};
use invar::vcenter::soap::ManagedObject;
use invar::vcenter::xml_read::parse;

fn strings(v: &[&str]) -> Vec<String> {
    v.iter().map(|s| s.to_string()).collect()
}

fn host(props: &str) -> ManagedObject {
    let xml = format!(r#"<objects><obj type="HostSystem">host-1</obj>{props}</objects>"#);
    ManagedObject::from_element(&parse(&xml).expect("fragment parses"))
}

#[test]
fn the_most_common_value_wins_with_its_count() {
    assert_eq!(majority(&strings(&["a", "b", "a"])), Some(("a".to_string(), 2)));
    assert_eq!(majority(&strings(&["x"])), Some(("x".to_string(), 1)));
}

#[test]
fn a_tie_has_no_majority() {
    assert_eq!(majority(&strings(&["a", "b"])), None);
    assert_eq!(majority(&strings(&["a", "b", "b", "a", "c"])), None);
}

#[test]
fn repeating_values_are_trimmed_sorted_and_joined() {
    let h = host(
        "<propSet><name>config.dateTimeInfo.ntpConfig.server</name><val>\
         <string> ntp2 </string><string></string><string>ntp1</string></val></propSet>",
    );
    assert_eq!(joined(&h, "config.dateTimeInfo.ntpConfig.server").as_deref(), Some("ntp1, ntp2"));
    assert_eq!(joined(&h, "config.network.dnsConfig.address"), None);
}

#[test]
fn scalar_settings_are_trimmed_and_numbers_written_in_decimal() {
    let h = host(
        "<propSet><name>summary.hardware.model</name><val>  R650 </val></propSet>\
         <propSet><name>summary.hardware.numCpuPkgs</name><val>-2</val></propSet>",
    );
    assert_eq!(text(&h, "summary.hardware.model").as_deref(), Some("R650"));
    assert_eq!(num(&h, "summary.hardware.numCpuPkgs").as_deref(), Some("-2"));
    assert_eq!(text(&h, "summary.hardware.vendor"), None);
}
