use invar::data::hostnet::{attachment_of, pnic_attachments, policy_bool, policy_value};
use invar::vcenter::soap::ManagedObject;
use invar::vcenter::xml_read::parse;

#[test]
fn a_pnic_resolves_its_switch_and_uplink_port_name() {
    let fragment = r#"<objects><obj type="HostSystem">host-1</obj>
      <propSet><name>config.network.proxySwitch</name><val>
        <HostProxySwitch>
          <dvsName>vds01</dvsName>
          <uplinkPort><key>16</key><value>uplink2</value></uplinkPort>
          <uplinkPort><key>17</key><value>uplink1</value></uplinkPort>
          <spec><backing>
            <pnicSpec><pnicDevice>vmnic4</pnicDevice><uplinkPortKey>17</uplinkPortKey></pnicSpec>
            <pnicSpec><pnicDevice>vmnic5</pnicDevice><uplinkPortKey>16</uplinkPortKey></pnicSpec>
          </backing></spec>
        </HostProxySwitch>
      </val></propSet></objects>"#;
    let host = ManagedObject::from_element(&parse(fragment).expect("parses"));
    let map = pnic_attachments(&host);
    let vmnic4 = attachment_of(&map, "vmnic4").expect("vmnic4 is attached");
    let vmnic5 = attachment_of(&map, "vmnic5").expect("vmnic5 is attached");
    assert_eq!(vmnic4.switch.as_deref(), Some("vds01"));
    assert_eq!(vmnic4.uplink_port.as_deref(), Some("uplink1"));
    assert_eq!(vmnic5.uplink_port.as_deref(), Some("uplink2"));
    // An unattached NIC simply is not in the map.
    assert!(attachment_of(&map, "vmnic0").is_none());
}

#[test]
fn a_policy_value_is_read_from_inside_its_envelope() {
    let el = parse(
        r#"<defaultPortConfig>
             <securityPolicy>
               <inherited>false</inherited>
               <allowPromiscuous><inherited>false</inherited><value>true</value></allowPromiscuous>
             </securityPolicy>
           </defaultPortConfig>"#,
    )
    .expect("parses");
    assert_eq!(policy_bool(Some(&el), "securityPolicy/allowPromiscuous"), Some(true));
    assert_eq!(policy_value(Some(&el), "securityPolicy/nope"), None);
}

#[test]
fn a_nic_listed_again_keeps_the_later_attachment() {
    let fragment = r#"<objects><obj type="HostSystem">host-1</obj>
      <propSet><name>config.network.proxySwitch</name><val>
        <HostProxySwitch><dvsName>vds01</dvsName>
          <spec><backing><pnicSpec><pnicDevice>vmnic4</pnicDevice></pnicSpec></backing></spec>
        </HostProxySwitch>
        <HostProxySwitch><dvsName>vds02</dvsName>
          <spec><backing><pnicSpec><pnicDevice>vmnic4</pnicDevice></pnicSpec></backing></spec>
        </HostProxySwitch>
      </val></propSet></objects>"#;
    let host = ManagedObject::from_element(&parse(fragment).expect("parses"));
    let map = pnic_attachments(&host);
    assert_eq!(map.len(), 1);
    let a = attachment_of(&map, "vmnic4").expect("attached");
    assert_eq!(a.switch.as_deref(), Some("vds02"));
    assert_eq!(a.uplink_port, None);
}

#[test]
fn a_missing_envelope_root_reads_nothing() {
    assert_eq!(policy_value(None, "securityPolicy/allowPromiscuous"), None);
}
