use invar::vcenter::soap::{
    container_view_body, continue_body, destroy_view_body, envelope, login_body, read_login_reply,
    read_page, read_reply, read_view_reply, retrieve_body, session_cookie, xml_escape,
    ManagedObject,
};
use invar::vcenter::xml_read::parse;

#[test]
fn markup_in_text_is_escaped() {
    assert_eq!(xml_escape(r#"a&b<c>"d'"#), "a&amp;b&lt;c&gt;&quot;d&apos;");
    assert_eq!(xml_escape("plain"), "plain");
}

#[test]
fn the_envelope_wraps_the_body() {
    let e = envelope("<x/>");
    assert!(e.starts_with(r#"<?xml version="1.0" encoding="UTF-8"?><soapenv:Envelope"#));
    assert!(e.ends_with("<soapenv:Body><x/></soapenv:Body></soapenv:Envelope>"));
}

#[test]
fn a_password_with_markup_stays_well_formed() {
    let b = login_body("admin@vsphere.local", "p<&>ss");
    assert_eq!(
        b,
        r#"<vim25:Login><vim25:_this type="SessionManager">SessionManager</vim25:_this><vim25:userName>admin@vsphere.local</vim25:userName><vim25:password>p&lt;&amp;&gt;ss</vim25:password></vim25:Login>"#
    );
    assert!(parse(&envelope(&b)).is_ok());
}

#[test]
fn view_calls_name_their_type_and_view() {
    assert!(container_view_body("HostSystem").contains("<vim25:type>HostSystem</vim25:type>"));
    assert_eq!(
        destroy_view_body("session[1]&x"),
        r#"<vim25:DestroyView><vim25:_this type="ContainerView">session[1]&amp;x</vim25:_this></vim25:DestroyView>"#
    );
}

#[test]
fn a_retrieve_asks_for_each_property_in_order() {
    let b = retrieve_body("VirtualMachine", &["name", "runtime.host"], "view-1");
    assert!(b.contains(
        "<vim25:type>VirtualMachine</vim25:type><vim25:pathSet>name</vim25:pathSet><vim25:pathSet>runtime.host</vim25:pathSet></vim25:propSet>"
    ));
    assert!(b.contains(r#"<vim25:obj type="ContainerView">view-1</vim25:obj>"#));
    assert!(continue_body("tok&1").contains("<vim25:token>tok&amp;1</vim25:token>"));
}

#[test]
fn a_fault_wins_over_the_status() {
    let root = parse("<Envelope><Body><Fault><faultstring>bad</faultstring><detail><localizedMessage>Cannot complete login</localizedMessage></detail></Fault></Body></Envelope>").unwrap();
    assert_eq!(
        read_reply(false, "500 Internal Server Error", &root).err().as_deref(),
        Some("vCenter SOAP fault (500 Internal Server Error): Cannot complete login")
    );
    let root = parse("<Envelope><Body><Fault><faultstring>bad</faultstring></Fault></Body></Envelope>").unwrap();
    assert_eq!(read_reply(true, "200 OK", &root).err().as_deref(), Some("vCenter SOAP fault (200 OK): bad"));
    let root = parse("<Envelope><Body><Fault/></Body></Envelope>").unwrap();
    assert_eq!(
        read_reply(true, "200 OK", &root).err().as_deref(),
        Some("vCenter SOAP fault (200 OK): unspecified SOAP fault")
    );
}

#[test]
fn a_failed_status_without_a_fault_is_reported() {
    let root = parse("<Envelope><Body/></Envelope>").unwrap();
    assert_eq!(read_reply(false, "503 Service Unavailable", &root).err().as_deref(), Some("SOAP call returned HTTP 503 Service Unavailable"));
    let root = parse("<Envelope/>").unwrap();
    assert_eq!(read_reply(true, "200 OK", &root).err().as_deref(), Some("SOAP response had no Body"));
    let root = parse("<Envelope><Body><returnval>x</returnval></Body></Envelope>").unwrap();
    let body = read_reply(true, "200 OK", &root).unwrap();
    assert_eq!(body.name, "Body");
    assert_eq!(body.children[0].text, "x");
}

#[test]
fn only_the_vmware_session_cookie_is_taken() {
    let c = session_cookie(&vec![None, Some("vmware_soap_session=\"abc\"; Path=/; HttpOnly".to_string())]);
    assert_eq!(c.as_deref(), Some("vmware_soap_session=\"abc\""));
    assert_eq!(session_cookie(&vec![Some("other=1; Path=/".to_string()), Some("vmware_soap_session=2".to_string())]), None);
    assert_eq!(session_cookie(&Vec::new()), None);
}

#[test]
fn a_login_reply_yields_the_cookie_or_why_not() {
    let ok = parse("<Envelope><Body><LoginResponse/></Body></Envelope>").unwrap();
    assert_eq!(read_login_reply(true, "200 OK", &ok, Some("vmware_soap_session=1".to_string())), Ok("vmware_soap_session=1".to_string()));
    assert_eq!(read_login_reply(true, "200 OK", &ok, None).err().as_deref(), Some("SOAP login returned no session cookie"));
    assert_eq!(read_login_reply(false, "401 Unauthorized", &ok, None).err().as_deref(), Some("SOAP login returned HTTP 401 Unauthorized"));
    let fault = parse("<Envelope><Body><Fault><faultstring>x</faultstring></Fault></Body></Envelope>").unwrap();
    assert_eq!(read_login_reply(false, "500", &fault, None).err().as_deref(), Some("SOAP login failed: login rejected"));
}

#[test]
fn a_view_reply_names_the_view() {
    let body = parse("<Body><CreateContainerViewResponse><returnval>session[5]</returnval></CreateContainerViewResponse></Body>").unwrap();
    assert_eq!(read_view_reply("HostSystem", &body), Ok("session[5]".to_string()));
    let empty = parse("<Body/>").unwrap();
    assert_eq!(read_view_reply("HostSystem", &empty).err().as_deref(), Some("CreateContainerView for HostSystem returned no view"));
}

#[test]
fn a_page_yields_its_objects_and_its_token() {
    let page = parse("<Body><RetrievePropertiesExResponse><returnval><token>t1</token><objects><obj type=\"HostSystem\">host-1</obj><propSet><name>name</name><val>esx01</val></propSet></objects><objects><obj type=\"HostSystem\">host-2</obj></objects></returnval></RetrievePropertiesExResponse></Body>")
    .unwrap();
    let (objs, token) = read_page(&page);
    assert_eq!(objs.len(), 2);
    assert_eq!(objs[0].moref, "host-1");
    assert_eq!(objs[0].moref_type, "HostSystem");
    assert_eq!(objs[0].str_prop("name").as_deref(), Some("esx01"));
    assert_eq!(token.as_deref(), Some("t1"));
    let last = parse("<Body><returnval><token></token></returnval></Body>").unwrap();
    assert_eq!(read_page(&last).1, None);
    let none = parse("<Body/>").unwrap();
    assert!(read_page(&none).0.is_empty());
}

#[test]
fn typed_properties_are_read_from_their_val() {
    let obj = parse("<objects><obj type=\"VirtualMachine\">vm-1</obj><propSet><name>config.hardware.numCPU</name><val>4</val></propSet><propSet><name>config.template</name><val>true</val></propSet><propSet><name>bad</name><val>four</val></propSet><propSet><name>config.hardware.device</name><val><VirtualDisk><key>2000</key></VirtualDisk><VirtualCdrom><key>3000</key></VirtualCdrom></val></propSet></objects>")
    .unwrap();
    let m = ManagedObject::from_element(&obj);
    assert_eq!(m.i64_prop("config.hardware.numCPU"), Some(4));
    assert_eq!(m.bool_prop("config.template"), Some(true));
    assert_eq!(m.i64_prop("bad"), None);
    assert_eq!(m.i64_prop("missing"), None);
    assert_eq!(m.array_prop("config.hardware.device").len(), 2);
    assert!(m.array_prop("missing").is_empty());
}
