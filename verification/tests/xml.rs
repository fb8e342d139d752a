use invar::vcenter::xml_read::parse;

#[test]
fn names_are_local_and_xsi_type_is_kept() {
    let e = parse(r#"<soapenv:Envelope xmlns:soapenv="x"><val type="HostSystem" xsi:type="ArrayOfString"><string>a</string></val></soapenv:Envelope>"#).unwrap();
    assert_eq!(e.name, "Envelope");
    let v = &e.children[0];
    assert_eq!(v.xsi_type.as_deref(), Some("ArrayOfString"));
    assert_eq!(v.attr("type"), Some("HostSystem"));
    assert_eq!(v.child("string").map(|s| s.text.as_str()), Some("a"));
}

#[test]
fn paths_and_searches_walk_the_tree() {
    let e = parse("<a><b><c>1</c><c>2</c></b><d><c>3</c></d></a>").unwrap();
    assert_eq!(e.text_at("b/c").as_deref(), Some("1"));
    assert_eq!(e.text_at("b/x"), None);
    assert_eq!(e.children_named("b").len(), 1);
    assert_eq!(e.children[0].children_named("c").len(), 2);
    assert_eq!(e.find("c").map(|c| c.text.as_str()), Some("1"));
    assert_eq!(e.find("d").and_then(|d| d.find("c")).map(|c| c.text.as_str()), Some("3"));
    assert!(e.find("z").is_none());
}

#[test]
fn entities_are_decoded() {
    let e = parse("<a>x &amp; y &lt; z</a>").unwrap();
    assert_eq!(e.text, "x & y < z");
}

#[test]
fn a_broken_document_is_an_error() {
    assert!(parse("<a><b></a>").is_err());
}
