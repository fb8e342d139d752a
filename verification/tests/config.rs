use invar::vcenter::secrets::store_error;
use invar::vcenter::config::{finish_resolve, forgotten_accounts, AppConfig, VCenterConnection};
use invar::vcenter::secrets::account;

#[test]
fn base_url_tolerates_a_pasted_scheme_and_trailing_slash() {
    let conn = VCenterConnection::new("https://vc.example.com/", "admin");
    assert_eq!(conn.base_url(), "https://vc.example.com");
    assert_eq!(conn.label(), "vc.example.com");
}

#[test]
fn account_separates_users_on_one_host() {
    assert_ne!(
        account("vc.example.com", "alice@vsphere.local"),
        account("vc.example.com", "bob@vsphere.local")
    );
}

#[test]
fn account_separates_hosts_for_one_user() {
    assert_ne!(
        account("vc-a.example.com", "administrator@vsphere.local"),
        account("vc-b.example.com", "administrator@vsphere.local")
    );
}

#[test]
fn base_url_strips_whitespace_http_and_every_trailing_slash() {
    let conn = VCenterConnection::new("  http://vc.example.com//  ", "admin");
    assert_eq!(conn.base_url(), "https://vc.example.com");
    assert_eq!(conn.cache_key(), "https://vc.example.com|admin");
}

#[test]
fn a_connection_without_a_password_is_named_in_the_error() {
    let cfg = AppConfig {
        connections: vec![
            VCenterConnection::new("vc1.example.com", "admin"),
            VCenterConnection::new("vc2.example.com", "admin"),
        ],
    };
    let err = finish_resolve(&cfg, vec![Some("pw".to_string()), None]).unwrap_err();
    assert_eq!(
        err,
        "no password stored for vc2.example.com. Open Settings and enter it, or set INVAR_PASSWORD_<n>."
    );
    let ok = finish_resolve(&cfg, vec![Some("a".to_string()), Some("b".to_string())]).unwrap();
    assert_eq!(ok[1].password, "b");
    assert!(!ok[1].has_stored_password);
}

#[test]
fn a_credential_store_failure_names_the_host() {
    assert_eq!(
        store_error("vc1", true, "locked"),
        "no OS credential store is available for vc1. On a headless machine, pass the password in INVAR_PASSWORD_<n> instead."
    );
    assert_eq!(store_error("vc1", false, "denied"), "credential store failed for vc1: denied");
}

#[test]
fn a_removed_connection_has_its_password_forgotten() {
    let previous = AppConfig {
        connections: vec![
            VCenterConnection::new("vc1.example.com", "admin"),
            VCenterConnection::new("https://vc2.example.com/", "admin"),
            VCenterConnection::new("vc3.example.com", "ops"),
        ],
    };
    let current = AppConfig {
        connections: vec![
            VCenterConnection::new("vc2.example.com", "admin"),
            VCenterConnection::new("vc3.example.com", "admin"),
        ],
    };
    assert_eq!(forgotten_accounts(&previous, &current), vec![0, 2]);
    assert!(forgotten_accounts(&current, &current).is_empty());
}
