use invar::vcenter::session::{SessionTable, TTL_MS};

#[test]
fn a_recorded_session_is_found_while_fresh() {
    let mut t: SessionTable<u32> = SessionTable::new();
    t.insert("vc1|admin".to_string(), 7, 1_000);
    assert_eq!(t.fresh("vc1|admin", 1_000), Some(&7));
    assert_eq!(t.fresh("vc1|admin", 1_000 + TTL_MS - 1), Some(&7));
    assert_eq!(t.fresh("vc1|admin", 1_000 + TTL_MS), None);
    assert_eq!(t.fresh("vc2|admin", 1_000), None);
}

#[test]
fn a_new_session_replaces_the_old_one() {
    let mut t: SessionTable<u32> = SessionTable::new();
    t.insert("k".to_string(), 1, 0);
    t.insert("k".to_string(), 2, 5);
    assert_eq!(t.fresh("k", 5), Some(&2));
    assert_eq!(t.drain(), vec![2]);
    assert_eq!(t.fresh("k", 5), None);
}

#[test]
fn a_removed_session_is_gone() {
    let mut t: SessionTable<u32> = SessionTable::new();
    t.insert("a".to_string(), 1, 0);
    t.insert("b".to_string(), 2, 0);
    assert_eq!(t.remove("a"), Some(1));
    assert_eq!(t.remove("a"), None);
    assert_eq!(t.fresh("a", 0), None);
    assert_eq!(t.fresh("b", 0), Some(&2));
}
