use collab_duplicator::ids::{IdRewriter, Lookup};

#[test]
fn lookup_of_an_unseen_id_is_unknown() {
    let ids = IdRewriter::new();
    assert_eq!(ids.lookup(&"a".to_string()), Lookup::Unknown);
}

#[test]
fn record_then_lookup_is_pending() {
    let mut ids = IdRewriter::new();
    ids.record(&"old".to_string(), &"new".to_string());
    assert_eq!(ids.lookup(&"old".to_string()), Lookup::Pending("new".to_string()));
    assert_eq!(ids.lookup(&"other".to_string()), Lookup::Unknown);
}

#[test]
fn tombstone_then_lookup_is_tombstone() {
    let mut ids = IdRewriter::new();
    ids.tombstone(&"gone".to_string());
    assert_eq!(ids.lookup(&"gone".to_string()), Lookup::Tombstone);
}
