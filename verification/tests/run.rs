use collab_duplicator::duplicator::PublishCollabDuplicator;
use collab_duplicator::plan::{FinalStep, RealtimeUser, UpdateSync};
use collab_duplicator::ids::{is_uuid, IdRewriter, Lookup};
use collab_duplicator::notification::{get_new_notifications, NOTIFICATION_TICK_INTERVAL_SECS};
use collab_duplicator::store::{CollabType, PublishedStore};

fn copier(ts_now: i64) -> PublishCollabDuplicator {
    PublishCollabDuplicator::with_timestamp(ts_now, 3, "ws".to_string(), "dest".to_string())
}

#[test]
fn a_new_run_has_copied_nothing() {
    let run = PublishCollabDuplicator::new(3, "ws".to_string(), "dest".to_string());
    assert_eq!(run.duplicator_uid, 3);
    assert_eq!(run.dest_workspace_id, "ws");
    assert_eq!(run.dest_view_id, "dest");
    assert!(run.collabs.is_empty());
    assert!(run.views_to_add.is_empty());
    assert!(run.workspace_databases.is_empty());
    assert!(run.ts_now > 1_600_000_000);
    assert_eq!(run.ids.lookup(&"x".to_string()), Lookup::Unknown);
}

#[test]
fn the_finalisation_of_a_run_without_databases_touches_the_folder_only() {
    assert_eq!(copier(0).finalisation(), vec![
        FinalStep::AddFolderViews,
        FinalStep::InsertFolder,
        FinalStep::BroadcastFolder,
        FinalStep::Commit,
    ]);
}

#[test]
fn broadcast_update_frames_the_message() {
    let run = copier(1_700_000_000);
    assert_eq!(run.broadcast_update(&"oid".to_string(), false), None);
    let UpdateSync { user, object_id, msg_id } = run.broadcast_update(&"oid".to_string(), true).unwrap();
    assert_eq!(object_id, "oid");
    assert_eq!(msg_id, 1_700_000_000);
    let RealtimeUser { uid, device_id, connect_at, session_id, app_version } = user;
    assert_eq!(uid, 3);
    assert_eq!(connect_at, 1_700_000_000);
    assert_eq!(app_version, "");
    assert!(is_uuid(&device_id));
    assert!(is_uuid(&session_id));
    assert_ne!(device_id, session_id);
}

#[test]
fn the_number_of_a_message_is_the_time_read_as_unsigned() {
    let number = |ts_now: i64| copier(ts_now).broadcast_update(&"o".to_string(), true).unwrap().msg_id;
    assert_eq!(number(0), 0);
    assert_eq!(number(i64::MAX), 9_223_372_036_854_775_807);
    assert_eq!(number(-1), u64::MAX);
    assert_eq!(number(-2), 18_446_744_073_709_551_614);
    assert_eq!(number(i64::MIN), 9_223_372_036_854_775_808);
}

#[test]
fn fresh_identifiers_are_uuids_in_the_hyphenated_form() {
    let mut ids = IdRewriter::new();
    let first = ids.fresh_id();
    let second = ids.fresh_id();
    assert_eq!(first.len(), 36);
    assert_eq!(first.matches('-').count(), 4);
    assert_eq!(first, first.to_lowercase());
    assert!(is_uuid(&first));
    assert_ne!(first, second);
    assert_eq!(ids.lookup(&first), Lookup::Unknown);
}

#[test]
fn assign_draws_and_records() {
    let mut ids = IdRewriter::new();
    let new_id = ids.assign(&"old".to_string());
    assert!(is_uuid(&new_id));
    assert_eq!(ids.lookup(&"old".to_string()), Lookup::Pending(new_id));
}

#[test]
fn record_and_tombstone_replace_what_was_recorded() {
    let mut ids = IdRewriter::new();
    ids.record(&"k".to_string(), &"v1".to_string());
    ids.record(&"k".to_string(), &"v2".to_string());
    assert_eq!(ids.lookup(&"k".to_string()), Lookup::Pending("v2".to_string()));
    ids.tombstone(&"k".to_string());
    assert_eq!(ids.lookup(&"k".to_string()), Lookup::Tombstone);
}

#[test]
fn is_uuid_reads_what_the_uuid_crate_reads() {
    for good in [
        "67e55044-10b1-426f-9247-bb680e5fe0c8",
        "67e5504410b1426f9247bb680e5fe0c8",
        "urn:uuid:67e55044-10b1-426f-9247-bb680e5fe0c8",
        "{67e55044-10b1-426f-9247-bb680e5fe0c8}",
        "67E55044-10B1-426F-9247-BB680E5FE0C8",
    ] {
        assert!(is_uuid(&good.to_string()), "{}", good);
    }
    for bad in ["", "page", "67e55044-10b1-426f-9247-bb680e5fe0c", "67e55044-10b1-426f-9247-bb680e5fe0cg"] {
        assert!(!is_uuid(&bad.to_string()), "{}", bad);
    }
}

#[test]
fn of_two_answers_for_a_view_the_earlier_counts() {
    let mut store = PublishedStore::new();
    assert!(store.document(&"a".to_string()).is_none());
    store.add_document("a".to_string(), None);
    store.add_document(
        "a".to_string(),
        Some(collab_duplicator::store::PublishedDocument {
            metadata: collab_duplicator::folder::PublishViewMetaData {
                view: collab_duplicator::folder::PublishViewInfo {
                    view_id: "a".to_string(),
                    name: String::new(),
                    icon: None,
                    layout: collab_duplicator::folder::ViewLayout::Document,
                    extra: None,
                    created_by: None,
                    last_edited_by: None,
                    last_edited_time: 0,
                    created_at: 0,
                    child_views: None,
                },
                child_views: vec![],
                ancestor_views: vec![],
            },
            data: collab_duplicator::document::DocumentData { blocks: vec![], text_map: None },
        }),
    );
    assert!(store.document(&"a".to_string()).unwrap().published.is_none());
    assert!(store.database(&"a".to_string()).is_none());
    store.add_database("a".to_string(), None);
    assert!(store.database(&"a".to_string()).unwrap().published.is_none());
    assert_eq!(store.documents.len(), 2);
    let _ = CollabType::Folder;
}

#[test]
fn the_notification_service_wakes_every_five_minutes() {
    assert_eq!(NOTIFICATION_TICK_INTERVAL_SECS, 300);
    get_new_notifications();
}
