use collab_duplicator::database::{DatabaseView, PublishedDatabase};
use collab_duplicator::document::{Block, DocumentData, TextEntry};
use collab_duplicator::duplicator::{
    duplicate_published_collab_to_workspace, PublishCollabDuplicator,
};
use collab_duplicator::plan::{Duplication, FinalStep, NewCollab, RunOutcome};
use collab_duplicator::error::DuplicateError;
use collab_duplicator::folder::{
    DatabaseLayout, FolderView, PublishViewInfo, PublishViewMetaData, ViewLayout,
};
use collab_duplicator::ids::Lookup;
use collab_duplicator::json::{JsonMember, JsonValue};
use collab_duplicator::store::{
    CollabType, PublishedDatabaseView, PublishedDocument, PublishedStore,
};

const DEST: &str = "99999999-0000-4000-8000-000000000000";
const WORKSPACE: &str = "88888888-0000-4000-8000-000000000000";

fn id(n: u32) -> String {
    format!("00000000-0000-4000-8000-{:012x}", n)
}

fn info(view_id: &str, name: &str, layout: ViewLayout) -> PublishViewInfo {
    PublishViewInfo {
        view_id: view_id.to_string(),
        name: name.to_string(),
        icon: None,
        layout,
        extra: None,
        created_by: Some(7),
        last_edited_by: Some(7),
        last_edited_time: 10,
        created_at: 10,
        child_views: None,
    }
}

fn meta(view_id: &str, name: &str, layout: ViewLayout) -> PublishViewMetaData {
    PublishViewMetaData {
        view: info(view_id, name, layout),
        child_views: vec![],
        ancestor_views: vec![],
    }
}

fn member(key: &str, value: JsonValue) -> JsonMember {
    JsonMember { key: key.to_string(), value }
}

fn text(value: &str) -> JsonValue {
    JsonValue::Text(value.to_string())
}

fn plain(insert: &str) -> JsonValue {
    JsonValue::Object(vec![member("insert", text(insert))])
}

fn mention(page_id: &str) -> JsonValue {
    JsonValue::Object(vec![
        member("insert", text("$")),
        member(
            "attributes",
            JsonValue::Object(vec![member(
                "mention",
                JsonValue::Object(vec![
                    member("type", text("page")),
                    member("page_id", text(page_id)),
                ]),
            )]),
        ),
    ])
}

fn paragraph(block_id: &str, delta: Vec<JsonValue>) -> Block {
    Block {
        id: block_id.to_string(),
        ty: "paragraph".to_string(),
        data: vec![member("delta", JsonValue::Array(delta))],
    }
}

fn document(view_id: &str, name: &str, blocks: Vec<Block>) -> PublishedDocument {
    PublishedDocument {
        metadata: meta(view_id, name, ViewLayout::Document),
        data: DocumentData { blocks, text_map: None },
    }
}

fn complete(outcome: RunOutcome) -> Duplication {
    match outcome {
        RunOutcome::Complete(plan) => plan,
        RunOutcome::Fetch(request) => panic!("the run asks for {:?}", request),
        RunOutcome::Failed(e) => panic!("the run failed with {:?}", e),
    }
}

fn run(store: &PublishedStore, root: &str, collab_type: CollabType) -> RunOutcome {
    duplicate_published_collab_to_workspace(
        store,
        42,
        root.to_string(),
        WORKSPACE.to_string(),
        DEST.to_string(),
        collab_type,
    )
}

fn document_of(collab: &NewCollab) -> (&String, &DocumentData) {
    match collab {
        NewCollab::Document { object_id, data, .. } => (object_id, data),
        other => panic!("not a document: {:?}", other),
    }
}

fn delta_of(block: &Block) -> &Vec<JsonValue> {
    match &block.data[0].value {
        JsonValue::Array(items) => items,
        other => panic!("not a delta: {:?}", other),
    }
}

fn view_by_id<'a>(plan: &'a Duplication, view_id: &str) -> &'a FolderView {
    plan.run
        .views_to_add
        .iter()
        .find(|v| v.id == view_id)
        .unwrap_or_else(|| panic!("no view {}", view_id))
}

#[test]
fn a_document_without_references_is_copied_alone() {
    let a = id(1);
    let mut store = PublishedStore::new();
    store.add_document(
        a.clone(),
        Some(document(&a, "A", vec![paragraph("b1", vec![plain("hello")])])),
    );
    let plan = complete(run(&store, &a, CollabType::Document));
    assert_eq!(plan.run.collabs.len(), 1);
    let (object_id, data) = document_of(&plan.run.collabs[0]);
    assert_eq!(*object_id, plan.root_view.id);
    assert!(matches!(&plan.run.collabs[0], NewCollab::Document { published_view_id, .. } if *published_view_id == a));
    assert_eq!(*data, DocumentData {
        blocks: vec![paragraph("b1", vec![plain("hello")])],
        text_map: None,
    });
    assert_eq!(plan.root_view.parent_view_id, DEST);
    assert_eq!(plan.root_view.name, "A");
    assert_eq!(plan.root_view.layout, ViewLayout::Document);
    assert!(plan.root_view.children.is_empty());
    assert!(plan.run.views_to_add.is_empty());
    assert!(plan.run.workspace_databases.is_empty());
    assert_eq!(plan.final_steps, vec![
        FinalStep::AddFolderViews,
        FinalStep::InsertFolder,
        FinalStep::BroadcastFolder,
        FinalStep::Commit,
    ]);
    assert_eq!(plan.run.ids.lookup(&a), Lookup::Pending(plan.root_view.id.clone()));
}

#[test]
fn a_mentioned_published_page_is_copied_below_the_document() {
    let a = id(1);
    let b = id(2);
    let mut store = PublishedStore::new();
    store.add_document(
        a.clone(),
        Some(document(&a, "A", vec![paragraph("b1", vec![plain("see "), mention(&b)])])),
    );
    store.add_document(b.clone(), Some(document(&b, "B", vec![paragraph("b1", vec![plain("b")])])));
    let plan = complete(run(&store, &a, CollabType::Document));
    assert_eq!(plan.run.collabs.len(), 2);
    let (b_new, _) = document_of(&plan.run.collabs[0]);
    let (a_new, a_data) = document_of(&plan.run.collabs[1]);
    assert_eq!(*a_new, plan.root_view.id);
    assert_ne!(a_new, b_new);
    assert_eq!(plan.root_view.children.len(), 1);
    assert_eq!(plan.root_view.children[0].id, *b_new);
    assert_eq!(plan.run.views_to_add.len(), 1);
    assert_eq!(plan.run.views_to_add[0].id, *b_new);
    assert_eq!(plan.run.views_to_add[0].parent_view_id, *a_new);
    assert_eq!(plan.run.views_to_add[0].name, "B");
    assert_eq!(delta_of(&a_data.blocks[0])[1], mention(b_new));
    assert_eq!(delta_of(&a_data.blocks[0])[0], plain("see "));
}

#[test]
fn a_mention_of_an_unpublished_page_is_left_alone() {
    let a = id(1);
    let u = id(3);
    let blocks = || vec![paragraph("b1", vec![mention(&id(3)), plain("tail")])];
    let mut store = PublishedStore::new();
    store.add_document(a.clone(), Some(document(&a, "A", blocks())));
    store.add_document(u.clone(), None);
    let plan = complete(run(&store, &a, CollabType::Document));
    assert_eq!(plan.run.collabs.len(), 1);
    let (_, data) = document_of(&plan.run.collabs[0]);
    assert_eq!(data.blocks, blocks());
    assert_eq!(plan.run.ids.lookup(&u), Lookup::Tombstone);
    assert!(plan.run.views_to_add.is_empty());
    assert!(plan.root_view.children.is_empty());
}

#[test]
fn documents_that_mention_each_other_are_copied_once_each() {
    let a = id(1);
    let b = id(2);
    let mut store = PublishedStore::new();
    store.add_document(a.clone(), Some(document(&a, "A", vec![paragraph("b1", vec![mention(&b)])])));
    store.add_document(b.clone(), Some(document(&b, "B", vec![paragraph("b1", vec![mention(&a)])])));
    let plan = complete(run(&store, &a, CollabType::Document));
    assert_eq!(plan.run.collabs.len(), 2);
    let (b_new, b_data) = document_of(&plan.run.collabs[0]);
    let (a_new, a_data) = document_of(&plan.run.collabs[1]);
    assert_eq!(*a_new, plan.root_view.id);
    assert_eq!(delta_of(&a_data.blocks[0])[0], mention(b_new));
    assert_eq!(delta_of(&b_data.blocks[0])[0], mention(a_new));
    assert_eq!(plan.root_view.children.len(), 1);
    assert_eq!(plan.root_view.children[0].id, *b_new);
    let b_view = view_by_id(&plan, b_new);
    assert_eq!(b_view.parent_view_id, *a_new);
    // A mention of a page that already has its new identifier names that
    // page as a child, so B's copy names A's.
    assert_eq!(b_view.children.len(), 1);
    assert_eq!(b_view.children[0].id, *a_new);
    assert_eq!(plan.run.views_to_add.len(), 1);
}

fn grid_block(block_id: &str, view_id: &str, parent_id: &str) -> Block {
    Block {
        id: block_id.to_string(),
        ty: "grid".to_string(),
        data: vec![member("view_id", text(view_id)), member("parent_id", text(parent_id))],
    }
}

fn database(main: &str, other: &str, rows: &[String]) -> PublishedDatabaseView {
    let mut metadata = meta(main, "Tasks", ViewLayout::Grid);
    metadata.child_views = vec![info(other, "Tasks board", ViewLayout::Board)];
    PublishedDatabaseView {
        metadata,
        database: PublishedDatabase {
            row_ids: rows.to_vec(),
            views: Some(vec![
                DatabaseView {
                    id: main.to_string(),
                    database_id: id(500),
                    layout: DatabaseLayout::Grid,
                    row_orders: rows.to_vec(),
                },
                DatabaseView {
                    id: other.to_string(),
                    database_id: id(500),
                    layout: DatabaseLayout::Board,
                    row_orders: rows.iter().rev().cloned().collect(),
                },
                DatabaseView {
                    id: id(77),
                    database_id: id(500),
                    layout: DatabaseLayout::Calendar,
                    row_orders: vec![],
                },
            ]),
            visible_database_view_ids: vec![other.to_string()],
        },
    }
}

#[test]
fn a_grid_in_a_document_brings_its_database_along() {
    let a = id(1);
    let main = id(10);
    let other = id(11);
    let rows = vec![id(100), id(101), id(102)];
    let mut store = PublishedStore::new();
    store.add_document(
        a.clone(),
        Some(document(&a, "A", vec![
            paragraph("b1", vec![plain("table below")]),
            grid_block("b2", &main, &a),
        ])),
    );
    store.add_database(main.clone(), Some(database(&main, &other, &rows)));
    let plan = complete(run(&store, &a, CollabType::Document));

    // three rows, the database, the document
    assert_eq!(plan.run.collabs.len(), 5);
    let mut new_rows = vec![];
    for (i, collab) in plan.run.collabs[..3].iter().enumerate() {
        match collab {
            NewCollab::DatabaseRow { object_id, published_view_id, old_row_id, database_id } => {
                assert_eq!(*published_view_id, main);
                assert_eq!(*old_row_id, rows[i]);
                new_rows.push((object_id.clone(), database_id.clone()));
            },
            other => panic!("not a row: {:?}", other),
        }
    }
    let (db_id, views) = match &plan.run.collabs[3] {
        NewCollab::Database { object_id, published_view_id, rows: copies, views, linked_views } => {
            assert_eq!(linked_views.len(), 3);
            assert_eq!(*published_view_id, main);
            assert_eq!(copies.len(), 3);
            for (i, copy) in copies.iter().enumerate() {
                assert_eq!(copy.old_row_id, rows[i]);
                assert_eq!(copy.new_row_id, new_rows[i].0);
            }
            (object_id.clone(), views)
        },
        other => panic!("not a database: {:?}", other),
    };
    assert!(new_rows.iter().all(|(_, database_id)| *database_id == db_id));
    assert_ne!(db_id, id(500));
    let (doc_id, data) = document_of(&plan.run.collabs[4]);
    assert_eq!(*doc_id, plan.root_view.id);

    // the two kept views of the database, renumbered
    assert_eq!(views.len(), 2);
    assert_eq!(views[0].old_view_id, main);
    assert_eq!(views[1].old_view_id, other);
    assert!(views.iter().all(|v| v.view.database_id == db_id));
    let forward: Vec<String> = new_rows.iter().map(|(row, _)| row.clone()).collect();
    let backward: Vec<String> = forward.iter().rev().cloned().collect();
    assert_eq!(views[0].view.row_orders, forward);
    assert_eq!(views[1].view.row_orders, backward);

    // the sibling, the database's folder view, the view of the block
    assert_eq!(plan.run.views_to_add.len(), 3);
    let sibling = &plan.run.views_to_add[0];
    let folder_db = &plan.run.views_to_add[1];
    let in_doc = &plan.run.views_to_add[2];
    assert_eq!(folder_db.id, views[0].view.id);
    assert_eq!(folder_db.parent_view_id, *doc_id);
    assert_eq!(folder_db.layout, ViewLayout::Grid);
    assert_eq!(folder_db.name, "Tasks");
    assert_eq!(sibling.id, views[1].view.id);
    assert_eq!(sibling.parent_view_id, folder_db.id);
    assert_eq!(sibling.layout, ViewLayout::Board);
    assert_eq!(sibling.name, "Tasks board");
    assert_eq!(in_doc.parent_view_id, folder_db.id);
    assert_eq!(in_doc.layout, ViewLayout::Grid);

    // the block points at the new views
    assert_eq!(data.blocks[1], grid_block("b2", &in_doc.id, &folder_db.id));
    assert_eq!(data.blocks[0], paragraph("b1", vec![plain("table below")]));

    // the new database is linked to three views
    assert_eq!(plan.run.workspace_databases.len(), 1);
    assert_eq!(plan.run.workspace_databases[0].database_id, db_id);
    assert_eq!(plan.run.workspace_databases[0].view_ids, vec![
        folder_db.id.clone(),
        sibling.id.clone(),
        in_doc.id.clone(),
    ]);
    assert_eq!(plan.final_steps, vec![
        FinalStep::LinkDatabases,
        FinalStep::BroadcastWorkspaceDatabase,
        FinalStep::InsertWorkspaceDatabase,
        FinalStep::AddFolderViews,
        FinalStep::InsertFolder,
        FinalStep::BroadcastFolder,
        FinalStep::Commit,
    ]);
    assert!(plan.root_view.children.is_empty());
}

#[test]
fn a_database_is_copied_with_its_rows_and_visible_views() {
    let main = id(10);
    let other = id(11);
    let rows = vec![id(100), id(101)];
    let mut store = PublishedStore::new();
    store.add_database(main.clone(), Some(database(&main, &other, &rows)));
    let plan = complete(run(&store, &main, CollabType::Database));
    assert_eq!(plan.run.collabs.len(), 3);
    assert!(matches!(plan.run.collabs[0], NewCollab::DatabaseRow { .. }));
    assert!(matches!(plan.run.collabs[1], NewCollab::DatabaseRow { .. }));
    let (db_id, views) = match &plan.run.collabs[2] {
        NewCollab::Database { object_id, views, .. } => (object_id.clone(), views),
        other => panic!("not a database: {:?}", other),
    };
    assert_eq!(plan.root_view.parent_view_id, DEST);
    assert_eq!(plan.root_view.layout, ViewLayout::Grid);
    assert_eq!(plan.root_view.id, views[0].view.id);
    assert_ne!(plan.root_view.id, db_id);
    assert_eq!(plan.run.views_to_add.len(), 1);
    assert_eq!(plan.run.views_to_add[0].id, views[1].view.id);
    assert_eq!(plan.run.views_to_add[0].parent_view_id, plan.root_view.id);
    assert_eq!(plan.run.workspace_databases.len(), 1);
    assert_eq!(plan.run.workspace_databases[0].database_id, db_id);
    assert_eq!(plan.run.workspace_databases[0].view_ids, vec![
        views[0].view.id.clone(),
        views[1].view.id.clone(),
    ]);
    assert_eq!(plan.final_steps[0], FinalStep::LinkDatabases);
    // the mapping is of pages: the root of a database run is no page
    assert_eq!(plan.run.ids.lookup(&main), Lookup::Unknown);
    assert!(matches!(&plan.run.collabs[2], NewCollab::Database { linked_views, .. }
        if *linked_views == plan.run.workspace_databases[0].view_ids));
}

#[test]
fn a_run_asks_for_what_the_record_lacks() {
    let a = id(1);
    let b = id(2);
    let mut store = PublishedStore::new();
    match run(&store, &a, CollabType::Document) {
        RunOutcome::Fetch(request) => {
            assert_eq!(request.view_id, a);
            assert_eq!(request.collab_type, CollabType::Document);
        },
        _ => panic!("the run should ask for the root"),
    }
    store.add_document(a.clone(), Some(document(&a, "A", vec![paragraph("b1", vec![mention(&b)])])));
    match run(&store, &a, CollabType::Document) {
        RunOutcome::Fetch(request) => {
            assert_eq!(request.view_id, b);
            assert_eq!(request.collab_type, CollabType::Document);
        },
        _ => panic!("the run should ask for the mentioned page"),
    }
    store.add_document(b.clone(), None);
    let plan = complete(run(&store, &a, CollabType::Document));
    assert_eq!(plan.run.collabs.len(), 1);
}

#[test]
fn a_run_asks_for_the_database_of_a_block() {
    let a = id(1);
    let main = id(10);
    let mut store = PublishedStore::new();
    store.add_document(a.clone(), Some(document(&a, "A", vec![grid_block("b2", &main, &a)])));
    match run(&store, &a, CollabType::Document) {
        RunOutcome::Fetch(request) => {
            assert_eq!(request.view_id, main);
            assert_eq!(request.collab_type, CollabType::Database);
        },
        _ => panic!("the run should ask for the database"),
    }
    store.add_database(main.clone(), None);
    let plan = complete(run(&store, &a, CollabType::Document));
    let (_, data) = document_of(&plan.run.collabs[0]);
    assert_eq!(data.blocks[0], grid_block("b2", &main, &a));
    assert!(plan.run.workspace_databases.is_empty());
}

fn failure(outcome: RunOutcome) -> DuplicateError {
    match outcome {
        RunOutcome::Failed(e) => e,
        RunOutcome::Fetch(request) => panic!("the run asks for {:?}", request),
        RunOutcome::Complete(_) => panic!("the run is complete"),
    }
}

#[test]
fn a_root_that_is_no_uuid_is_a_parse_error() {
    let store = PublishedStore::new();
    assert_eq!(
        failure(run(&store, "not-a-uuid", CollabType::Document)),
        DuplicateError::Parse("not-a-uuid".to_string())
    );
}

#[test]
fn an_unpublished_root_is_not_found() {
    let a = id(1);
    let mut store = PublishedStore::new();
    store.add_document(a.clone(), None);
    store.add_database(a.clone(), None);
    let expected =
        DuplicateError::RecordNotFound("view not found, it might be unpublished".to_string());
    assert_eq!(failure(run(&store, &a, CollabType::Document)), expected);
    assert_eq!(failure(run(&store, &a, CollabType::Database)), expected);
}

#[test]
fn a_root_of_another_kind_is_not_found() {
    let a = id(1);
    let store = PublishedStore::new();
    for collab_type in [
        CollabType::Folder,
        CollabType::DatabaseRow,
        CollabType::WorkspaceDatabase,
        CollabType::Other,
    ] {
        assert_eq!(
            failure(run(&store, &a, collab_type)),
            DuplicateError::RecordNotFound("collab type not supported".to_string())
        );
    }
}

#[test]
fn a_mention_that_is_no_uuid_fails_the_run() {
    let a = id(1);
    let mut store = PublishedStore::new();
    store.add_document(a.clone(), Some(document(&a, "A", vec![paragraph("b1", vec![mention("page")])])));
    assert_eq!(
        failure(run(&store, &a, CollabType::Document)),
        DuplicateError::Parse("page".to_string())
    );
}

#[test]
fn a_database_block_without_its_keys_fails_the_run() {
    let a = id(1);
    let main = id(10);
    let other = id(11);
    let mut store = PublishedStore::new();
    store.add_database(main.clone(), Some(database(&main, &other, &[])));
    let cases = vec![
        (vec![member("parent_id", text(&a))], "view_id not found in block data"),
        (vec![member("view_id", JsonValue::Bool(true))], "view_id not a string"),
        (vec![member("view_id", text(&main))], "parent_id not found in block data"),
    ];
    for (data, message) in cases {
        let mut with_doc = PublishedStore::new();
        with_doc.add_database(main.clone(), Some(database(&main, &other, &[])));
        with_doc.add_document(
            a.clone(),
            Some(document(&a, "A", vec![Block {
                id: "b".to_string(),
                ty: "board".to_string(),
                data,
            }])),
        );
        assert_eq!(
            failure(run(&with_doc, &a, CollabType::Document)),
            DuplicateError::RecordNotFound(message.to_string())
        );
    }
    // a block that shows a database needs both keys, published or not
    let mut unpublished = PublishedStore::new();
    unpublished.add_database(main.clone(), None);
    unpublished.add_document(
        a.clone(),
        Some(document(&a, "A", vec![Block {
            id: "b".to_string(),
            ty: "calendar".to_string(),
            data: vec![member("view_id", text(&main))],
        }])),
    );
    assert_eq!(
        failure(run(&unpublished, &a, CollabType::Document)),
        DuplicateError::RecordNotFound("parent_id not found in block data".to_string())
    );
    let mut unanswered = PublishedStore::new();
    unanswered.add_document(
        a.clone(),
        Some(document(&a, "A", vec![Block {
            id: "b".to_string(),
            ty: "grid".to_string(),
            data: vec![member("view_id", text(&main))],
        }])),
    );
    assert_eq!(
        failure(run(&unanswered, &a, CollabType::Document)),
        DuplicateError::RecordNotFound("parent_id not found in block data".to_string())
    );
    let mut bad_view = PublishedStore::new();
    bad_view.add_document(a.clone(), Some(document(&a, "A", vec![grid_block("b", "x", &a)])));
    assert_eq!(
        failure(run(&bad_view, &a, CollabType::Document)),
        DuplicateError::Parse("x".to_string())
    );
}

#[test]
fn the_text_map_is_rewritten_by_what_is_known() {
    let a = id(1);
    let b = id(2);
    let u = id(3);
    let never = id(4);
    let entry = |page: &str| {
        format!(
            "[{{\"insert\":\"$\",\"attributes\":{{\"mention\":{{\"type\":\"page\",\"page_id\":\"{}\"}}}}}}]",
            page
        )
    };
    let mut published = document(&a, "A", vec![paragraph("b1", vec![mention(&b), mention(&u)])]);
    published.data.text_map = Some(vec![
        TextEntry { key: "t1".to_string(), value: entry(&b) },
        TextEntry { key: "t2".to_string(), value: entry(&u) },
        TextEntry { key: "t3".to_string(), value: entry(&never) },
        TextEntry { key: "t4".to_string(), value: "{ not json".to_string() },
        TextEntry { key: "t5".to_string(), value: "{\"b\": 1, \"a\": 2}".to_string() },
        TextEntry { key: "t6".to_string(), value: "[ 1.50, {\"z\":null,\"a\":[true]} ]".to_string() },
    ]);
    let mut store = PublishedStore::new();
    store.add_document(a.clone(), Some(published));
    store.add_document(b.clone(), Some(document(&b, "B", vec![])));
    store.add_document(u.clone(), None);
    let plan = complete(run(&store, &a, CollabType::Document));
    let (_, data) = document_of(&plan.run.collabs[1]);
    let b_new = plan.root_view.children[0].id.clone();
    let printed = |page: &str| {
        format!(
            "[{{\"attributes\":{{\"mention\":{{\"page_id\":\"{}\",\"type\":\"page\"}}}},\"insert\":\"$\"}}]",
            page
        )
    };
    let text_map = data.text_map.as_ref().unwrap();
    assert_eq!(text_map.len(), 6);
    assert_eq!(text_map[0], TextEntry { key: "t1".to_string(), value: printed(&b_new) });
    assert_eq!(text_map[1], TextEntry { key: "t2".to_string(), value: printed(&u) });
    assert_eq!(text_map[2], TextEntry { key: "t3".to_string(), value: printed(&never) });
    assert_eq!(text_map[3].value, "{ not json");
    assert_eq!(text_map[4].value, "{\"b\": 1, \"a\": 2}");
    assert_eq!(text_map[5].value, "[1.5,{\"a\":[true],\"z\":null}]");
}

#[test]
fn a_page_mentioned_twice_is_copied_once_and_named_twice() {
    let a = id(1);
    let b = id(2);
    let mut store = PublishedStore::new();
    store.add_document(
        a.clone(),
        Some(document(&a, "A", vec![
            paragraph("b1", vec![mention(&b)]),
            paragraph("b2", vec![mention(&b)]),
        ])),
    );
    store.add_document(b.clone(), Some(document(&b, "B", vec![])));
    let plan = complete(run(&store, &a, CollabType::Document));
    assert_eq!(plan.run.collabs.len(), 2);
    assert_eq!(plan.run.views_to_add.len(), 1);
    assert_eq!(plan.root_view.children.len(), 2);
    assert_eq!(plan.root_view.children[0], plan.root_view.children[1]);
}

#[test]
fn every_new_identifier_is_one_of_the_draws() {
    let a = id(1);
    let b = id(2);
    let main = id(10);
    let other = id(11);
    let rows = vec![id(100), id(101)];
    let mut store = PublishedStore::new();
    store.add_document(
        a.clone(),
        Some(document(&a, "A", vec![
            paragraph("b1", vec![mention(&b)]),
            grid_block("b2", &main, &a),
        ])),
    );
    store.add_document(b.clone(), Some(document(&b, "B", vec![])));
    store.add_database(main.clone(), Some(database(&main, &other, &rows)));
    let first = complete(run(&store, &a, CollabType::Document));
    let second = complete(run(&store, &a, CollabType::Document));
    let ids_of = |plan: &Duplication| -> Vec<String> {
        let mut ids: Vec<String> = vec![plan.root_view.id.clone()];
        ids.extend(plan.run.views_to_add.iter().map(|v| v.id.clone()));
        for collab in &plan.run.collabs {
            match collab {
                NewCollab::Document { .. } => {},
                NewCollab::DatabaseRow { object_id, .. } => ids.push(object_id.clone()),
                NewCollab::Database { object_id, .. } => ids.push(object_id.clone()),
            }
        }
        ids
    };
    let first_ids = ids_of(&first);
    let second_ids = ids_of(&second);
    // root, page, sibling, database view, block view, two rows, database
    assert_eq!(first_ids.len(), 8);
    for (i, x) in first_ids.iter().enumerate() {
        assert_eq!(x.len(), 36);
        assert!(first_ids[i + 1..].iter().all(|y| y != x));
        assert!(second_ids.iter().all(|y| y != x));
    }
}

#[test]
fn with_timestamp_stamps_every_view() {
    let a = id(1);
    let b = id(2);
    let mut store = PublishedStore::new();
    store.add_document(a.clone(), Some(document(&a, "A", vec![paragraph("b1", vec![mention(&b)])])));
    store.add_document(b.clone(), Some(document(&b, "B", vec![])));
    let copier =
        PublishCollabDuplicator::with_timestamp(1234, 42, WORKSPACE.to_string(), DEST.to_string());
    let plan = complete(copier.deep_copy(&store, &a, CollabType::Document));
    for view in std::iter::once(&plan.root_view).chain(plan.run.views_to_add.iter()) {
        assert_eq!(view.created_at, 1234);
        assert_eq!(view.last_edited_time, 1234);
        assert_eq!(view.created_by, Some(42));
        assert_eq!(view.last_edited_by, Some(42));
        assert_eq!(view.desc, "");
        assert!(!view.is_favorite);
    }
    assert_eq!(plan.run.dest_workspace_id, WORKSPACE);
}

#[test]
fn every_replaced_reference_has_its_collab_and_its_view() {
    let a = id(1);
    let b = id(2);
    let c = id(3);
    let u = id(4);
    let mut store = PublishedStore::new();
    store.add_document(
        a.clone(),
        Some(document(&a, "A", vec![paragraph("b1", vec![mention(&b), mention(&u), mention(&c)])])),
    );
    store.add_document(b.clone(), Some(document(&b, "B", vec![paragraph("b1", vec![mention(&c)])])));
    store.add_document(c.clone(), Some(document(&c, "C", vec![paragraph("b1", vec![mention(&a)])])));
    store.add_document(u.clone(), None);
    let plan = complete(run(&store, &a, CollabType::Document));
    assert_eq!(plan.run.collabs.len(), 3);
    for old in [&a, &b, &c] {
        let new = match plan.run.ids.lookup(old) {
            Lookup::Pending(new) => new,
            other => panic!("{} is {:?}", old, other),
        };
        let collabs: Vec<&NewCollab> = plan
            .run
            .collabs
            .iter()
            .filter(|collab| matches!(collab, NewCollab::Document { object_id, published_view_id, .. }
                if *object_id == new && published_view_id == old))
            .collect();
        assert_eq!(collabs.len(), 1);
        let views = plan.run.views_to_add.iter().filter(|view| view.id == new).count()
            + if plan.root_view.id == new { 1 } else { 0 };
        assert_eq!(views, 1);
    }
    assert_eq!(plan.run.ids.lookup(&u), Lookup::Tombstone);
    // every view but the root hangs on a view of the duplicate
    for view in &plan.run.views_to_add {
        assert!(
            view.parent_view_id == plan.root_view.id
                || plan.run.views_to_add.iter().any(|other| other.id == view.parent_view_id)
        );
    }
    // C is copied below B, where it is met first; A names it as well
    let c_new = match plan.run.ids.lookup(&c) {
        Lookup::Pending(new) => new,
        _ => panic!("C has no copy"),
    };
    let b_new = match plan.run.ids.lookup(&b) {
        Lookup::Pending(new) => new,
        _ => panic!("B has no copy"),
    };
    assert_eq!(view_by_id(&plan, &c_new).parent_view_id, b_new);
    let children: Vec<&String> = plan.root_view.children.iter().map(|child| &child.id).collect();
    assert_eq!(children, vec![&b_new, &c_new]);
}

#[test]
fn a_run_that_fails_below_the_root_hands_nothing_over() {
    let a = id(1);
    let main = id(10);
    let mut broken = database(&main, &id(11), &[id(100)]);
    broken.database.views.as_mut().unwrap()[0].row_orders.push(id(999));
    let mut store = PublishedStore::new();
    store.add_document(
        a.clone(),
        Some(document(&a, "A", vec![paragraph("b1", vec![plain("x")]), grid_block("b2", &main, &a)])),
    );
    store.add_database(main.clone(), Some(broken));
    match run(&store, &a, CollabType::Document) {
        RunOutcome::Failed(e) => {
            assert_eq!(e, DuplicateError::RecordNotFound(format!("row not found: {}", id(999))))
        },
        _ => panic!("the run should fail"),
    }
}

#[test]
fn a_database_without_views_or_without_kept_views_fails_the_run() {
    let main = id(10);
    let mut without_views = database(&main, &id(11), &[]);
    without_views.database.views = None;
    let mut store = PublishedStore::new();
    store.add_database(main.clone(), Some(without_views));
    assert_eq!(
        failure(run(&store, &main, CollabType::Database)),
        DuplicateError::RecordNotFound("no views found in database".to_string())
    );
    let other_root = id(12);
    let mut hidden = database(&main, &id(11), &[]);
    hidden.database.visible_database_view_ids = vec![];
    let mut store = PublishedStore::new();
    store.add_database(other_root.clone(), Some(hidden));
    assert_eq!(
        failure(run(&store, &other_root, CollabType::Database)),
        DuplicateError::RecordNotFound("no (visible) views found in database".to_string())
    );
    let mut store = PublishedStore::new();
    store.add_database(other_root.clone(), Some(database(&main, &id(11), &[])));
    assert_eq!(
        failure(run(&store, &other_root, CollabType::Database)),
        DuplicateError::RecordNotFound("main view not found".to_string())
    );
}

#[test]
fn a_copy_holds_each_block_and_each_key_of_its_page_once() {
    let a = id(1);
    let b = id(2);
    let main = id(10);
    let other = id(11);
    let mut store = PublishedStore::new();
    store.add_document(
        a.clone(),
        Some(document(&a, "A", vec![
            paragraph("b1", vec![mention(&b), plain("and a table")]),
            grid_block("b2", &main, &a),
        ])),
    );
    store.add_document(b.clone(), Some(document(&b, "B", vec![paragraph("c1", vec![plain("b")])])));
    store.add_database(main.clone(), Some(database(&main, &other, &[id(100)])));
    let plan = complete(run(&store, &a, CollabType::Document));
    let (_, data) = document_of(plan.run.collabs.last().unwrap());
    let block_ids: Vec<&str> = data.blocks.iter().map(|block| block.id.as_str()).collect();
    assert_eq!(block_ids, vec!["b1", "b2"]);
    let published = grid_block("b2", &main, &a);
    let keys: Vec<&str> = data.blocks[1].data.iter().map(|m| m.key.as_str()).collect();
    let published_keys: Vec<&str> = published.data.iter().map(|m| m.key.as_str()).collect();
    assert_eq!(keys, published_keys);
    for block in &data.blocks {
        let mut keys: Vec<&str> = block.data.iter().map(|m| m.key.as_str()).collect();
        let all = keys.len();
        keys.sort();
        keys.dedup();
        assert_eq!(keys.len(), all);
    }
    // each database is linked once
    let mut linked: Vec<&str> =
        plan.run.workspace_databases.iter().map(|links| links.database_id.as_str()).collect();
    let all = linked.len();
    linked.sort();
    linked.dedup();
    assert_eq!(linked.len(), all);
    assert_eq!(all, 1);
}
