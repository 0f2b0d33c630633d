use collab_duplicator::database::{
    contains_id, find_links, find_row, map_row_orders, renumber_views, select_views,
    set_links, DatabaseLinks, DatabaseView, RowCopy,
};
use collab_duplicator::error::DuplicateError;
use collab_duplicator::folder::{
    view_info_by_view_id, DatabaseLayout, PublishViewInfo, PublishViewMetaData, ViewLayout,
};

fn s(text: &str) -> String {
    text.to_string()
}

fn view(id: &str, layout: DatabaseLayout, rows: &[&str]) -> DatabaseView {
    DatabaseView {
        id: s(id),
        database_id: s("db-old"),
        layout,
        row_orders: rows.iter().map(|r| s(r)).collect(),
    }
}

fn info(view_id: &str, name: &str) -> PublishViewInfo {
    PublishViewInfo {
        view_id: s(view_id),
        name: s(name),
        icon: None,
        layout: ViewLayout::Grid,
        extra: Some(s("{}")),
        created_by: None,
        last_edited_by: None,
        last_edited_time: 0,
        created_at: 0,
        child_views: None,
    }
}

fn metadata() -> PublishViewMetaData {
    PublishViewMetaData {
        view: info("main", "Main"),
        child_views: vec![info("board", "Board")],
        ancestor_views: vec![],
    }
}

fn rows() -> Vec<RowCopy> {
    vec![
        RowCopy { old_row_id: s("r1"), new_row_id: s("n1") },
        RowCopy { old_row_id: s("r2"), new_row_id: s("n2") },
    ]
}

#[test]
fn contains_id_finds_what_is_there() {
    let ids = vec![s("a"), s("b")];
    assert!(contains_id(&ids, &s("b")));
    assert!(!contains_id(&ids, &s("c")));
    assert!(!contains_id(&vec![], &s("a")));
}

#[test]
fn select_views_keeps_the_main_and_the_visible_views_in_order() {
    let views = vec![
        view("hidden", DatabaseLayout::Grid, &[]),
        view("board", DatabaseLayout::Board, &[]),
        view("main", DatabaseLayout::Grid, &[]),
        view("cal", DatabaseLayout::Calendar, &[]),
    ];
    let kept = select_views(&views, &s("main"), &vec![s("cal"), s("board"), s("gone")]);
    let ids: Vec<&str> = kept.iter().map(|v| v.id.as_str()).collect();
    assert_eq!(ids, vec!["board", "main", "cal"]);
    assert!(select_views(&views, &s("other"), &vec![]).is_empty());
}

#[test]
fn find_row_gives_the_last_copy_of_a_row() {
    let mut copies = rows();
    copies.push(RowCopy { old_row_id: s("r1"), new_row_id: s("n3") });
    assert_eq!(find_row(&copies, &s("r1")), Some(&s("n3")));
    assert_eq!(find_row(&copies, &s("r2")), Some(&s("n2")));
    assert_eq!(find_row(&copies, &s("r9")), None);
}

#[test]
fn map_row_orders_maps_each_position() {
    assert_eq!(
        map_row_orders(&vec![s("r2"), s("r1"), s("r2")], &rows()),
        Ok(vec![s("n2"), s("n1"), s("n2")])
    );
    assert_eq!(map_row_orders(&vec![], &rows()), Ok(vec![]));
}

#[test]
fn map_row_orders_names_the_first_missing_row() {
    assert_eq!(map_row_orders(&vec![s("r1"), s("x"), s("y")], &rows()), Err(s("x")));
}

#[test]
fn renumber_views_renumbers_views_and_rows() {
    let views = vec![
        view("board", DatabaseLayout::Board, &["r2", "r1"]),
        view("main", DatabaseLayout::Calendar, &["r1"]),
    ];
    let kept: Vec<&DatabaseView> = views.iter().collect();
    let meta = metadata();
    let infos = view_info_by_view_id(&meta);
    let out = renumber_views(
        &kept,
        &infos,
        &meta.view,
        &s("main"),
        &s("new-main"),
        &s("new-db"),
        &rows(),
        &vec![s("fresh-0"), s("fresh-1")],
        99,
        5,
    )
    .unwrap();
    assert_eq!(out.views.len(), 2);
    assert_eq!(out.views[0].old_view_id, "board");
    assert_eq!(out.views[0].view, DatabaseView {
        id: s("fresh-0"),
        database_id: s("new-db"),
        layout: DatabaseLayout::Board,
        row_orders: vec![s("n2"), s("n1")],
    });
    assert_eq!(out.views[1].old_view_id, "main");
    assert_eq!(out.views[1].view, DatabaseView {
        id: s("new-main"),
        database_id: s("new-db"),
        layout: DatabaseLayout::Calendar,
        row_orders: vec![s("n1")],
    });
    assert_eq!(out.selected_view.id, "new-main");
    assert_eq!(out.selected_view.parent_view_id, "");
    assert_eq!(out.selected_view.name, "Main");
    assert_eq!(out.selected_view.layout, ViewLayout::Calendar);
    assert_eq!(out.selected_view.created_at, 99);
    assert_eq!(out.selected_view.created_by, Some(5));
    assert_eq!(out.selected_view.extra, Some(s("{}")));
    assert_eq!(out.sibling_views.len(), 1);
    assert_eq!(out.sibling_views[0].id, "fresh-0");
    assert_eq!(out.sibling_views[0].parent_view_id, "new-main");
    assert_eq!(out.sibling_views[0].name, "Board");
    assert_eq!(out.sibling_views[0].layout, ViewLayout::Board);
}

fn renumber_error(views: Vec<DatabaseView>) -> DuplicateError {
    let kept: Vec<&DatabaseView> = views.iter().collect();
    let meta = metadata();
    let infos = view_info_by_view_id(&meta);
    let fresh: Vec<String> = views.iter().map(|_| s("fresh")).collect();
    match renumber_views(
        &kept,
        &infos,
        &meta.view,
        &s("main"),
        &s("new-main"),
        &s("new-db"),
        &rows(),
        &fresh,
        0,
        0,
    ) {
        Ok(_) => panic!("the views should not renumber"),
        Err(e) => e,
    }
}

#[test]
fn renumber_views_wants_metadata_for_each_sibling() {
    assert_eq!(
        renumber_error(vec![
            view("main", DatabaseLayout::Grid, &["nope"]),
            view("cal", DatabaseLayout::Calendar, &[]),
        ]),
        DuplicateError::RecordNotFound(s("metadata not found for view: cal"))
    );
}

#[test]
fn renumber_views_wants_the_main_view() {
    assert_eq!(
        renumber_error(vec![view("board", DatabaseLayout::Board, &["nope"])]),
        DuplicateError::RecordNotFound(s("main view not found"))
    );
}

#[test]
fn renumber_views_wants_every_row() {
    assert_eq!(
        renumber_error(vec![
            view("board", DatabaseLayout::Board, &["r1"]),
            view("main", DatabaseLayout::Grid, &["r2", "r7", "r8"]),
        ]),
        DuplicateError::RecordNotFound(s("row not found: r7"))
    );
}

#[test]
fn set_links_replaces_the_entry_of_a_database() {
    let mut entries: Vec<DatabaseLinks> = vec![];
    set_links(&mut entries, s("db1"), vec![s("v1")]);
    set_links(&mut entries, s("db2"), vec![s("v2")]);
    set_links(&mut entries, s("db1"), vec![s("v3"), s("v4")]);
    assert_eq!(entries, vec![
        DatabaseLinks { database_id: s("db1"), view_ids: vec![s("v3"), s("v4")] },
        DatabaseLinks { database_id: s("db2"), view_ids: vec![s("v2")] },
    ]);
    set_links(&mut entries, s("db3"), vec![s("v6")]);
    assert_eq!(entries[2], DatabaseLinks { database_id: s("db3"), view_ids: vec![s("v6")] });
    assert_eq!(find_links(&entries, &s("db2")), Some(1));
    assert_eq!(find_links(&entries, &s("db9")), None);
}
