use collab_duplicator::folder::{
    db_layout_to_view_layout, find_view_info, folder_view_from_info, view_info_by_view_id,
    view_info_map, DatabaseLayout, FolderView, IconType, PublishViewInfo, PublishViewMetaData,
    ViewIcon, ViewLayout,
};

fn info(view_id: &str, name: &str, children: Option<Vec<PublishViewInfo>>) -> PublishViewInfo {
    PublishViewInfo {
        view_id: view_id.to_string(),
        name: name.to_string(),
        icon: Some(ViewIcon { ty: IconType::Emoji, value: "x".to_string() }),
        layout: ViewLayout::Document,
        extra: Some("extra".to_string()),
        created_by: Some(1),
        last_edited_by: Some(2),
        last_edited_time: 3,
        created_at: 4,
        child_views: children,
    }
}

#[test]
fn database_layouts_map_to_the_folder_layouts_of_the_same_name() {
    assert_eq!(db_layout_to_view_layout(DatabaseLayout::Grid), ViewLayout::Grid);
    assert_eq!(db_layout_to_view_layout(DatabaseLayout::Board), ViewLayout::Board);
    assert_eq!(db_layout_to_view_layout(DatabaseLayout::Calendar), ViewLayout::Calendar);
}

#[test]
fn a_folder_view_takes_name_icon_and_extra_from_the_metadata() {
    let view = folder_view_from_info("new".to_string(), &info("old", "Name", None), ViewLayout::Board, 77, 9);
    assert_eq!(view, FolderView {
        id: "new".to_string(),
        parent_view_id: String::new(),
        name: "Name".to_string(),
        desc: String::new(),
        children: vec![],
        created_at: 77,
        created_by: Some(9),
        last_edited_time: 77,
        last_edited_by: Some(9),
        is_favorite: false,
        layout: ViewLayout::Board,
        icon: Some(ViewIcon { ty: IconType::Emoji, value: "x".to_string() }),
        extra: Some("extra".to_string()),
    });
}

fn nested() -> PublishViewMetaData {
    PublishViewMetaData {
        view: info("root", "Root", None),
        child_views: vec![
            info("a", "A", Some(vec![info("a1", "A1", Some(vec![info("a11", "A11", None)])), info("a2", "A2", None)])),
            info("b", "B", Some(vec![])),
            info("a1", "A1 again", None),
        ],
        ancestor_views: vec![info("up", "Up", None)],
    }
}

#[test]
fn the_views_of_the_metadata_come_depth_first() {
    let meta = nested();
    let all = view_info_by_view_id(&meta);
    let ids: Vec<&str> = all.iter().map(|i| i.view_id.as_str()).collect();
    assert_eq!(ids, vec!["root", "a", "a1", "a11", "a2", "b", "a1"]);
}

#[test]
fn view_info_map_appends_to_what_is_there() {
    let first = info("first", "First", None);
    let more = vec![info("b", "B", Some(vec![info("b1", "B1", None)])), info("c", "C", None)];
    let mut acc = vec![&first];
    view_info_map(&mut acc, &more);
    let ids: Vec<&str> = acc.iter().map(|i| i.view_id.as_str()).collect();
    assert_eq!(ids, vec!["first", "b", "b1", "c"]);
}

#[test]
fn of_two_views_with_one_identifier_the_later_is_found() {
    let meta = nested();
    let all = view_info_by_view_id(&meta);
    assert_eq!(find_view_info(&all, &"a1".to_string()).unwrap().name, "A1 again");
    assert_eq!(find_view_info(&all, &"a11".to_string()).unwrap().name, "A11");
    assert_eq!(find_view_info(&all, &"root".to_string()).unwrap().name, "Root");
    assert!(find_view_info(&all, &"up".to_string()).is_none());
}
