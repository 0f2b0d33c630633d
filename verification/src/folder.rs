//! Folder views and the metadata that a published view carries.

use vstd::prelude::*;

verus! {

/// How a folder view is laid out.
#[derive(Debug, Clone, Copy, PartialEq, Eq, Structural)]
pub enum ViewLayout {
    Document,
    Grid,
    Board,
    Calendar,
}

/// How a database view is laid out.
#[derive(Debug, Clone, Copy, PartialEq, Eq, Structural)]
pub enum DatabaseLayout {
    Grid,
    Board,
    Calendar,
}

/// The kind of a view's icon.
#[derive(Debug, Clone, Copy, PartialEq, Eq, Structural)]
pub enum IconType {
    Emoji,
    Url,
    Icon,
}

/// The icon of a view.
#[derive(Debug, PartialEq, Eq)]
pub struct ViewIcon {
    pub ty: IconType,
    pub value: String,
}

impl Clone for ViewIcon {
    fn clone(&self) -> (r: ViewIcon)
        ensures
            r == *self,
    {
        ViewIcon { ty: self.ty, value: self.value.clone() }
    }
}

/// A reference to a child view.
#[derive(Debug, PartialEq, Eq)]
pub struct ViewIdentifier {
    pub id: String,
}

impl Clone for ViewIdentifier {
    fn clone(&self) -> (r: ViewIdentifier)
        ensures
            r == *self,
    {
        ViewIdentifier { id: self.id.clone() }
    }
}

/// An entry of a workspace's folder.
#[derive(Debug, PartialEq, Eq)]
pub struct FolderView {
    pub id: String,
    pub parent_view_id: String,
    pub name: String,
    pub desc: String,
    pub children: Vec<ViewIdentifier>,
    pub created_at: i64,
    pub created_by: Option<i64>,
    pub last_edited_time: i64,
    pub last_edited_by: Option<i64>,
    pub is_favorite: bool,
    pub layout: ViewLayout,
    pub icon: Option<ViewIcon>,
    pub extra: Option<String>,
}

/// What a published view says of itself and of the views below it.
#[derive(Debug, PartialEq, Eq)]
pub struct PublishViewInfo {
    pub view_id: String,
    pub name: String,
    pub icon: Option<ViewIcon>,
    pub layout: ViewLayout,
    pub extra: Option<String>,
    pub created_by: Option<i64>,
    pub last_edited_by: Option<i64>,
    pub last_edited_time: i64,
    pub created_at: i64,
    pub child_views: Option<Vec<PublishViewInfo>>,
}

/// The metadata stored with a published view: the view itself, its
/// ancestors from the root down, and its children.
#[derive(Debug, PartialEq, Eq)]
pub struct PublishViewMetaData {
    pub view: PublishViewInfo,
    pub child_views: Vec<PublishViewInfo>,
    pub ancestor_views: Vec<PublishViewInfo>,
}

/// The folder layout that shows a database view of the given layout.
pub open spec fn layout_of(layout: DatabaseLayout) -> ViewLayout {
    match layout {
        DatabaseLayout::Grid => ViewLayout::Grid,
        DatabaseLayout::Board => ViewLayout::Board,
        DatabaseLayout::Calendar => ViewLayout::Calendar,
    }
}

/// The folder layout that shows a database view of the given layout.
pub fn db_layout_to_view_layout(layout: DatabaseLayout) -> (r: ViewLayout)
    ensures
        r == layout_of(layout),
        r != ViewLayout::Document,
{
    match layout {
        DatabaseLayout::Grid => ViewLayout::Grid,
        DatabaseLayout::Board => ViewLayout::Board,
        DatabaseLayout::Calendar => ViewLayout::Calendar,
    }
}

/// `view` is a folder view for `view_info` under the identifier `id` and
/// the parent `parent`: it was created and last edited at `ts_now` by
/// `uid`, and takes name, icon and extra from `view_info`.  Nothing is
/// said of its children.
pub open spec fn is_view_for_info(
    view: FolderView,
    id: String,
    view_info: PublishViewInfo,
    layout: ViewLayout,
    ts_now: i64,
    uid: i64,
    parent: Seq<char>,
) -> bool {
    &&& view.id == id
    &&& view.parent_view_id@ == parent
    &&& view.name == view_info.name
    &&& view.desc@ == Seq::<char>::empty()
    &&& view.created_at == ts_now
    &&& view.created_by == Some(uid)
    &&& view.last_edited_time == ts_now
    &&& view.last_edited_by == Some(uid)
    &&& view.is_favorite == false
    &&& view.layout == layout
    &&& view.icon == view_info.icon
    &&& view.extra == view_info.extra
}

/// `view` bears the stamp of a duplication: it was created and last
/// edited at `ts_now` by `uid`, has no description and is no favorite.
pub open spec fn is_stamped(view: FolderView, ts_now: i64, uid: i64) -> bool {
    &&& view.desc@ == Seq::<char>::empty()
    &&& view.created_at == ts_now
    &&& view.created_by == Some(uid)
    &&& view.last_edited_time == ts_now
    &&& view.last_edited_by == Some(uid)
    &&& view.is_favorite == false
}

/// `view` is the folder view made for `view_info` under the identifier
/// `id` and the parent `parent`, and has no children.
pub open spec fn is_view_from_info(
    view: FolderView,
    id: String,
    view_info: PublishViewInfo,
    layout: ViewLayout,
    ts_now: i64,
    uid: i64,
    parent: Seq<char>,
) -> bool {
    &&& is_view_for_info(view, id, view_info, layout, ts_now, uid, parent)
    &&& view.children@ == Seq::<ViewIdentifier>::empty()
}

/// A copy of an optional icon.
pub fn clone_icon(icon: &Option<ViewIcon>) -> (r: Option<ViewIcon>)
    ensures
        r == *icon,
{
    match icon {
        Some(i) => Some(i.clone()),
        None => None,
    }
}

/// A copy of an optional string.
pub fn clone_opt_string(s: &Option<String>) -> (r: Option<String>)
    ensures
        r == *s,
{
    match s {
        Some(t) => Some(t.clone()),
        None => None,
    }
}

/// Makes the folder view for `view_info` under the identifier
/// `new_view_id`.  The parent is left empty for the caller to fill.
pub fn folder_view_from_info(
    new_view_id: String,
    view_info: &PublishViewInfo,
    layout: ViewLayout,
    ts_now: i64,
    uid: i64,
) -> (view: FolderView)
    ensures
        is_view_from_info(
            view,
            new_view_id,
            *view_info,
            layout,
            ts_now,
            uid,
            Seq::<char>::empty(),
        ),
{
    FolderView {
        id: new_view_id,
        parent_view_id: String::new(),
        name: view_info.name.clone(),
        desc: String::new(),
        children: Vec::new(),
        created_at: ts_now,
        created_by: Some(uid),
        last_edited_time: ts_now,
        last_edited_by: Some(uid),
        is_favorite: false,
        layout,
        icon: clone_icon(&view_info.icon),
        extra: clone_opt_string(&view_info.extra),
    }
}

/// A view followed by everything below it, depth first.
pub open spec fn subtree_infos(info: PublishViewInfo) -> Seq<PublishViewInfo>
    decreases info,
{
    match info.child_views {
        Some(children) => seq![info] + forest_infos(children@),
        None => seq![info],
    }
}

/// The views of a list, each followed by everything below it.
pub open spec fn forest_infos(infos: Seq<PublishViewInfo>) -> Seq<PublishViewInfo>
    decreases infos,
{
    if infos.len() == 0 {
        Seq::empty()
    } else {
        forest_infos(infos.drop_last()) + subtree_infos(infos.last())
    }
}

/// Every view that the metadata describes: the view itself, then its
/// children, each followed by everything below it.
pub open spec fn all_infos(meta: PublishViewMetaData) -> Seq<PublishViewInfo> {
    seq![meta.view] + forest_infos(meta.child_views@)
}

/// The description stored under `view_id`: of the entries with that
/// identifier, the last one.
pub open spec fn info_for(infos: Seq<PublishViewInfo>, view_id: Seq<char>) -> Option<
    PublishViewInfo,
>
    decreases infos.len(),
{
    if infos.len() == 0 {
        None
    } else if infos.last().view_id@ == view_id {
        Some(infos.last())
    } else {
        info_for(infos.drop_last(), view_id)
    }
}

/// The values that a list of references points to.
pub open spec fn pointees<T>(refs: Seq<&T>) -> Seq<T> {
    refs.map_values(|r: &T| *r)
}

/// Appends to `acc` the views of `view_infos`, each followed by everything
/// below it.
pub fn view_info_map<'a>(acc: &mut Vec<&'a PublishViewInfo>, view_infos: &'a Vec<PublishViewInfo>)
    ensures
        pointees(final(acc)@) == pointees(old(acc)@) + forest_infos(view_infos@),
    decreases view_infos,
{
    let mut i: usize = 0;
    while i < view_infos.len()
        invariant
            0 <= i <= view_infos.len(),
            pointees(acc@) == pointees(old(acc)@) + forest_infos(view_infos@.take(i as int)),
        decreases view_infos.len() - i,
    {
        let view_info = &view_infos[i];
        let ghost before = acc@;
        acc.push(view_info);
        if let Some(child_views) = &view_info.child_views {
            view_info_map(acc, child_views);
        }
        proof {
            let next = view_infos@.take(i + 1);
            assert(next.drop_last() == view_infos@.take(i as int));
            assert(pointees(acc@) == pointees(before) + subtree_infos(*view_info));
        }
        i += 1;
    }
    proof {
        assert(view_infos@.take(view_infos.len() as int) == view_infos@);
    }
}

/// Every view that the metadata describes, for looking one up by its
/// identifier with [`find_view_info`].
pub fn view_info_by_view_id<'a>(meta: &'a PublishViewMetaData) -> (acc: Vec<&'a PublishViewInfo>)
    ensures
        pointees(acc@) == all_infos(*meta),
{
    let mut acc: Vec<&'a PublishViewInfo> = Vec::new();
    acc.push(&meta.view);
    view_info_map(&mut acc, &meta.child_views);
    acc
}

/// Looks up the description stored under `view_id`.
pub fn find_view_info<'a>(infos: &Vec<&'a PublishViewInfo>, view_id: &String) -> (r: Option<
    &'a PublishViewInfo,
>)
    ensures
        match r {
            Some(info) => info_for(pointees(infos@), view_id@) == Some(*info),
            None => info_for(pointees(infos@), view_id@) is None,
        },
{
    let ghost all = pointees(infos@);
    let mut i: usize = infos.len();
    proof {
        assert(all.take(i as int) == all);
    }
    while i > 0
        invariant
            0 <= i <= infos.len(),
            all == pointees(infos@),
            info_for(all, view_id@) == info_for(all.take(i as int), view_id@),
        decreases i,
    {
        i -= 1;
        proof {
            let upto = all.take(i + 1);
            assert(upto.drop_last() == all.take(i as int));
        }
        if infos[i].view_id == *view_id {
            return Some(infos[i]);
        }
    }
    None
}

} // verus!
