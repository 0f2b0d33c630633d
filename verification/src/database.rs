//! Renumbering of a published database: which views are kept, which
//! identifier each view and row gets, and how the row orders follow.

use crate::error::DuplicateError;
use crate::folder::{
    db_layout_to_view_layout, find_view_info, folder_view_from_info, info_for, is_stamped,
    is_view_from_info, layout_of, pointees, DatabaseLayout, FolderView, PublishViewInfo,
};
use crate::ids::texts;
use vstd::prelude::*;

verus! {

/// A view of a database, as far as a duplication reads and rewrites it.
#[derive(Debug, PartialEq, Eq)]
pub struct DatabaseView {
    pub id: String,
    pub database_id: String,
    pub layout: DatabaseLayout,
    /// The identifiers of the rows, in the order in which the view shows them.
    pub row_orders: Vec<String>,
}

/// A published database, decoded.
#[derive(Debug, PartialEq, Eq)]
pub struct PublishedDatabase {
    /// The identifiers of the published rows.
    pub row_ids: Vec<String>,
    /// The views of the database, or `None` where it holds no list of views.
    pub views: Option<Vec<DatabaseView>>,
    /// The views that were published beside the main one.
    pub visible_database_view_ids: Vec<String>,
}

/// A row of the duplicate: the published row it is made from and its new
/// identifier.
#[derive(Debug, PartialEq, Eq)]
pub struct RowCopy {
    pub old_row_id: String,
    pub new_row_id: String,
}

/// A view of the duplicate: the published view it is made from, and the
/// view as it stands in the duplicate.
#[derive(Debug, PartialEq, Eq)]
pub struct ViewCopy {
    pub old_view_id: String,
    pub view: DatabaseView,
}

/// A view is kept when it is the one being duplicated or was published
/// beside it.
pub open spec fn is_retained(view: DatabaseView, old_view_id: Seq<char>, visible: Seq<Seq<char>>) -> bool {
    view.id@ == old_view_id || visible.contains(view.id@)
}

/// The views that are kept, in their order.
pub open spec fn retained_views(
    views: Seq<DatabaseView>,
    old_view_id: Seq<char>,
    visible: Seq<Seq<char>>,
) -> Seq<DatabaseView>
    decreases views.len(),
{
    if views.len() == 0 {
        Seq::empty()
    } else {
        let rest = retained_views(views.drop_last(), old_view_id, visible);
        if is_retained(views.last(), old_view_id, visible) {
            rest.push(views.last())
        } else {
            rest
        }
    }
}

/// The new identifier of the published row `old_row_id`: of the copies
/// made from that row, the last one's.
pub open spec fn row_target(rows: Seq<RowCopy>, old_row_id: Seq<char>) -> Option<String>
    decreases rows.len(),
{
    if rows.len() == 0 {
        None
    } else if rows.last().old_row_id@ == old_row_id {
        Some(rows.last().new_row_id)
    } else {
        row_target(rows.drop_last(), old_row_id)
    }
}

/// The first row of an order that has no copy.
pub open spec fn first_missing_row(row_orders: Seq<String>, rows: Seq<RowCopy>) -> Option<
    Seq<char>,
>
    decreases row_orders.len(),
{
    if row_orders.len() == 0 {
        None
    } else if row_target(rows, row_orders[0]@) is None {
        Some(row_orders[0]@)
    } else {
        first_missing_row(row_orders.skip(1), rows)
    }
}

/// The first row, over all views in their order, that has no copy.
pub open spec fn first_missing_row_in(views: Seq<DatabaseView>, rows: Seq<RowCopy>) -> Option<
    Seq<char>,
>
    decreases views.len(),
{
    if views.len() == 0 {
        None
    } else if first_missing_row(views[0].row_orders@, rows) is Some {
        first_missing_row(views[0].row_orders@, rows)
    } else {
        first_missing_row_in(views.skip(1), rows)
    }
}

/// A row order with each row replaced by its copy.
pub open spec fn mapped_rows(row_orders: Seq<String>, rows: Seq<RowCopy>) -> Seq<String> {
    Seq::new(row_orders.len(), |j: int| row_target(rows, row_orders[j]@).unwrap())
}

/// The first view, other than the one being duplicated, that the metadata
/// does not describe.
pub open spec fn first_without_info(
    views: Seq<DatabaseView>,
    old_view_id: Seq<char>,
    infos: Seq<PublishViewInfo>,
) -> Option<Seq<char>>
    decreases views.len(),
{
    if views.len() == 0 {
        None
    } else if views[0].id@ != old_view_id && info_for(infos, views[0].id@) is None {
        Some(views[0].id@)
    } else {
        first_without_info(views.skip(1), old_view_id, infos)
    }
}

/// The layout of the view being duplicated: of the views with its
/// identifier, the last one's.
pub open spec fn main_layout(views: Seq<DatabaseView>, old_view_id: Seq<char>) -> Option<
    DatabaseLayout,
>
    decreases views.len(),
{
    if views.len() == 0 {
        None
    } else if views.last().id@ == old_view_id {
        Some(views.last().layout)
    } else {
        main_layout(views.drop_last(), old_view_id)
    }
}

/// Why the kept views cannot be renumbered, if they cannot: a view without
/// metadata, no view with the identifier being duplicated, or a row order
/// that names an unpublished row, in this order of precedence.
pub open spec fn copy_failure(
    views: Seq<DatabaseView>,
    old_view_id: Seq<char>,
    infos: Seq<PublishViewInfo>,
    rows: Seq<RowCopy>,
) -> Option<Seq<char>> {
    if first_without_info(views, old_view_id, infos) is Some {
        Some("metadata not found for view: "@ + first_without_info(views, old_view_id, infos).unwrap())
    } else if main_layout(views, old_view_id) is None {
        Some("main view not found"@)
    } else if first_missing_row_in(views, rows) is Some {
        Some("row not found: "@ + first_missing_row_in(views, rows).unwrap())
    } else {
        None
    }
}

/// `copy` is `view` as it stands in the duplicate: under the new database,
/// with `new_view_id` where it is the view being duplicated and `fresh`
/// otherwise, and with every row replaced by its copy.
pub open spec fn is_view_copy(
    copy: ViewCopy,
    view: DatabaseView,
    fresh: String,
    old_view_id: Seq<char>,
    new_view_id: String,
    new_db_id: String,
    rows: Seq<RowCopy>,
) -> bool {
    &&& copy.old_view_id == view.id
    &&& copy.view.id == if view.id@ == old_view_id {
        new_view_id
    } else {
        fresh
    }
    &&& copy.view.database_id == new_db_id
    &&& copy.view.layout == view.layout
    &&& copy.view.row_orders@ == mapped_rows(view.row_orders@, rows)
}

/// `siblings` holds, in order, one folder view for each kept view other
/// than the one being duplicated: under the fresh identifier of that view,
/// below `new_view_id`, described by the metadata stored for the view.
pub open spec fn are_sibling_views(
    siblings: Seq<FolderView>,
    views: Seq<DatabaseView>,
    fresh: Seq<String>,
    old_view_id: Seq<char>,
    new_view_id: Seq<char>,
    infos: Seq<PublishViewInfo>,
    ts_now: i64,
    uid: i64,
) -> bool
    decreases views.len(),
{
    if views.len() == 0 || fresh.len() != views.len() {
        siblings.len() == 0 && fresh.len() == views.len()
    } else if views.last().id@ == old_view_id {
        are_sibling_views(
            siblings,
            views.drop_last(),
            fresh.drop_last(),
            old_view_id,
            new_view_id,
            infos,
            ts_now,
            uid,
        )
    } else {
        &&& siblings.len() > 0
        &&& info_for(infos, views.last().id@) is Some
        &&& is_view_from_info(
            siblings.last(),
            fresh.last(),
            info_for(infos, views.last().id@).unwrap(),
            layout_of(views.last().layout),
            ts_now,
            uid,
            new_view_id,
        )
        &&& are_sibling_views(
            siblings.drop_last(),
            views.drop_last(),
            fresh.drop_last(),
            old_view_id,
            new_view_id,
            infos,
            ts_now,
            uid,
        )
    }
}

/// The views of a database as a duplication leaves them.
pub struct RenumberedViews {
    /// The kept views, renumbered, in their order.
    pub views: Vec<ViewCopy>,
    /// The folder view of the view being duplicated, without a parent.
    pub selected_view: FolderView,
    /// The folder views of the other kept views, below the selected one.
    pub sibling_views: Vec<FolderView>,
}

/// Whether `id` is among `ids`.
pub fn contains_id(ids: &Vec<String>, id: &String) -> (r: bool)
    ensures
        r == texts(ids@).contains(id@),
{
    let mut i: usize = 0;
    while i < ids.len()
        invariant
            0 <= i <= ids.len(),
            forall|j: int| 0 <= j < i ==> texts(ids@)[j] != id@,
        decreases ids.len() - i,
    {
        if ids[i] == *id {
            assert(texts(ids@)[i as int] == id@);
            return true;
        }
        i += 1;
    }
    false
}

/// The views that a duplication of `old_view_id` keeps.
pub fn select_views<'a>(
    views: &'a Vec<DatabaseView>,
    old_view_id: &String,
    visible: &Vec<String>,
) -> (kept: Vec<&'a DatabaseView>)
    ensures
        pointees(kept@) == retained_views(views@, old_view_id@, texts(visible@)),
{
    let mut kept: Vec<&'a DatabaseView> = Vec::new();
    let mut i: usize = 0;
    while i < views.len()
        invariant
            0 <= i <= views.len(),
            pointees(kept@) == retained_views(
                views@.take(i as int),
                old_view_id@,
                texts(visible@),
            ),
        decreases views.len() - i,
    {
        let view = &views[i];
        proof {
            let next = views@.take(i + 1);
            assert(next.drop_last() == views@.take(i as int));
        }
        if view.id == *old_view_id || contains_id(visible, &view.id) {
            let ghost before = kept@;
            kept.push(view);
        }
        i += 1;
    }
    proof {
        assert(views@.take(views.len() as int) == views@);
    }
    kept
}

/// The new identifier of the published row `old_row_id`.
pub fn find_row<'a>(rows: &'a Vec<RowCopy>, old_row_id: &String) -> (r: Option<&'a String>)
    ensures
        match r {
            Some(id) => row_target(rows@, old_row_id@) == Some(*id),
            None => row_target(rows@, old_row_id@) is None,
        },
{
    let mut i: usize = rows.len();
    proof {
        assert(rows@.take(i as int) == rows@);
    }
    while i > 0
        invariant
            0 <= i <= rows.len(),
            row_target(rows@, old_row_id@) == row_target(rows@.take(i as int), old_row_id@),
        decreases i,
    {
        i -= 1;
        proof {
            let upto = rows@.take(i + 1);
            assert(upto.drop_last() == rows@.take(i as int));
        }
        if rows[i].old_row_id == *old_row_id {
            return Some(&rows[i].new_row_id);
        }
    }
    None
}

/// A row order with each row replaced by its copy, or the first row that
/// has none.
pub fn map_row_orders(row_orders: &Vec<String>, rows: &Vec<RowCopy>) -> (r: Result<
    Vec<String>,
    String,
>)
    ensures
        match r {
            Ok(mapped) => first_missing_row(row_orders@, rows@) is None && mapped@ == mapped_rows(
                row_orders@,
                rows@,
            ),
            Err(id) => first_missing_row(row_orders@, rows@) == Some(id@),
        },
{
    let mut mapped: Vec<String> = Vec::new();
    let mut i: usize = 0;
    proof {
        assert(row_orders@.skip(0) == row_orders@);
    }
    while i < row_orders.len()
        invariant
            0 <= i <= row_orders.len(),
            first_missing_row(row_orders@, rows@) == first_missing_row(
                row_orders@.skip(i as int),
                rows@,
            ),
            mapped@.len() == i,
            forall|j: int|
                0 <= j < i ==> mapped@[j] == row_target(rows@, #[trigger] row_orders@[j]@).unwrap(),
        decreases row_orders.len() - i,
    {
        proof {
            let rest = row_orders@.skip(i as int);
            assert(rest.skip(1) == row_orders@.skip(i + 1));
        }
        match find_row(rows, &row_orders[i]) {
            Some(new_id) => {
                mapped.push(new_id.clone());
            },
            None => {
                return Err(row_orders[i].clone());
            },
        }
        i += 1;
    }
    Ok(mapped)
}

/// A copy of a database layout's view under its new identifiers.
fn copy_view(
    view: &DatabaseView,
    fresh: &String,
    old_view_id: &String,
    new_view_id: &String,
    new_db_id: &String,
    row_orders: Vec<String>,
) -> (copy: ViewCopy)
    ensures
        copy.old_view_id == view.id,
        copy.view.id == if view.id@ == old_view_id@ {
            *new_view_id
        } else {
            *fresh
        },
        copy.view.database_id == *new_db_id,
        copy.view.layout == view.layout,
        copy.view.row_orders == row_orders,
{
    let id = if view.id == *old_view_id {
        new_view_id.clone()
    } else {
        fresh.clone()
    };
    ViewCopy {
        old_view_id: view.id.clone(),
        view: DatabaseView { id, database_id: new_db_id.clone(), layout: view.layout, row_orders },
    }
}

/// Renumbers the kept views of a database.
///
/// The view with the identifier `old_view_id` becomes `new_view_id`; every
/// other kept view takes the identifier that `fresh_view_ids` holds at its
/// position and gets a folder view below `new_view_id`, described by what
/// `infos` stores for it.  Every view moves to the database `new_db_id`,
/// and every row of its order is replaced by the row's copy in `rows`.
/// The folder view of the duplicated view itself is described by
/// `view_info`.
pub fn renumber_views(
    kept: &Vec<&DatabaseView>,
    infos: &Vec<&PublishViewInfo>,
    view_info: &PublishViewInfo,
    old_view_id: &String,
    new_view_id: &String,
    new_db_id: &String,
    rows: &Vec<RowCopy>,
    fresh_view_ids: &Vec<String>,
    ts_now: i64,
    uid: i64,
) -> (r: Result<RenumberedViews, DuplicateError>)
    requires
        fresh_view_ids.len() == kept.len(),
    ensures
        match r {
            Ok(out) => {
                &&& copy_failure(pointees(kept@), old_view_id@, pointees(infos@), rows@) is None
                &&& out.views@.len() == kept.len()
                &&& forall|i: int|
                    0 <= i < kept.len() ==> is_view_copy(
                        #[trigger] out.views@[i],
                        *kept@[i],
                        fresh_view_ids@[i],
                        old_view_id@,
                        *new_view_id,
                        *new_db_id,
                        rows@,
                    )
                &&& is_view_from_info(
                    out.selected_view,
                    *new_view_id,
                    *view_info,
                    layout_of(main_layout(pointees(kept@), old_view_id@).unwrap()),
                    ts_now,
                    uid,
                    Seq::<char>::empty(),
                )
                &&& are_sibling_views(
                    out.sibling_views@,
                    pointees(kept@),
                    fresh_view_ids@,
                    old_view_id@,
                    new_view_id@,
                    pointees(infos@),
                    ts_now,
                    uid,
                )
            },
            Err(e) => e is RecordNotFound && copy_failure(
                pointees(kept@),
                old_view_id@,
                pointees(infos@),
                rows@,
            ) == Some(e.text()),
        },
{
    let ghost all = pointees(kept@);
    let ghost known = pointees(infos@);
    let mut selected: Option<FolderView> = None;
    let mut siblings: Vec<FolderView> = Vec::new();
    let mut i: usize = 0;
    proof {
        assert(all.skip(0) == all);
    }
    while i < kept.len()
        invariant
            0 <= i <= kept.len(),
            fresh_view_ids.len() == kept.len(),
            all == pointees(kept@),
            known == pointees(infos@),
            first_without_info(all, old_view_id@, known) == first_without_info(
                all.skip(i as int),
                old_view_id@,
                known,
            ),
            selected is None <==> main_layout(all.take(i as int), old_view_id@) is None,
            selected matches Some(v) ==> is_view_from_info(
                v,
                *new_view_id,
                *view_info,
                layout_of(main_layout(all.take(i as int), old_view_id@).unwrap()),
                ts_now,
                uid,
                Seq::<char>::empty(),
            ),
            are_sibling_views(
                siblings@,
                all.take(i as int),
                fresh_view_ids@.take(i as int),
                old_view_id@,
                new_view_id@,
                known,
                ts_now,
                uid,
            ),
        decreases kept.len() - i,
    {
        let view = kept[i];
        proof {
            let rest = all.skip(i as int);
            assert(rest.skip(1) == all.skip(i + 1));
            let upto = all.take(i + 1);
            assert(upto.drop_last() == all.take(i as int));
            let ids = fresh_view_ids@.take(i + 1);
            assert(ids.drop_last() == fresh_view_ids@.take(i as int));
        }
        if view.id == *old_view_id {
            selected = Some(
                folder_view_from_info(
                    new_view_id.clone(),
                    view_info,
                    db_layout_to_view_layout(view.layout),
                    ts_now,
                    uid,
                ),
            );
        } else {
            match find_view_info(infos, &view.id) {
                Some(info) => {
                    let mut sibling = folder_view_from_info(
                        fresh_view_ids[i].clone(),
                        info,
                        db_layout_to_view_layout(view.layout),
                        ts_now,
                        uid,
                    );
                    sibling.parent_view_id = new_view_id.clone();
                    let ghost before = siblings@;
                    siblings.push(sibling);
                    proof {
                        assert(siblings@.drop_last() == before);
                    }
                },
                None => {
                    return Err(
                        DuplicateError::RecordNotFound(
                            "metadata not found for view: ".to_owned().concat(view.id.as_str()),
                        ),
                    );
                },
            }
        }
        i += 1;
    }
    proof {
        assert(fresh_view_ids@.take(kept.len() as int) == fresh_view_ids@);
    }
    let selected_view = match selected {
        Some(v) => v,
        None => {
            return Err(DuplicateError::record_not_found("main view not found"));
        },
    };
    let mut views: Vec<ViewCopy> = Vec::new();
    let mut k: usize = 0;
    while k < kept.len()
        invariant
            0 <= k <= kept.len(),
            fresh_view_ids.len() == kept.len(),
            all == pointees(kept@),
            known == pointees(infos@),
            first_without_info(all, old_view_id@, known) is None,
            main_layout(all, old_view_id@) is Some,
            first_missing_row_in(all, rows@) == first_missing_row_in(all.skip(k as int), rows@),
            views@.len() == k,
            forall|j: int|
                0 <= j < k ==> is_view_copy(
                    #[trigger] views@[j],
                    *kept@[j],
                    fresh_view_ids@[j],
                    old_view_id@,
                    *new_view_id,
                    *new_db_id,
                    rows@,
                ),
        decreases kept.len() - k,
    {
        let view = kept[k];
        proof {
            let rest = all.skip(k as int);
            assert(rest.skip(1) == all.skip(k + 1));
        }
        match map_row_orders(&view.row_orders, rows) {
            Ok(row_orders) => {
                views.push(
                    copy_view(
                        view,
                        &fresh_view_ids[k],
                        old_view_id,
                        new_view_id,
                        new_db_id,
                        row_orders,
                    ),
                );
            },
            Err(row_id) => {
                return Err(
                    DuplicateError::RecordNotFound(
                        "row not found: ".to_owned().concat(row_id.as_str()),
                    ),
                );
            },
        }
        k += 1;
    }
    Ok(RenumberedViews { views, selected_view, sibling_views: siblings })
}

/// The views that show a database of the duplicate.
#[derive(Debug, PartialEq, Eq)]
pub struct DatabaseLinks {
    pub database_id: String,
    pub view_ids: Vec<String>,
}

/// The position, at or after `from`, of the first entry for the database.
pub open spec fn links_index(entries: Seq<DatabaseLinks>, database_id: Seq<char>, from: int) -> Option<
    int,
>
    decreases entries.len() - from,
{
    if from < 0 || from >= entries.len() {
        None
    } else if entries[from].database_id@ == database_id {
        Some(from)
    } else {
        links_index(entries, database_id, from + 1)
    }
}

/// The position of the first entry for the database.
pub fn find_links(entries: &Vec<DatabaseLinks>, database_id: &String) -> (r: Option<usize>)
    ensures
        match r {
            Some(i) => links_index(entries@, database_id@, 0) == Some(i as int) && i
                < entries.len() && entries@[i as int].database_id@ == database_id@,
            None => links_index(entries@, database_id@, 0) is None,
        },
{
    let mut i: usize = 0;
    while i < entries.len()
        invariant
            0 <= i <= entries.len(),
            links_index(entries@, database_id@, 0) == links_index(entries@, database_id@, i as int),
        decreases entries.len() - i,
    {
        if entries[i].database_id == *database_id {
            return Some(i);
        }
        i += 1;
    }
    None
}

/// The model of the links: for each entry, the database and its views.
pub open spec fn links_model(entries: Seq<DatabaseLinks>) -> Seq<(Seq<char>, Seq<Seq<char>>)> {
    Seq::new(entries.len(), |i: int| (entries[i].database_id@, texts(entries[i].view_ids@)))
}

/// The position, at or after `from`, of the first entry for the database.
pub open spec fn model_index(
    links: Seq<(Seq<char>, Seq<Seq<char>>)>,
    database_id: Seq<char>,
    from: int,
) -> Option<int>
    decreases links.len() - from,
{
    if from < 0 || from >= links.len() {
        None
    } else if links[from].0 == database_id {
        Some(from)
    } else {
        model_index(links, database_id, from + 1)
    }
}

/// The links with the views of a database recorded: in place of its
/// entry, or as a new entry at the end where it has none.
pub open spec fn links_put(
    links: Seq<(Seq<char>, Seq<Seq<char>>)>,
    database_id: Seq<char>,
    view_ids: Seq<Seq<char>>,
) -> Seq<(Seq<char>, Seq<Seq<char>>)> {
    match model_index(links, database_id, 0) {
        Some(i) => links.update(i, (database_id, view_ids)),
        None => links.push((database_id, view_ids)),
    }
}

/// No database has two entries.
pub open spec fn distinct_links(links: Seq<(Seq<char>, Seq<Seq<char>>)>) -> bool {
    forall|i: int, j: int|
        0 <= i < j < links.len() ==> (#[trigger] links[i]).0 != (#[trigger] links[j]).0
}

/// The position found by [`model_index`] is in range and holds the
/// database; where none is found, no entry holds it.
pub proof fn lemma_model_index(links: Seq<(Seq<char>, Seq<Seq<char>>)>, database_id: Seq<char>, from: int)
    requires
        0 <= from,
    ensures
        match model_index(links, database_id, from) {
            Some(i) => from <= i < links.len() && links[i].0 == database_id,
            None => forall|i: int| from <= i < links.len() ==> (#[trigger] links[i]).0 != database_id,
        },
    decreases links.len() - from,
{
    if from < links.len() && links[from].0 != database_id {
        lemma_model_index(links, database_id, from + 1);
    }
}

/// Recording the views of a database leaves no database with two
/// entries.
pub proof fn lemma_links_put_distinct(
    links: Seq<(Seq<char>, Seq<Seq<char>>)>,
    database_id: Seq<char>,
    view_ids: Seq<Seq<char>>,
)
    requires
        distinct_links(links),
    ensures
        distinct_links(links_put(links, database_id, view_ids)),
{
    lemma_model_index(links, database_id, 0);
    let after = links_put(links, database_id, view_ids);
    assert forall|i: int, j: int| 0 <= i < j < after.len() implies (#[trigger] after[i]).0 != (
    #[trigger] after[j]).0 by {
        if model_index(links, database_id, 0) is Some {
            assert(after[i].0 == links[i].0);
            assert(after[j].0 == links[j].0);
        } else if j < links.len() {
            assert(after[i] == links[i] && after[j] == links[j]);
        } else {
            assert(after[i] == links[i]);
        }
    }
}

/// The entries and their model agree on where a database stands.
pub proof fn lemma_links_model_index(entries: Seq<DatabaseLinks>, database_id: Seq<char>, from: int)
    requires
        0 <= from,
    ensures
        model_index(links_model(entries), database_id, from) == links_index(
            entries,
            database_id,
            from,
        ),
    decreases entries.len() - from,
{
    if from < entries.len() && entries[from].database_id@ != database_id {
        lemma_links_model_index(entries, database_id, from + 1);
    }
}

/// A copy of a list of identifiers.
pub fn clone_ids(ids: &Vec<String>) -> (r: Vec<String>)
    ensures
        r@ == ids@,
{
    let mut r: Vec<String> = Vec::new();
    let mut i: usize = 0;
    while i < ids.len()
        invariant
            0 <= i <= ids.len(),
            r@ == ids@.take(i as int),
        decreases ids.len() - i,
    {
        r.push(ids[i].clone());
        assert(ids@.take(i + 1) == ids@.take(i as int).push(ids@[i as int]));
        i += 1;
    }
    assert(ids@.take(ids.len() as int) == ids@);
    r
}

/// Records the views of a database, in place of what was recorded for it.
pub fn set_links(entries: &mut Vec<DatabaseLinks>, database_id: String, view_ids: Vec<String>)
    ensures
        links_model(final(entries)@) == links_put(
            links_model(old(entries)@),
            database_id@,
            texts(view_ids@),
        ),
        match links_index(old(entries)@, database_id@, 0) {
            Some(i) => final(entries)@ == old(entries)@.update(
                i,
                DatabaseLinks { database_id, view_ids },
            ),
            None => final(entries)@ == old(entries)@.push(DatabaseLinks { database_id, view_ids }),
        },
        links_index(final(entries)@, database_id@, 0) matches Some(i) && final(entries)@[i]
            == (DatabaseLinks { database_id, view_ids }),
{
    proof {
        lemma_links_model_index(entries@, database_id@, 0);
    }
    let ghost before = entries@;
    let ghost entry = DatabaseLinks { database_id, view_ids };
    let ghost put = links_put(links_model(before), database_id@, texts(view_ids@));
    match find_links(entries, &database_id) {
        Some(i) => {
            proof {
                assert(links_model(before.update(i as int, entry)) =~= put);
                lemma_links_index_update(
                    entries@,
                    database_id@,
                    0,
                    i as int,
                    DatabaseLinks { database_id, view_ids },
                );
            }
            entries.set(i, DatabaseLinks { database_id, view_ids });
        },
        None => {
            proof {
                assert(links_model(before.push(entry)) =~= put);
                lemma_links_index_push(
                    entries@,
                    database_id@,
                    0,
                    DatabaseLinks { database_id, view_ids },
                );
            }
            entries.push(DatabaseLinks { database_id, view_ids });
        },
    }
}

proof fn lemma_links_index_update(
    entries: Seq<DatabaseLinks>,
    database_id: Seq<char>,
    from: int,
    i: int,
    entry: DatabaseLinks,
)
    requires
        0 <= from,
        links_index(entries, database_id, from) == Some(i),
        entry.database_id@ == database_id,
    ensures
        from <= i < entries.len(),
        links_index(entries.update(i, entry), database_id, from) == Some(i),
    decreases entries.len() - from,
{
    if from < entries.len() && entries[from].database_id@ != database_id {
        lemma_links_index_update(entries, database_id, from + 1, i, entry);
    }
}

proof fn lemma_links_index_push(
    entries: Seq<DatabaseLinks>,
    database_id: Seq<char>,
    from: int,
    entry: DatabaseLinks,
)
    requires
        0 <= from <= entries.len(),
        links_index(entries, database_id, from) is None,
        entry.database_id@ == database_id,
    ensures
        links_index(entries.push(entry), database_id, from) == Some(entries.len() as int),
    decreases entries.len() - from,
{
    if from < entries.len() {
        lemma_links_index_push(entries, database_id, from + 1, entry);
    }
}

/// The folder views of the siblings depend on the identifiers of the
/// siblings alone: the identifier at the position of the duplicated view
/// does not count.
pub proof fn lemma_sibling_ids(
    siblings: Seq<FolderView>,
    views: Seq<DatabaseView>,
    ids: Seq<String>,
    other_ids: Seq<String>,
    old_view_id: Seq<char>,
    new_view_id: Seq<char>,
    infos: Seq<PublishViewInfo>,
    ts_now: i64,
    uid: i64,
)
    requires
        are_sibling_views(siblings, views, ids, old_view_id, new_view_id, infos, ts_now, uid),
        other_ids.len() == views.len(),
        forall|i: int|
            0 <= i < views.len() && views[i].id@ != old_view_id ==> other_ids[i] == ids[i],
    ensures
        are_sibling_views(siblings, views, other_ids, old_view_id, new_view_id, infos, ts_now, uid),
    decreases views.len(),
{
    if views.len() > 0 && ids.len() == views.len() {
        if views.last().id@ == old_view_id {
            lemma_sibling_ids(
                siblings,
                views.drop_last(),
                ids.drop_last(),
                other_ids.drop_last(),
                old_view_id,
                new_view_id,
                infos,
                ts_now,
                uid,
            );
        } else {
            lemma_sibling_ids(
                siblings.drop_last(),
                views.drop_last(),
                ids.drop_last(),
                other_ids.drop_last(),
                old_view_id,
                new_view_id,
                infos,
                ts_now,
                uid,
            );
        }
    }
}

/// The positions, among the kept views, of those other than the
/// duplicated one, in their order.
pub open spec fn sibling_positions(views: Seq<DatabaseView>, old_view_id: Seq<char>) -> Seq<int>
    decreases views.len(),
{
    if views.len() == 0 {
        Seq::empty()
    } else if views.last().id@ == old_view_id {
        sibling_positions(views.drop_last(), old_view_id)
    } else {
        sibling_positions(views.drop_last(), old_view_id).push(views.len() - 1)
    }
}

/// The folder views of the siblings stand in the order of the kept views
/// they belong to, each under the identifier at its view's position.
pub proof fn lemma_sibling_positions(
    siblings: Seq<FolderView>,
    views: Seq<DatabaseView>,
    ids: Seq<String>,
    old_view_id: Seq<char>,
    new_view_id: Seq<char>,
    infos: Seq<PublishViewInfo>,
    ts_now: i64,
    uid: i64,
)
    requires
        are_sibling_views(siblings, views, ids, old_view_id, new_view_id, infos, ts_now, uid),
    ensures
        ids.len() == views.len(),
        siblings.len() == sibling_positions(views, old_view_id).len(),
        forall|k: int|
            0 <= k < siblings.len() ==> 0 <= #[trigger] sibling_positions(views, old_view_id)[k]
                < views.len() && siblings[k].id == ids[sibling_positions(views, old_view_id)[k]],
        forall|k: int, l: int|
            0 <= k < l < siblings.len() ==> #[trigger] sibling_positions(views, old_view_id)[k]
                < #[trigger] sibling_positions(views, old_view_id)[l],
        forall|k: int|
            0 <= k < siblings.len() ==> (#[trigger] siblings[k]).parent_view_id@ == new_view_id
                && siblings[k].children@.len() == 0 && is_stamped(siblings[k], ts_now, uid),
    decreases views.len(),
{
    if views.len() > 0 && ids.len() == views.len() {
        if views.last().id@ == old_view_id {
            lemma_sibling_positions(
                siblings,
                views.drop_last(),
                ids.drop_last(),
                old_view_id,
                new_view_id,
                infos,
                ts_now,
                uid,
            );
        } else {
            lemma_sibling_positions(
                siblings.drop_last(),
                views.drop_last(),
                ids.drop_last(),
                old_view_id,
                new_view_id,
                infos,
                ts_now,
                uid,
            );
            assert forall|k: int| 0 <= k < siblings.len() implies (#[trigger] siblings[k]).parent_view_id@
                == new_view_id && siblings[k].children@.len() == 0 && is_stamped(
                siblings[k],
                ts_now,
                uid,
            ) by {
                if k < siblings.len() - 1 {
                    assert(siblings.drop_last()[k] == siblings[k]);
                }
            }
        }
    }
}

/// `rows` holds one copy for each of `row_ids`, in their order.
pub open spec fn are_row_copies(rows: Seq<RowCopy>, row_ids: Seq<String>) -> bool {
    &&& rows.len() == row_ids.len()
    &&& forall|i: int| 0 <= i < rows.len() ==> (#[trigger] rows[i]).old_row_id == row_ids[i]
}

/// One copy for each of `row_ids`, each under the identifier of its row:
/// the copies that stand for the rows where only the published
/// identifiers count.
pub open spec fn plain_copies(row_ids: Seq<String>) -> Seq<RowCopy> {
    Seq::new(
        row_ids.len(),
        |i: int| RowCopy { old_row_id: row_ids[i], new_row_id: row_ids[i] },
    )
}

/// Whether a row has a copy depends on the rows that were copied, not on
/// the identifiers of the copies.
pub proof fn lemma_row_target_by_rows(
    rows: Seq<RowCopy>,
    others: Seq<RowCopy>,
    row_ids: Seq<String>,
    old_row_id: Seq<char>,
)
    requires
        are_row_copies(rows, row_ids),
        are_row_copies(others, row_ids),
    ensures
        row_target(rows, old_row_id) is None <==> row_target(others, old_row_id) is None,
    decreases rows.len(),
{
    if rows.len() > 0 {
        assert(rows.last().old_row_id == others.last().old_row_id);
        lemma_row_target_by_rows(
            rows.drop_last(),
            others.drop_last(),
            row_ids.drop_last(),
            old_row_id,
        );
    }
}

/// The first row of an order without a copy depends on the rows that were
/// copied, not on the identifiers of the copies.
pub proof fn lemma_first_missing_row_by_rows(
    row_orders: Seq<String>,
    rows: Seq<RowCopy>,
    others: Seq<RowCopy>,
    row_ids: Seq<String>,
)
    requires
        are_row_copies(rows, row_ids),
        are_row_copies(others, row_ids),
    ensures
        first_missing_row(row_orders, rows) == first_missing_row(row_orders, others),
    decreases row_orders.len(),
{
    if row_orders.len() > 0 {
        lemma_row_target_by_rows(rows, others, row_ids, row_orders[0]@);
        lemma_first_missing_row_by_rows(row_orders.skip(1), rows, others, row_ids);
    }
}

/// Why the kept views cannot be renumbered depends on the rows that were
/// copied, not on the identifiers of the copies.
pub proof fn lemma_copy_failure_by_rows(
    views: Seq<DatabaseView>,
    old_view_id: Seq<char>,
    infos: Seq<PublishViewInfo>,
    rows: Seq<RowCopy>,
    others: Seq<RowCopy>,
    row_ids: Seq<String>,
)
    requires
        are_row_copies(rows, row_ids),
        are_row_copies(others, row_ids),
    ensures
        first_missing_row_in(views, rows) == first_missing_row_in(views, others),
        copy_failure(views, old_view_id, infos, rows) == copy_failure(
            views,
            old_view_id,
            infos,
            others,
        ),
    decreases views.len(),
{
    if views.len() > 0 {
        lemma_first_missing_row_by_rows(views[0].row_orders@, rows, others, row_ids);
        lemma_copy_failure_by_rows(views.skip(1), old_view_id, infos, rows, others, row_ids);
    }
}

/// Each folder view of a sibling is made from what the metadata stores
/// for its view, in the layout of its view, below the duplicated view.
pub proof fn lemma_sibling_infos(
    siblings: Seq<FolderView>,
    views: Seq<DatabaseView>,
    ids: Seq<String>,
    old_view_id: Seq<char>,
    new_view_id: Seq<char>,
    infos: Seq<PublishViewInfo>,
    ts_now: i64,
    uid: i64,
)
    requires
        are_sibling_views(siblings, views, ids, old_view_id, new_view_id, infos, ts_now, uid),
    ensures
        siblings.len() == sibling_positions(views, old_view_id).len(),
        forall|k: int|
            0 <= k < siblings.len() ==> 0 <= #[trigger] sibling_positions(views, old_view_id)[k]
                < views.len() && info_for(
                infos,
                views[sibling_positions(views, old_view_id)[k]].id@,
            ) is Some && is_view_from_info(
                siblings[k],
                siblings[k].id,
                info_for(infos, views[sibling_positions(views, old_view_id)[k]].id@).unwrap(),
                layout_of(views[sibling_positions(views, old_view_id)[k]].layout),
                ts_now,
                uid,
                new_view_id,
            ),
    decreases views.len(),
{
    if views.len() > 0 && ids.len() == views.len() {
        if views.last().id@ == old_view_id {
            lemma_sibling_infos(
                siblings,
                views.drop_last(),
                ids.drop_last(),
                old_view_id,
                new_view_id,
                infos,
                ts_now,
                uid,
            );
            assert forall|k: int| 0 <= k < siblings.len() implies 0 <= #[trigger] sibling_positions(
                views,
                old_view_id,
            )[k] < views.len() && info_for(
                infos,
                views[sibling_positions(views, old_view_id)[k]].id@,
            ) is Some && is_view_from_info(
                siblings[k],
                siblings[k].id,
                info_for(infos, views[sibling_positions(views, old_view_id)[k]].id@).unwrap(),
                layout_of(views[sibling_positions(views, old_view_id)[k]].layout),
                ts_now,
                uid,
                new_view_id,
            ) by {
                let at = sibling_positions(views.drop_last(), old_view_id)[k];
                assert(views.drop_last()[at] == views[at]);
            }
        } else {
            lemma_sibling_infos(
                siblings.drop_last(),
                views.drop_last(),
                ids.drop_last(),
                old_view_id,
                new_view_id,
                infos,
                ts_now,
                uid,
            );
            assert forall|k: int| 0 <= k < siblings.len() implies 0 <= #[trigger] sibling_positions(
                views,
                old_view_id,
            )[k] < views.len() && info_for(
                infos,
                views[sibling_positions(views, old_view_id)[k]].id@,
            ) is Some && is_view_from_info(
                siblings[k],
                siblings[k].id,
                info_for(infos, views[sibling_positions(views, old_view_id)[k]].id@).unwrap(),
                layout_of(views[sibling_positions(views, old_view_id)[k]].layout),
                ts_now,
                uid,
                new_view_id,
            ) by {
                if k < siblings.len() - 1 {
                    let at = sibling_positions(views.drop_last(), old_view_id)[k];
                    assert(siblings.drop_last()[k] == siblings[k]);
                    assert(views.drop_last()[at] == views[at]);
                }
            }
        }
    }
}

} // verus!
