//! What holds of every duplication, stated over the models that the
//! contracts of the run use, and proved from them.

use crate::database::{
    distinct_links, first_missing_row, first_missing_row_in, is_view_copy, lemma_links_put_distinct,
    links_model, mapped_rows, retained_views, row_target, DatabaseView, RowCopy,
};
use crate::database_copy::{database_copied, is_row_collab};
use crate::document::{
    blocks_mentions, mention_children, mention_target, page_id_path, rewrite_entry, rewrite_items,
    BlockModel,
};
use crate::duplicator::PublishCollabDuplicator;
use crate::folder::FolderView;
use crate::ids::{texts, uuid_parse_result};
use crate::invariants::{
    closed_except, has_collab, has_document, has_view, shows_published_database,
};
use crate::json::{
    key_index, lemma_key_index, lemma_key_index_same_keys, tree_get, tree_put, JsonTree,
};
use crate::outcome::{
    blocks_hung, blocks_made, made_of, made_since, mentions_hung, mentions_made, visit, visit_hung,
    visit_made, Hung, Made, Stop,
};
use crate::plan::{links_of, Duplication, NewCollab};
use crate::store::{PublishedDatabaseView, PublishedStore};
use vstd::prelude::*;

verus! {

/// No identifier was drawn twice.
pub open spec fn draws_differ(drawn: Seq<Seq<char>>) -> bool {
    forall|i: int, j: int| 0 <= i < j < drawn.len() ==> #[trigger] drawn[i] != #[trigger] drawn[j]
}

/// The new identifiers of a plan: those of its collabs, of its views to
/// add, and of its root view.
pub open spec fn new_ids(plan: Duplication) -> Set<Seq<char>> {
    Set::new(
        |id: Seq<char>|
            has_collab(plan.run.collabs@, id) || has_view(plan.run.views_to_add@, id)
                || plan.root_view.id@ == id,
    )
}

/// Where no identifier was drawn twice, the new identifiers of a plan
/// differ from one another: no two collabs share one, no two views share
/// one, and a row or a database shares none with a view.  (A document
/// goes by the identifier of its view.)
pub proof fn law_new_ids_differ(plan: Duplication)
    requires
        plan.wf(),
        draws_differ(plan.run.ids.drawn()),
    ensures
        forall|i: int, j: int|
            0 <= i < j < plan.run.collabs@.len() ==> (#[trigger] plan.run.collabs@[i]).object_id()@
                != (#[trigger] plan.run.collabs@[j]).object_id()@,
        forall|i: int, j: int|
            0 <= i < j < plan.run.views_to_add@.len() ==> (#[trigger] plan.run.views_to_add@[i]).id@
                != (#[trigger] plan.run.views_to_add@[j]).id@,
        forall|j: int|
            0 <= j < plan.run.views_to_add@.len() ==> (#[trigger] plan.run.views_to_add@[j]).id@
                != plan.root_view.id@,
        forall|i: int, j: int|
            0 <= i < plan.run.collabs@.len() && 0 <= j < plan.run.views_to_add@.len() && !(
            plan.run.collabs@[i] is Document) ==> (#[trigger] plan.run.collabs@[i]).object_id()@
                != (#[trigger] plan.run.views_to_add@[j]).id@,
        forall|i: int|
            0 <= i < plan.run.collabs@.len() && !(plan.run.collabs@[i] is Document) ==> (
            #[trigger] plan.run.collabs@[i]).object_id()@ != plan.root_view.id@,
{
    let run = plan.run;
    let drawn = run.ids.drawn();
    let collab_draws = run.collab_draws@;
    let view_draws = run.view_draws@;
    assert forall|i: int, j: int| 0 <= i < j < run.collabs@.len() implies (#[trigger] run.collabs@[i]).object_id()@
        != (#[trigger] run.collabs@[j]).object_id()@ by {
        lemma_draws_apart(drawn, collab_draws[i], collab_draws[j]);
    }
    assert forall|i: int, j: int| 0 <= i < j < run.views_to_add@.len() implies (#[trigger] run.views_to_add@[i]).id@
        != (#[trigger] run.views_to_add@[j]).id@ by {
        lemma_draws_apart(drawn, view_draws[i], view_draws[j]);
    }
    assert forall|j: int| 0 <= j < run.views_to_add@.len() implies (#[trigger] run.views_to_add@[j]).id@
        != plan.root_view.id@ by {
        lemma_draws_apart(drawn, view_draws[j], 0);
    }
    assert forall|i: int, j: int|
        0 <= i < run.collabs@.len() && 0 <= j < run.views_to_add@.len() && !(run.collabs@[i]
            is Document) implies (#[trigger] run.collabs@[i]).object_id()@
        != (#[trigger] run.views_to_add@[j]).id@ by {
        lemma_draws_apart(drawn, collab_draws[i], view_draws[j]);
    }
    assert forall|i: int| 0 <= i < run.collabs@.len() && !(run.collabs@[i] is Document) implies (
    #[trigger] run.collabs@[i]).object_id()@ != plan.root_view.id@ by {
        lemma_draws_apart(drawn, collab_draws[i], 0);
    }
}

/// Two draws at two positions gave two identifiers, where no identifier
/// was drawn twice.
proof fn lemma_draws_apart(drawn: Seq<Seq<char>>, first: int, second: int)
    requires
        draws_differ(drawn),
        0 <= first < drawn.len(),
        0 <= second < drawn.len(),
        first != second,
    ensures
        drawn[first] != drawn[second],
{
}

/// Every new identifier of a plan was drawn in its run.  So where no
/// draw gave an identifier that the destination already holds, no new
/// identifier collides with one of the destination.
pub proof fn law_new_ids_are_drawn(plan: Duplication, existing: Set<Seq<char>>)
    requires
        plan.wf(),
        forall|k: int|
            0 <= k < plan.run.ids.drawn().len() ==> !existing.contains(
                #[trigger] plan.run.ids.drawn()[k],
            ),
    ensures
        forall|id: Seq<char>| #[trigger] new_ids(plan).contains(id) ==> plan.run.ids.drawn().contains(id),
        new_ids(plan).disjoint(existing),
{
    let run = plan.run;
    let drawn = run.ids.drawn();
    assert forall|id: Seq<char>| #[trigger] new_ids(plan).contains(id) implies drawn.contains(id)
        && !existing.contains(id) by {
        if has_collab(run.collabs@, id) {
            let i = choose|i: int| 0 <= i < run.collabs@.len() && (#[trigger] run.collabs@[i]).object_id()@ == id;
            assert(drawn[run.collab_draws@[i]] == id);
        } else if has_view(run.views_to_add@, id) {
            let i = choose|i: int| 0 <= i < run.views_to_add@.len() && (#[trigger] run.views_to_add@[i]).id@ == id;
            assert(drawn[run.view_draws@[i]] == id);
        } else {
            assert(drawn[0] == id);
        }
    }
}

/// Two runs whose draws have no identifier in common give plans whose
/// new identifiers have none in common.
pub proof fn law_runs_are_apart(first: Duplication, second: Duplication)
    requires
        first.wf(),
        second.wf(),
        forall|i: int, j: int|
            0 <= i < first.run.ids.drawn().len() && 0 <= j < second.run.ids.drawn().len()
                ==> #[trigger] first.run.ids.drawn()[i] != #[trigger] second.run.ids.drawn()[j],
    ensures
        new_ids(first).disjoint(new_ids(second)),
{
    let drawn = second.run.ids.drawn();
    let taken = Set::new(|id: Seq<char>| drawn.contains(id));
    law_new_ids_are_drawn(first, taken);
    law_new_ids_are_drawn(second, Set::empty());
}

/// No view to add is an orphan: its parent is the root view of the
/// duplicate or one of the views to add.  Which one it is, the kinds of
/// the views say.
pub proof fn law_no_orphans(plan: Duplication, i: int)
    requires
        plan.wf(),
        0 <= i < plan.run.views_to_add@.len(),
    ensures
        plan.run.views_to_add@[i].parent_view_id@ == plan.root_view.id@ || has_view(
            plan.run.views_to_add@,
            plan.run.views_to_add@[i].parent_view_id@,
        ),
{
}

/// Every child that a view of the duplicate names is itself a view of the
/// duplicate: the root view or a view to add.
pub proof fn law_children_are_views(plan: Duplication, view: FolderView, c: int)
    requires
        plan.wf(),
        view == plan.root_view || exists|i: int|
            0 <= i < plan.run.views_to_add@.len() && #[trigger] plan.run.views_to_add@[i] == view,
        0 <= c < view.children@.len(),
    ensures
        view.children@[c].id@ == plan.root_view.id@ || has_view(
            plan.run.views_to_add@,
            view.children@[c].id@,
        ),
{
    let id = view.children@[c].id@;
    let k = choose|k: Seq<char>| #[trigger] plan.run.ids@.contains_key(k) && plan.run.ids@[k] == Some(id);
}

/// Every old identifier that is replaced by a new one has a view under
/// the new one: the root view or a view to add.
pub proof fn law_references_have_views(plan: Duplication, old_id: Seq<char>)
    requires
        plan.wf(),
        plan.run.ids@.contains_key(old_id),
        plan.run.ids@[old_id] is Some,
    ensures
        plan.run.ids@[old_id].unwrap() == plan.root_view.id@ || has_view(
            plan.run.views_to_add@,
            plan.run.ids@[old_id].unwrap(),
        ),
{
}

/// Every view of the duplicate bears one stamp: the views to add were
/// created and last edited when the root view was, and by the same user.
pub proof fn law_views_bear_one_stamp(plan: Duplication, i: int)
    requires
        plan.wf(),
        0 <= i < plan.run.views_to_add@.len(),
    ensures
        plan.run.views_to_add@[i].created_at == plan.root_view.created_at,
        plan.run.views_to_add@[i].last_edited_time == plan.root_view.created_at,
        plan.root_view.last_edited_time == plan.root_view.created_at,
        plan.run.views_to_add@[i].created_by == plan.root_view.created_by,
        plan.run.views_to_add@[i].last_edited_by == plan.root_view.created_by,
        plan.root_view.last_edited_by == plan.root_view.created_by,
{
}

/// Where the mapping is closed, a page that is replaced by a new
/// identifier has, among the collabs to insert, the document made from it
/// under that identifier.
pub proof fn law_references_are_closed(
    refs: Map<Seq<char>, Option<Seq<char>>>,
    collabs: Seq<NewCollab>,
    old_id: Seq<char>,
)
    requires
        closed_except(refs, collabs, Set::empty()),
        refs.contains_key(old_id),
        refs[old_id] is Some,
    ensures
        has_document(collabs, old_id, refs[old_id].unwrap()),
        has_collab(collabs, refs[old_id].unwrap()),
{
    let i = choose|i: int|
        0 <= i < collabs.len() && (#[trigger] collabs[i]) is Document
            && collabs[i]->Document_object_id@ == refs[old_id].unwrap()
            && collabs[i]->Document_published_view_id@ == old_id;
    assert(collabs[i].object_id()@ == refs[old_id].unwrap());
}

/// Where no identifier was drawn twice, an old identifier that is
/// replaced by a new one has exactly one collab under the new one.
pub proof fn law_one_collab_for_a_reference(plan: Duplication, old_id: Seq<char>, i: int, j: int)
    requires
        plan.wf(),
        draws_differ(plan.run.ids.drawn()),
        plan.run.ids@.contains_key(old_id),
        plan.run.ids@[old_id] is Some,
        0 <= i < plan.run.collabs@.len(),
        0 <= j < plan.run.collabs@.len(),
        plan.run.collabs@[i].object_id()@ == plan.run.ids@[old_id].unwrap(),
        plan.run.collabs@[j].object_id()@ == plan.run.ids@[old_id].unwrap(),
    ensures
        i == j,
{
    law_new_ids_differ(plan);
}

/// A value put under a key of an object is what the key gives, and what
/// any other key gives stays.
proof fn lemma_get_after_put(tree: JsonTree, key: Seq<char>, value: JsonTree, other: Seq<char>)
    requires
        tree_get(tree, key) is Some,
    ensures
        tree matches JsonTree::Object(members) && key_index(members, key, 0) matches Some(at) && 0
            <= at < members.len() && tree_get(
            JsonTree::Object(members.update(at, (members[at].0, value))),
            key,
        ) == Some(value) && (other != key ==> tree_get(
            JsonTree::Object(members.update(at, (members[at].0, value))),
            other,
        ) == tree_get(tree, other)),
{
    let members = tree->Object_0;
    let at = key_index(members, key, 0).unwrap();
    let updated = members.update(at, (members[at].0, value));
    lemma_key_index(members, key, 0);
    lemma_key_index_same_keys(members, updated, key, 0);
    lemma_key_index_same_keys(members, updated, other, 0);
    lemma_key_index(members, other, 0);
}

/// A mention of a page that has a new identifier is rewritten to a
/// mention of the new identifier.
pub proof fn law_replaced_mention_points_at_the_copy(
    entry: JsonTree,
    refs: Map<Seq<char>, Option<Seq<char>>>,
)
    requires
        mention_target(entry) matches Some(page_id) && refs.contains_key(page_id)
            && refs[page_id] is Some,
    ensures
        mention_target(rewrite_entry(entry, refs)) == refs[mention_target(entry).unwrap()],
{
    let page_id = mention_target(entry).unwrap();
    let new_id = refs[page_id].unwrap();
    let leaf = JsonTree::Text(new_id);
    let path = page_id_path();
    let attributes = tree_get(entry, "attributes"@).unwrap();
    let mention = tree_get(attributes, "mention"@).unwrap();
    reveal_strlit("type");
    reveal_strlit("page_id");
    assert("type"@ != "page_id"@) by {
        assert("type"@.len() != "page_id"@.len());
    }
    reveal_with_fuel(tree_put, 4);
    let new_mention = tree_put(mention, path.skip(1).skip(1), leaf);
    let new_attributes = tree_put(attributes, path.skip(1), leaf);
    let new_entry = tree_put(entry, path, leaf);
    lemma_get_after_put(mention, "page_id"@, leaf, "type"@);
    lemma_get_after_put(attributes, "mention"@, new_mention, "mention"@);
    lemma_get_after_put(entry, "attributes"@, new_attributes, "attributes"@);
}

/// A mention of a page that has no new identifier stays as it is: the
/// entry that holds it is not rewritten.
pub proof fn law_unreplaced_mention_is_kept(
    entry: JsonTree,
    refs: Map<Seq<char>, Option<Seq<char>>>,
)
    requires
        mention_target(entry) matches Some(page_id) ==> !refs.contains_key(page_id)
            || refs[page_id] is None,
    ensures
        rewrite_entry(entry, refs) == entry,
{
}

/// In a delta, an entry that mentions a page without a new identifier, or
/// no page, stays as it is, whatever happens to the entries around it.
pub proof fn law_unreplaced_mention_is_kept_in_delta(
    items: Seq<JsonTree>,
    refs: Map<Seq<char>, Option<Seq<char>>>,
    at: int,
)
    requires
        0 <= at < items.len(),
        mention_target(items[at]) matches Some(page_id) ==> !refs.contains_key(page_id)
            || refs[page_id] is None,
    ensures
        rewrite_items(items, refs).len() == items.len(),
        rewrite_items(items, refs)[at] == items[at],
{
}

/// A mention of a page that has no new identifier gives the view no
/// child.
pub proof fn law_unreplaced_mention_has_no_child(
    mentions: Seq<Seq<char>>,
    refs: Map<Seq<char>, Option<Seq<char>>>,
    page_id: Seq<char>,
)
    requires
        !refs.contains_key(page_id) || refs[page_id] is None,
    ensures
        mention_children(mentions.push(page_id), refs) == mention_children(mentions, refs),
{
    assert(mentions.push(page_id).drop_last() == mentions);
}

/// A mention of a page that has a new identifier gives the view that
/// identifier as its next child.
pub proof fn law_replaced_mention_has_a_child(
    mentions: Seq<Seq<char>>,
    refs: Map<Seq<char>, Option<Seq<char>>>,
    page_id: Seq<char>,
)
    requires
        refs.contains_key(page_id),
        refs[page_id] is Some,
    ensures
        mention_children(mentions.push(page_id), refs) == mention_children(mentions, refs).push(
            refs[page_id].unwrap(),
        ),
{
    assert(mentions.push(page_id).drop_last() == mentions);
}

/// Among the copies there is one made from the published row
/// `old_row_id` that goes by `new_row_id`.
pub open spec fn is_copy_of_row(rows: Seq<RowCopy>, old_row_id: Seq<char>, new_row_id: String) -> bool {
    exists|k: int|
        0 <= k < rows.len() && (#[trigger] rows[k]).old_row_id@ == old_row_id
            && rows[k].new_row_id == new_row_id
}

/// The copy that stands for a published row is one of the copies, made
/// from that row.
pub proof fn lemma_row_target(rows: Seq<RowCopy>, old_row_id: Seq<char>)
    ensures
        row_target(rows, old_row_id) matches Some(new_row_id) ==> is_copy_of_row(
            rows,
            old_row_id,
            new_row_id,
        ),
    decreases rows.len(),
{
    if rows.len() > 0 {
        if rows.last().old_row_id@ == old_row_id {
            assert(rows[rows.len() - 1].new_row_id == row_target(rows, old_row_id).unwrap());
        } else {
            lemma_row_target(rows.drop_last(), old_row_id);
            if row_target(rows, old_row_id) is Some {
                let k = choose|k: int|
                    0 <= k < rows.drop_last().len() && (#[trigger] rows.drop_last()[k]).old_row_id@
                        == old_row_id && rows.drop_last()[k].new_row_id == row_target(
                        rows,
                        old_row_id,
                    ).unwrap();
                assert(rows[k].old_row_id@ == old_row_id);
            }
        }
    }
}

/// Where every row of an order has a copy, no row of a part of the order
/// lacks one.
proof fn lemma_no_missing_row(row_orders: Seq<String>, rows: Seq<RowCopy>, at: int)
    requires
        first_missing_row(row_orders, rows) is None,
        0 <= at < row_orders.len(),
    ensures
        row_target(rows, row_orders[at]@) is Some,
    decreases row_orders.len(),
{
    if at > 0 {
        lemma_no_missing_row(row_orders.skip(1), rows, at - 1);
        assert(row_orders.skip(1)[at - 1] == row_orders[at]);
    }
}

/// The row order of a renumbered view follows the published one: it has
/// as many rows, and at each position the copy of the row that the
/// published order has there.
pub proof fn law_row_orders_follow(row_orders: Seq<String>, rows: Seq<RowCopy>)
    requires
        first_missing_row(row_orders, rows) is None,
    ensures
        mapped_rows(row_orders, rows).len() == row_orders.len(),
        forall|j: int|
            0 <= j < row_orders.len() ==> is_copy_of_row(
                rows,
                row_orders[j]@,
                #[trigger] mapped_rows(row_orders, rows)[j],
            ),
{
    assert forall|j: int| 0 <= j < row_orders.len() implies is_copy_of_row(
        rows,
        row_orders[j]@,
        #[trigger] mapped_rows(row_orders, rows)[j],
    ) by {
        lemma_no_missing_row(row_orders, rows, j);
        lemma_row_target(rows, row_orders[j]@);
    }
}

/// Where no row is missing over all views, none is missing in any one.
proof fn lemma_no_missing_row_in(views: Seq<DatabaseView>, rows: Seq<RowCopy>, at: int)
    requires
        first_missing_row_in(views, rows) is None,
        0 <= at < views.len(),
    ensures
        first_missing_row(views[at].row_orders@, rows) is None,
    decreases views.len(),
{
    if at > 0 {
        lemma_no_missing_row_in(views.skip(1), rows, at - 1);
        assert(views.skip(1)[at - 1] == views[at]);
    }
}

/// After a database is copied, every row that a view of the copy names
/// is a row of the copy, whose collab the same run has added.
pub proof fn law_row_orders_name_inserted_rows(
    after: PublishCollabDuplicator,
    view: FolderView,
    published: PublishedDatabaseView,
    published_view_id: String,
    old_view_id: Seq<char>,
    new_view_id: String,
    new_db_id: Seq<char>,
    drawn: int,
    inserted: int,
    added: int,
    parent: Seq<char>,
    block_view: Option<Seq<char>>,
    of_view: int,
    at: int,
)
    requires
        database_copied(
            after,
            view,
            published,
            published_view_id,
            old_view_id,
            new_view_id,
            new_db_id,
            drawn,
            inserted,
            added,
            parent,
            block_view,
        ),
        after.collabs@.last() matches NewCollab::Database { views, .. } && 0 <= of_view
            < views@.len() && 0 <= at < views@[of_view].view.row_orders@.len(),
    ensures
        after.collabs@.last() matches NewCollab::Database { rows, views, .. } && is_copy_of_row(
            rows@,
            published.database.views.unwrap()@[kept_position(
                published,
                old_view_id,
                of_view,
            )].row_orders@[at]@,
            views@[of_view].view.row_orders@[at],
        ) && has_row_collab(after.collabs@, views@[of_view].view.row_orders@[at]@),
{
    let kept = retained_views(
        published.database.views.unwrap()@,
        old_view_id,
        texts(published.database.visible_database_view_ids@),
    );
    match after.collabs@.last() {
        NewCollab::Database { object_id, published_view_id: source, rows, views, .. } => {
            assert(is_view_copy(
                views@[of_view],
                kept[of_view],
                views@[of_view].view.id,
                old_view_id,
                new_view_id,
                object_id,
                rows@,
            ));
            lemma_no_missing_row_in(kept, rows@, of_view);
            law_row_orders_follow(kept[of_view].row_orders@, rows@);
            let new_row_id = views@[of_view].view.row_orders@[at];
            assert(new_row_id == mapped_rows(kept[of_view].row_orders@, rows@)[at]);
            let k = choose|k: int|
                0 <= k < rows@.len() && (#[trigger] rows@[k]).old_row_id@
                    == kept[of_view].row_orders@[at]@ && rows@[k].new_row_id == new_row_id;
            assert(is_row_collab(after.collabs@[inserted + k], rows@[k], published_view_id, object_id));
            assert(after.collabs@[inserted + k] is DatabaseRow);
            lemma_kept_position(
                published.database.views.unwrap()@,
                old_view_id,
                texts(published.database.visible_database_view_ids@),
                of_view,
            );
        },
        _ => {},
    }
}

/// Among the collabs to insert there is a row under the identifier `id`.
pub open spec fn has_row_collab(collabs: Seq<NewCollab>, id: Seq<char>) -> bool {
    exists|i: int|
        0 <= i < collabs.len() && (#[trigger] collabs[i]) is DatabaseRow && collabs[i].object_id()@
            == id
}

/// The position, among the views of the published database, of the kept
/// view number `of_view`.
pub open spec fn kept_position(published: PublishedDatabaseView, old_view_id: Seq<char>, of_view: int) -> int {
    position_of_kept(
        published.database.views.unwrap()@,
        old_view_id,
        texts(published.database.visible_database_view_ids@),
        of_view,
    )
}

/// The position, among `views`, of the kept view number `of_view`.
pub open spec fn position_of_kept(
    views: Seq<DatabaseView>,
    old_view_id: Seq<char>,
    visible: Seq<Seq<char>>,
    of_view: int,
) -> int
    decreases views.len(),
{
    if views.len() == 0 {
        0
    } else if of_view < retained_views(views.drop_last(), old_view_id, visible).len() {
        position_of_kept(views.drop_last(), old_view_id, visible, of_view)
    } else {
        views.len() - 1
    }
}

/// The kept view number `of_view` is the view at its position.
pub proof fn lemma_kept_position(
    views: Seq<DatabaseView>,
    old_view_id: Seq<char>,
    visible: Seq<Seq<char>>,
    of_view: int,
)
    requires
        0 <= of_view < retained_views(views, old_view_id, visible).len(),
    ensures
        0 <= position_of_kept(views, old_view_id, visible, of_view) < views.len(),
        views[position_of_kept(views, old_view_id, visible, of_view)] == retained_views(
            views,
            old_view_id,
            visible,
        )[of_view],
    decreases views.len(),
{
    if views.len() > 0 {
        if of_view < retained_views(views.drop_last(), old_view_id, visible).len() {
            lemma_kept_position(views.drop_last(), old_view_id, visible, of_view);
        }
    }
}

/// The links that collabs call for hold no database twice.
pub proof fn lemma_links_of_distinct(collabs: Seq<NewCollab>)
    ensures
        distinct_links(links_of(collabs)),
    decreases collabs.len(),
{
    if collabs.len() > 0 {
        lemma_links_of_distinct(collabs.drop_last());
        match collabs.last() {
            NewCollab::Database { object_id, linked_views, .. } => {
                lemma_links_put_distinct(
                    links_of(collabs.drop_last()),
                    object_id@,
                    texts(linked_views@),
                );
            },
            _ => {},
        }
    }
}

/// In every state of a run the links hold one entry for a database, and
/// each entry is the one that the last collab of its database calls for.
pub proof fn law_a_database_is_linked_once(run: PublishCollabDuplicator, i: int, j: int)
    requires
        run.wf(),
        0 <= i < j < run.workspace_databases@.len(),
    ensures
        links_model(run.workspace_databases@) == links_of(run.collabs@),
        run.workspace_databases@[i].database_id@ != run.workspace_databases@[j].database_id@,
{
    lemma_links_of_distinct(run.collabs@);
    let links = links_model(run.workspace_databases@);
    assert(links[i].0 == run.workspace_databases@[i].database_id@);
    assert(links[j].0 == run.workspace_databases@[j].database_id@);
}

/// A run that inserts no database links none.
pub proof fn law_no_database_no_link(run: PublishCollabDuplicator)
    requires
        run.wf(),
        forall|i: int| 0 <= i < run.collabs@.len() ==> !((#[trigger] run.collabs@[i]) is Database),
    ensures
        run.workspace_databases@.len() == 0,
{
    lemma_no_database_no_link(run.collabs@);
    assert(links_model(run.workspace_databases@).len() == run.workspace_databases@.len());
}

/// Collabs without a database call for no link.
pub proof fn lemma_no_database_no_link(collabs: Seq<NewCollab>)
    requires
        forall|i: int| 0 <= i < collabs.len() ==> !((#[trigger] collabs[i]) is Database),
    ensures
        links_of(collabs).len() == 0,
    decreases collabs.len(),
{
    if collabs.len() > 0 {
        assert(!(collabs[collabs.len() - 1] is Database));
        assert forall|i: int| 0 <= i < collabs.drop_last().len() implies !((
        #[trigger] collabs.drop_last()[i]) is Database) by {
            assert(collabs.drop_last()[i] == collabs[i]);
        }
        lemma_no_database_no_link(collabs.drop_last());
    }
}

/// Blocks that show no published database add no collab and no view.
pub proof fn lemma_plain_blocks_add_nothing(
    store: PublishedStore,
    blocks: Seq<BlockModel>,
    from: int,
    below: Seq<char>,
)
    requires
        0 <= from,
        forall|j: int|
            0 <= j < blocks.len() ==> !shows_published_database(store, #[trigger] blocks[j]),
    ensures
        blocks_made(store, blocks, from) == Seq::<Made>::empty(),
        blocks_hung(store, blocks, from, below) == Seq::<Hung>::empty(),
    decreases blocks.len() - from,
{
    if from < blocks.len() {
        lemma_plain_blocks_add_nothing(store, blocks, from + 1, below);
        assert(!shows_published_database(store, blocks[from]));
        assert(blocks_made(store, blocks, from) =~= Seq::<Made>::empty());
        assert(blocks_hung(store, blocks, from, below) =~= Seq::<Hung>::empty());
    }
}

/// A page that is not published has no copy: nothing is inserted for it
/// and no view is added, whoever mentions it.
pub proof fn law_unpublished_page_adds_nothing(
    store: PublishedStore,
    page: Seq<char>,
    known: Map<Seq<char>, bool>,
)
    requires
        !known.contains_key(page),
        uuid_parse_result(page) is Some,
        store.document_answer(page) matches Some(entry) && entry.published is None,
    ensures
        visit(store, page, known) == Ok::<(Map<Seq<char>, bool>, bool), Stop>((known, false)),
        visit_made(store, page, known) == Seq::<Made>::empty(),
        visit_hung(store, page, known) == Seq::<Hung>::empty(),
{
}

/// A run that has copied a published page which mentions no page and
/// shows no published database inserts one collab, the document of the
/// page; it adds no view and links no database.
pub proof fn law_plain_page_is_one_document(plan: Duplication, store: PublishedStore, page: Seq<char>)
    requires
        plan.wf(),
        uuid_parse_result(page) is Some,
        store.document_answer(page) matches Some(entry) && entry.published matches Some(published)
            && blocks_mentions(published.data@.blocks).len() == 0 && forall|j: int|
            0 <= j < published.data@.blocks.len() ==> !shows_published_database(
                store,
                #[trigger] published.data@.blocks[j],
            ),
        made_since(plan.run.collabs@, 0) == visit_made(store, page, Map::empty()),
        plan.run.view_kinds@ == visit_hung(store, page, Map::empty()),
    ensures
        plan.run.collabs@.len() == 1,
        plan.run.collabs@[0] matches NewCollab::Document { published_view_id, .. }
            && published_view_id@ == page,
        plan.run.views_to_add@.len() == 0,
        plan.run.workspace_databases@.len() == 0,
{
    let published = store.document_answer(page).unwrap().published.unwrap();
    let blocks = published.data@.blocks;
    let known = Map::<Seq<char>, bool>::empty().insert(page, true);
    lemma_plain_blocks_add_nothing(store, blocks, 0, page);
    assert(mentions_made(store, blocks_mentions(blocks), 0, known) == Seq::<Made>::empty());
    assert(mentions_hung(store, blocks_mentions(blocks), 0, known, page) == Seq::<Hung>::empty());
    assert(visit_made(store, page, Map::empty()) =~= seq![Made::Document { page }]);
    assert(visit_hung(store, page, Map::empty()) =~= Seq::<Hung>::empty());
    assert(made_since(plan.run.collabs@, 0).len() == plan.run.collabs@.len());
    assert(made_since(plan.run.collabs@, 0)[0] == made_of(plan.run.collabs@[0]));
    assert forall|i: int| 0 <= i < plan.run.collabs@.len() implies !((
    #[trigger] plan.run.collabs@[i]) is Database) by {}
    law_no_database_no_link(plan.run);
}

} // verus!
