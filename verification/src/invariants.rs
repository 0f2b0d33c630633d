//! What holds of a run while it copies: that every reference has its
//! collab, that the views hang together and each is what its kind says,
//! and that every document and every database is the copy of the
//! published one it was made from.

use crate::database::{
    are_row_copies, copy_failure, is_view_copy, main_layout, sibling_positions, DatabaseView,
    ViewCopy,
};
use crate::database_copy::{copy_ids, is_row_collab};
use crate::document::{
    all_known, blocks_mentions, is_database_block, lemma_children_stable,
    lemma_rewrite_blocks_stable, mention_children, rewrite_blocks, rewrite_document, BlockModel,
};
use crate::folder::{
    all_infos, info_for, is_view_for_info, is_view_from_info, layout_of, FolderView, ViewIdentifier,
    ViewLayout,
};
use crate::ids::{refs_extend, texts};
use crate::json::{key_index, JsonTree};
use crate::keys::document_keyed;
use crate::outcome::{kept_views, Hung};
use crate::plan::NewCollab;
use crate::sequences::is_prefix;
use crate::store::{CollabType, FetchRequest, PublishedStore};
use vstd::prelude::*;

verus! {

/// The identifiers of a view's children, in their order.
pub open spec fn child_ids(children: Seq<ViewIdentifier>) -> Seq<Seq<char>> {
    children.map_values(|c: ViewIdentifier| c.id@)
}

/// Among the collabs to insert there is one under the identifier `id`.
pub open spec fn has_collab(collabs: Seq<NewCollab>, id: Seq<char>) -> bool {
    exists|i: int| 0 <= i < collabs.len() && (#[trigger] collabs[i]).object_id()@ == id
}

/// Among the collabs to insert there is the document made from the
/// published page `page`, under the identifier `id`.
pub open spec fn has_document(collabs: Seq<NewCollab>, page: Seq<char>, id: Seq<char>) -> bool {
    exists|i: int|
        0 <= i < collabs.len() && (#[trigger] collabs[i]) is Document
            && collabs[i]->Document_object_id@ == id
            && collabs[i]->Document_published_view_id@ == page
}

/// Every page that the mapping replaces by a new identifier has, among
/// the collabs to insert, the document made from it under that
/// identifier; but for the pages in `pending`, whose documents are under
/// construction.
pub open spec fn closed_except(
    refs: Map<Seq<char>, Option<Seq<char>>>,
    collabs: Seq<NewCollab>,
    pending: Set<Seq<char>>,
) -> bool {
    forall|k: Seq<char>| #[trigger]
        refs.contains_key(k) && refs[k] is Some ==> pending.contains(k) || has_document(
            collabs,
            k,
            refs[k].unwrap(),
        )
}

/// A document of a list of collabs is a document of a longer list.
pub proof fn lemma_has_document_grows(
    collabs: Seq<NewCollab>,
    more: Seq<NewCollab>,
    page: Seq<char>,
    id: Seq<char>,
)
    requires
        has_document(collabs, page, id),
        is_prefix(collabs, more),
    ensures
        has_document(more, page, id),
{
    let i = choose|i: int|
        0 <= i < collabs.len() && (#[trigger] collabs[i]) is Document
            && collabs[i]->Document_object_id@ == id
            && collabs[i]->Document_published_view_id@ == page;
    assert(more.take(collabs.len() as int)[i] == more[i]);
    assert(more[i] is Document);
}

/// More collabs and more pending pages keep the mapping closed.
pub proof fn lemma_closed_grows(
    refs: Map<Seq<char>, Option<Seq<char>>>,
    collabs: Seq<NewCollab>,
    more: Seq<NewCollab>,
    pending: Set<Seq<char>>,
    more_pending: Set<Seq<char>>,
)
    requires
        closed_except(refs, collabs, pending),
        is_prefix(collabs, more),
        pending.subset_of(more_pending),
    ensures
        closed_except(refs, more, more_pending),
{
    assert forall|k: Seq<char>| #[trigger] refs.contains_key(k) && refs[k] is Some implies more_pending.contains(
        k,
    ) || has_document(more, k, refs[k].unwrap()) by {
        if !pending.contains(k) {
            lemma_has_document_grows(collabs, more, k, refs[k].unwrap());
        }
    }
}

/// Among the views there is one under the identifier `id`.
pub open spec fn has_view(views: Seq<FolderView>, id: Seq<char>) -> bool {
    exists|i: int| 0 <= i < views.len() && (#[trigger] views[i]).id@ == id
}

/// The mapping gives `id` as the new identifier of some old one.
pub open spec fn is_new_id(refs: Map<Seq<char>, Option<Seq<char>>>, id: Seq<char>) -> bool {
    exists|k: Seq<char>| #[trigger] refs.contains_key(k) && refs[k] == Some(id)
}

/// Every child of the view is the copy of a page: the mapping gives it as
/// a new identifier.
pub open spec fn children_known(view: FolderView, refs: Map<Seq<char>, Option<Seq<char>>>) -> bool {
    forall|c: int|
        0 <= c < view.children@.len() ==> is_new_id(refs, (#[trigger] view.children@[c]).id@)
}

/// The views to add hang together, but for the views in `floating`, which
/// are made and not yet added: the parent of every view to add is a view
/// to add or floating; every new identifier of the mapping is that of a
/// view to add or floating; and every child of a view to add is the copy
/// of a page.
pub open spec fn tree_holds(
    views: Seq<FolderView>,
    refs: Map<Seq<char>, Option<Seq<char>>>,
    floating: Set<Seq<char>>,
) -> bool {
    &&& forall|i: int|
        0 <= i < views.len() ==> floating.contains((#[trigger] views[i]).parent_view_id@)
            || has_view(views, views[i].parent_view_id@)
    &&& forall|k: Seq<char>| #[trigger]
        refs.contains_key(k) && refs[k] is Some ==> floating.contains(refs[k].unwrap())
            || has_view(views, refs[k].unwrap())
    &&& forall|i: int| 0 <= i < views.len() ==> children_known(#[trigger] views[i], refs)
}

/// A view of a longer list of views is found in it.
pub proof fn lemma_has_view_grows(views: Seq<FolderView>, more: Seq<FolderView>, id: Seq<char>)
    requires
        has_view(views, id),
        is_prefix(views, more),
    ensures
        has_view(more, id),
{
    let i = choose|i: int| 0 <= i < views.len() && (#[trigger] views[i]).id@ == id;
}

/// A mapping that says more knows the children that the other knows.
pub proof fn lemma_children_known_grows(
    view: FolderView,
    refs: Map<Seq<char>, Option<Seq<char>>>,
    later: Map<Seq<char>, Option<Seq<char>>>,
)
    requires
        children_known(view, refs),
        refs_extend(refs, later),
    ensures
        children_known(view, later),
{
}

/// The views hang together still when more views float and the mapping
/// says more of identifiers that float.
pub proof fn lemma_tree_extends(
    views: Seq<FolderView>,
    refs: Map<Seq<char>, Option<Seq<char>>>,
    later: Map<Seq<char>, Option<Seq<char>>>,
    floating: Set<Seq<char>>,
    more_floating: Set<Seq<char>>,
)
    requires
        tree_holds(views, refs, floating),
        floating.subset_of(more_floating),
        refs_extend(refs, later),
        forall|k: Seq<char>| #[trigger]
            later.contains_key(k) && later[k] is Some && !refs.contains_key(k)
                ==> more_floating.contains(later[k].unwrap()),
    ensures
        tree_holds(views, later, more_floating),
{
}

/// The views hang together still when views are added that hang on what
/// floats or on one another, and whose children are copies of pages.
/// What was added need not float any longer.
pub proof fn lemma_tree_grows(
    views: Seq<FolderView>,
    more: Seq<FolderView>,
    refs: Map<Seq<char>, Option<Seq<char>>>,
    floating: Set<Seq<char>>,
    fewer_floating: Set<Seq<char>>,
)
    requires
        tree_holds(views, refs, floating),
        is_prefix(views, more),
        forall|id: Seq<char>| #[trigger]
            floating.contains(id) ==> fewer_floating.contains(id) || has_view(more, id),
        forall|i: int|
            views.len() <= i < more.len() ==> (fewer_floating.contains(
                (#[trigger] more[i]).parent_view_id@,
            ) || has_view(more, more[i].parent_view_id@)) && children_known(more[i], refs),
    ensures
        tree_holds(more, refs, fewer_floating),
{
    assert forall|i: int| 0 <= i < more.len() implies fewer_floating.contains(
        (#[trigger] more[i]).parent_view_id@,
    ) || has_view(more, more[i].parent_view_id@) by {
        if i < views.len() {
            assert(more.take(views.len() as int)[i] == more[i]);
            let parent = views[i].parent_view_id@;
            if has_view(views, parent) {
                lemma_has_view_grows(views, more, parent);
            } else {
                assert(floating.contains(parent));
            }
        }
    }
    assert forall|i: int| 0 <= i < more.len() implies children_known(#[trigger] more[i], refs) by {
        if i < views.len() {
            assert(more.take(views.len() as int)[i] == more[i]);
        }
    }
}

/// The record of the publish store has no answer for the request.
pub open spec fn store_lacks(store: PublishedStore, request: FetchRequest) -> bool {
    match request.collab_type {
        CollabType::Document => store.document_answer(request.view_id@) is None,
        CollabType::Database => store.database_answer(request.view_id@) is None,
        _ => false,
    }
}

/// The view that a block shows: the string under `view_id` in its data.
pub open spec fn embedded_view(block: BlockModel) -> Option<Seq<char>> {
    match key_index(block.data, "view_id"@, 0) {
        Some(i) => match block.data[i].1 {
            JsonTree::Text(view_id) => Some(view_id),
            _ => None,
        },
        None => None,
    }
}

/// The block shows a database whose view the record knows as published.
pub open spec fn shows_published_database(store: PublishedStore, block: BlockModel) -> bool {
    &&& is_database_block(block.ty)
    &&& embedded_view(block) matches Some(view_id)
    &&& store.database_answer(view_id) matches Some(entry)
    &&& entry.published is Some
}

/// Among the views there is one under `parent_id` below the view `below`,
/// and one under `view_id` below that one.
pub open spec fn are_block_views(
    views: Seq<FolderView>,
    view_id: Seq<char>,
    parent_id: Seq<char>,
    below: Seq<char>,
) -> bool {
    exists|p: int, q: int|
        0 <= p < views.len() && 0 <= q < views.len() && (#[trigger] views[p]).id@ == parent_id
            && views[p].parent_view_id@ == below && (#[trigger] views[q]).id@ == view_id
            && views[q].parent_view_id@ == parent_id
}

/// `after` is `before` with new strings under `view_id` and `parent_id`,
/// and nothing else changed.  The new strings name two of `views`: the
/// folder view of the copied database, which stands below the view
/// `below`, and below it the view of the block.
pub open spec fn is_relinked(
    before: BlockModel,
    after: BlockModel,
    views: Seq<FolderView>,
    below: Seq<char>,
) -> bool {
    &&& after.id == before.id
    &&& after.ty == before.ty
    &&& after.data.len() == before.data.len()
    &&& key_index(before.data, "view_id"@, 0) matches Some(at_view)
    &&& key_index(before.data, "parent_id"@, 0) matches Some(at_parent)
    &&& 0 <= at_view < before.data.len()
    &&& 0 <= at_parent < before.data.len()
    &&& after.data[at_view].0 == before.data[at_view].0
    &&& after.data[at_parent].0 == before.data[at_parent].0
    &&& after.data[at_view].1 matches JsonTree::Text(view_id)
    &&& after.data[at_parent].1 matches JsonTree::Text(parent_id)
    &&& are_block_views(views, view_id, parent_id, below)
    &&& forall|j: int|
        0 <= j < before.data.len() && j != at_view && j != at_parent ==> after.data[j]
            == before.data[j]
}

/// What the copy of embedded databases makes of a block: a block that
/// shows a published database is linked anew, any other block stays as it
/// is.
pub open spec fn block_outcome(
    store: PublishedStore,
    before: BlockModel,
    after: BlockModel,
    views: Seq<FolderView>,
    below: Seq<char>,
) -> bool {
    if shows_published_database(store, before) {
        is_relinked(before, after, views, below)
    } else {
        after == before
    }
}

/// More views leave a block's outcome as it is.
pub proof fn lemma_block_outcome_grows(
    store: PublishedStore,
    before: BlockModel,
    after: BlockModel,
    views: Seq<FolderView>,
    more: Seq<FolderView>,
    below: Seq<char>,
)
    requires
        block_outcome(store, before, after, views, below),
        is_prefix(views, more),
    ensures
        block_outcome(store, before, after, more, below),
{
}

/// Where `collab` is a document, it is the copy of a published document
/// as the mapping `refs` has it: the mapping replaces the published view
/// by the collab's identifier and knows every page that the document
/// mentions; the blocks are those of the published document with the
/// mentions rewritten by `refs`, and with the blocks that show a
/// published database linked anew to two of `views`; the text map is the
/// published one rewritten by a mapping of which `refs` says no less.
/// Where the published document holds each block and each key once, so
/// does the copy.
pub open spec fn is_document_copy(
    collab: NewCollab,
    store: PublishedStore,
    refs: Map<Seq<char>, Option<Seq<char>>>,
    views: Seq<FolderView>,
) -> bool {
    collab matches NewCollab::Document { object_id, published_view_id, data } ==> {
        &&& store.document_answer(published_view_id@) matches Some(entry)
        &&& entry.published matches Some(published)
        &&& refs.contains_key(published_view_id@)
        &&& refs[published_view_id@] == Some(object_id@)
        &&& all_known(blocks_mentions(published.data@.blocks), refs)
        &&& data@.blocks.len() == published.data@.blocks.len()
        &&& forall|j: int|
            0 <= j < published.data@.blocks.len() ==> block_outcome(
                store,
                rewrite_blocks(published.data@.blocks, refs)[j],
                #[trigger] data@.blocks[j],
                views,
                object_id@,
            )
        &&& exists|then: Map<Seq<char>, Option<Seq<char>>>|
            refs_extend(then, refs) && data@.text_map == (#[trigger] rewrite_document(
                published.data@,
                then,
            )).text_map
        &&& document_keyed(published.data@) ==> document_keyed(data@)
    }
}

/// Every document among the collabs is the copy of a published document
/// as the mapping `refs` has it.
pub open spec fn documents_hold(
    collabs: Seq<NewCollab>,
    store: PublishedStore,
    refs: Map<Seq<char>, Option<Seq<char>>>,
    views: Seq<FolderView>,
) -> bool {
    forall|i: int| 0 <= i < collabs.len() ==> is_document_copy(#[trigger] collabs[i], store, refs, views)
}

/// Every collab beyond the first `from` is a row or a database.
pub open spec fn only_objects_since(collabs: Seq<NewCollab>, from: int) -> bool {
    forall|i: int| from <= i < collabs.len() ==> !((#[trigger] collabs[i]) is Document)
}

/// A document stays the copy that it is when the mapping says more and
/// views are added.
pub proof fn lemma_document_copy_grows(
    collab: NewCollab,
    store: PublishedStore,
    refs: Map<Seq<char>, Option<Seq<char>>>,
    later: Map<Seq<char>, Option<Seq<char>>>,
    views: Seq<FolderView>,
    more: Seq<FolderView>,
)
    requires
        is_document_copy(collab, store, refs, views),
        refs_extend(refs, later),
        is_prefix(views, more),
    ensures
        is_document_copy(collab, store, later, more),
{
    match collab {
        NewCollab::Document { object_id, published_view_id, data } => {
            let published = store.document_answer(published_view_id@).unwrap().published.unwrap();
            let blocks = published.data@.blocks;
            lemma_children_stable(blocks_mentions(blocks), refs, later);
            lemma_rewrite_blocks_stable(blocks, refs, later);
            assert(refs.contains_key(published_view_id@));
            assert forall|j: int| 0 <= j < blocks.len() implies block_outcome(
                store,
                rewrite_blocks(blocks, later)[j],
                #[trigger] data@.blocks[j],
                more,
                object_id@,
            ) by {
            }
            let then = choose|then: Map<Seq<char>, Option<Seq<char>>>|
                refs_extend(then, refs) && data@.text_map == (#[trigger] rewrite_document(
                    published.data@,
                    then,
                )).text_map;
            lemma_refs_extend_chain(then, refs, later);
            assert(data@.text_map == rewrite_document(published.data@, then).text_map);
        },
        _ => {},
    }
}

/// The documents stay the copies that they are when the mapping says
/// more, views are added, and rows and databases are added to the
/// collabs.
pub proof fn lemma_documents_grow(
    collabs: Seq<NewCollab>,
    more_collabs: Seq<NewCollab>,
    store: PublishedStore,
    refs: Map<Seq<char>, Option<Seq<char>>>,
    later: Map<Seq<char>, Option<Seq<char>>>,
    views: Seq<FolderView>,
    more: Seq<FolderView>,
)
    requires
        documents_hold(collabs, store, refs, views),
        is_prefix(collabs, more_collabs),
        only_objects_since(more_collabs, collabs.len() as int),
        refs_extend(refs, later),
        is_prefix(views, more),
    ensures
        documents_hold(more_collabs, store, later, more),
{
    assert forall|i: int| 0 <= i < more_collabs.len() implies is_document_copy(
        #[trigger] more_collabs[i],
        store,
        later,
        more,
    ) by {
        if i < collabs.len() {
            assert(more_collabs.take(collabs.len() as int)[i] == more_collabs[i]);
            assert(is_document_copy(collabs[i], store, refs, views));
            lemma_document_copy_grows(collabs[i], store, refs, later, views, more);
        }
    }
}

/// A mapping says no less than itself.
pub proof fn lemma_refs_extend_same(refs: Map<Seq<char>, Option<Seq<char>>>)
    ensures
        refs_extend(refs, refs),
{
}

/// The identifiers of a list of children grow with the list.
pub proof fn lemma_child_ids_push(children: Seq<ViewIdentifier>, child: ViewIdentifier)
    ensures
        child_ids(children.push(child)) == child_ids(children).push(child.id@),
{
}

/// One more entry in the mapping, for a page that is pending, keeps the
/// mapping closed.
pub proof fn lemma_closed_insert(
    refs: Map<Seq<char>, Option<Seq<char>>>,
    collabs: Seq<NewCollab>,
    pending: Set<Seq<char>>,
    key: Seq<char>,
    value: Option<Seq<char>>,
)
    requires
        closed_except(refs, collabs, pending),
    ensures
        value is Some ==> closed_except(refs.insert(key, value), collabs, pending.insert(key)),
        value is None ==> closed_except(refs.insert(key, value), collabs, pending),
{
    let later = refs.insert(key, value);
    assert forall|k: Seq<char>| #[trigger] later.contains_key(k) && later[k] is Some implies pending.insert(
        key,
    ).contains(k) || has_document(collabs, k, later[k].unwrap()) by {
        if k != key {
            assert(refs.contains_key(k));
        }
    }
    if value is None {
        assert forall|k: Seq<char>| #[trigger] later.contains_key(k) && later[k] is Some implies pending.contains(
            k,
        ) || has_document(collabs, k, later[k].unwrap()) by {
            if k != key {
                assert(refs.contains_key(k));
            }
        }
    }
}

/// Once the document of a pending page is among the collabs to insert,
/// the page need not be pending.
pub proof fn lemma_closed_inserted(
    refs: Map<Seq<char>, Option<Seq<char>>>,
    collabs: Seq<NewCollab>,
    pending: Set<Seq<char>>,
    collab: NewCollab,
)
    requires
        collab is Document,
        closed_except(refs, collabs, pending.insert(collab->Document_published_view_id@)),
        refs.contains_key(collab->Document_published_view_id@),
        refs[collab->Document_published_view_id@] == Some(collab->Document_object_id@),
    ensures
        closed_except(refs, collabs.push(collab), pending),
{
    let more = collabs.push(collab);
    let page = collab->Document_published_view_id@;
    assert forall|k: Seq<char>| #[trigger] refs.contains_key(k) && refs[k] is Some implies pending.contains(
        k,
    ) || has_document(more, k, refs[k].unwrap()) by {
        if !pending.contains(k) {
            if k == page {
                assert(more[collabs.len() as int] == collab);
            } else {
                lemma_prefix_push_local(collabs, collab);
                lemma_has_document_grows(collabs, more, k, refs[k].unwrap());
            }
        }
    }
}

/// A sequence is a prefix of itself with one more item.
proof fn lemma_prefix_push_local(collabs: Seq<NewCollab>, collab: NewCollab)
    ensures
        is_prefix(collabs, collabs.push(collab)),
{
    assert(collabs.push(collab).take(collabs.len() as int) =~= collabs);
}

/// A mapping that says more than one that says more says more.
pub proof fn lemma_refs_extend_chain(
    first: Map<Seq<char>, Option<Seq<char>>>,
    second: Map<Seq<char>, Option<Seq<char>>>,
    third: Map<Seq<char>, Option<Seq<char>>>,
)
    requires
        refs_extend(first, second),
        refs_extend(second, third),
    ensures
        refs_extend(first, third),
{
}

/// The view at the position `i` is what its kind says.
///
/// The view of a page goes by the new identifier of the page, stands
/// below the view of the page that mentions it, is made from the page's
/// metadata as a document, and names as children the copies of the pages
/// that the page mentions.  The folder view of a database that a block
/// shows stands below the view of the block's page and is made from the
/// database's metadata, in the layout of the view that the block shows.
/// The view of the block follows it, stands below it, and is made from
/// the same metadata in the layout that the metadata names.  The folder
/// view of a sibling is made from what the metadata stores for the
/// sibling, in the sibling's layout; where a block shows the database,
/// it stands below the folder view of the database, which comes `ahead`
/// places later.
pub open spec fn is_hung(
    views: Seq<FolderView>,
    kinds: Seq<Hung>,
    i: int,
    store: PublishedStore,
    refs: Map<Seq<char>, Option<Seq<char>>>,
    ts_now: i64,
    uid: i64,
) -> bool {
    let view = views[i];
    match kinds[i] {
        Hung::Page { page, below } => {
            &&& store.document_answer(page) matches Some(entry)
            &&& entry.published matches Some(published)
            &&& refs.contains_key(page)
            &&& refs[page] == Some(view.id@)
            &&& refs.contains_key(below)
            &&& refs[below] == Some(view.parent_view_id@)
            &&& is_view_for_info(
                view,
                view.id,
                published.metadata.view,
                ViewLayout::Document,
                ts_now,
                uid,
                view.parent_view_id@,
            )
            &&& all_known(blocks_mentions(published.data@.blocks), refs)
            &&& child_ids(view.children@) == mention_children(
                blocks_mentions(published.data@.blocks),
                refs,
            )
        },
        Hung::Folder { view: shown, below } => {
            &&& store.database_answer(shown) matches Some(entry)
            &&& entry.published matches Some(published)
            &&& refs.contains_key(below)
            &&& refs[below] == Some(view.parent_view_id@)
            &&& main_layout(kept_views(published, shown), shown) is Some
            &&& is_view_from_info(
                view,
                view.id,
                published.metadata.view,
                layout_of(main_layout(kept_views(published, shown), shown).unwrap()),
                ts_now,
                uid,
                view.parent_view_id@,
            )
        },
        Hung::Block { view: shown } => {
            &&& i > 0
            &&& kinds[i - 1] matches Hung::Folder { view: of, .. }
            &&& of == shown
            &&& store.database_answer(shown) matches Some(entry)
            &&& entry.published matches Some(published)
            &&& is_view_from_info(
                view,
                view.id,
                published.metadata.view,
                published.metadata.view.layout,
                ts_now,
                uid,
                views[i - 1].id@,
            )
        },
        Hung::Sibling { view: shown, sibling, layout, ahead } => {
            &&& store.database_answer(shown) matches Some(entry)
            &&& entry.published matches Some(published)
            &&& info_for(all_infos(published.metadata), sibling) matches Some(info)
            &&& is_view_from_info(
                view,
                view.id,
                info,
                layout_of(layout),
                ts_now,
                uid,
                view.parent_view_id@,
            )
            &&& ahead >= 0
            &&& ahead > 0 ==> i + ahead < views.len() && views[i + ahead].id@
                == view.parent_view_id@
        },
    }
}

/// Every view to add is what its kind says.
pub open spec fn views_hold(
    views: Seq<FolderView>,
    kinds: Seq<Hung>,
    store: PublishedStore,
    refs: Map<Seq<char>, Option<Seq<char>>>,
    ts_now: i64,
    uid: i64,
) -> bool {
    &&& kinds.len() == views.len()
    &&& forall|i: int|
        0 <= i < views.len() ==> #[trigger] is_hung(views, kinds, i, store, refs, ts_now, uid)
}

/// The views stay what their kinds say when the mapping says more and
/// views are added that are what their kinds say.
pub proof fn lemma_views_grow(
    views: Seq<FolderView>,
    more: Seq<FolderView>,
    kinds: Seq<Hung>,
    more_kinds: Seq<Hung>,
    store: PublishedStore,
    refs: Map<Seq<char>, Option<Seq<char>>>,
    later: Map<Seq<char>, Option<Seq<char>>>,
    ts_now: i64,
    uid: i64,
)
    requires
        views_hold(views, kinds, store, refs, ts_now, uid),
        is_prefix(views, more),
        is_prefix(kinds, more_kinds),
        more_kinds.len() == more.len(),
        refs_extend(refs, later),
        forall|i: int|
            views.len() <= i < more.len() ==> #[trigger] is_hung(
                more,
                more_kinds,
                i,
                store,
                later,
                ts_now,
                uid,
            ),
    ensures
        views_hold(more, more_kinds, store, later, ts_now, uid),
{
    assert forall|i: int| 0 <= i < more.len() implies #[trigger] is_hung(
        more,
        more_kinds,
        i,
        store,
        later,
        ts_now,
        uid,
    ) by {
        if i < views.len() {
            assert(is_hung(views, kinds, i, store, refs, ts_now, uid));
            assert(more.take(views.len() as int)[i] == more[i]);
            assert(more_kinds.take(kinds.len() as int)[i] == more_kinds[i]);
            match kinds[i] {
                Hung::Page { page, below } => {
                    let published = store.document_answer(page).unwrap().published.unwrap();
                    lemma_children_stable(blocks_mentions(published.data@.blocks), refs, later);
                    assert(refs.contains_key(page) && refs.contains_key(below));
                },
                Hung::Folder { view: shown, below } => {
                    assert(refs.contains_key(below));
                },
                Hung::Block { view: shown } => {
                    assert(more.take(views.len() as int)[i - 1] == more[i - 1]);
                    assert(more_kinds.take(kinds.len() as int)[i - 1] == more_kinds[i - 1]);
                },
                Hung::Sibling { view: shown, sibling, layout, ahead } => {
                    if ahead > 0 {
                        assert(more.take(views.len() as int)[i + ahead] == more[i + ahead]);
                    }
                },
            }
        }
    }
}

/// The view at `j` is the one by which a block shows the copy of the
/// database of the published view `shown`, of which `kept` are the kept
/// views and `copies` their copies: it goes by `block_view` and stands
/// right after the folder view of the copy, by whose identifier the copy
/// of the view `shown` goes.  Right before these two stand the folder
/// views of the siblings, each under the identifier by which the copy of
/// its view goes.
pub open spec fn is_block_link(
    copies: Seq<ViewCopy>,
    kept: Seq<DatabaseView>,
    shown: Seq<char>,
    block_view: Seq<char>,
    views: Seq<FolderView>,
    kinds: Seq<Hung>,
    j: int,
) -> bool {
    let positions = sibling_positions(kept, shown);
    &&& 0 < j < views.len()
    &&& j < kinds.len()
    &&& kinds[j] == (Hung::Block { view: shown })
    &&& views[j].id@ == block_view
    &&& forall|k: int|
        0 <= k < copies.len() && (#[trigger] copies[k]).old_view_id@ == shown ==> copies[k].view.id@
            == views[j - 1].id@
    &&& positions.len() < j
    &&& forall|k: int|
        0 <= k < positions.len() ==> 0 <= #[trigger] positions[k] < copies.len() && views[j - 1
            - positions.len() + k].id@ == copies[positions[k]].view.id@
}

/// The collab at `i`, where it is a database, is the copy of the database
/// that the record holds for its published view.  The collabs right
/// before it insert the published rows, one each and in their order,
/// under the new identifiers that the database keeps for them; the
/// database holds the kept views, each under the new database and with
/// every row replaced by its copy.  It is linked to the views of the copy
/// and, where a block shows it, to the view of the block after them; the
/// view of the block stands among `views` right after the folder view of
/// the copy.
pub open spec fn is_database_copy(
    collabs: Seq<NewCollab>,
    i: int,
    store: PublishedStore,
    views: Seq<FolderView>,
    kinds: Seq<Hung>,
) -> bool {
    collabs[i] matches NewCollab::Database {
        object_id,
        published_view_id,
        rows,
        views: copies,
        linked_views,
    } ==> {
        &&& store.database_answer(published_view_id@) matches Some(entry)
        &&& entry.published matches Some(published)
        &&& {
            let row_ids = published.database.row_ids@;
            let kept = kept_views(published, published_view_id@);
            &&& row_ids.len() <= i
            &&& are_row_copies(rows@, row_ids)
            &&& forall|k: int|
                0 <= k < row_ids.len() ==> is_row_collab(
                    collabs[i - row_ids.len() + k],
                    #[trigger] rows@[k],
                    published_view_id,
                    object_id,
                )
            &&& copy_failure(kept, published_view_id@, all_infos(published.metadata), rows@) is None
            &&& copies@.len() == kept.len()
            &&& forall|k: int|
                0 <= k < kept.len() ==> is_view_copy(
                    #[trigger] copies@[k],
                    kept[k],
                    copies@[k].view.id,
                    published_view_id@,
                    copies@[k].view.id,
                    object_id,
                    rows@,
                )
            &&& is_prefix(texts(copy_ids(copies@)), texts(linked_views@))
            &&& linked_views@.len() <= copies@.len() + 1
            &&& linked_views@.len() == copies@.len() + 1 ==> exists|j: int| #[trigger]
                is_block_link(
                    copies@,
                    kept,
                    published_view_id@,
                    linked_views@.last()@,
                    views,
                    kinds,
                    j,
                )
        }
    }
}

/// Every database among the collabs is the copy of a published database.
pub open spec fn databases_hold(
    collabs: Seq<NewCollab>,
    store: PublishedStore,
    views: Seq<FolderView>,
    kinds: Seq<Hung>,
) -> bool {
    forall|i: int|
        0 <= i < collabs.len() ==> #[trigger] is_database_copy(collabs, i, store, views, kinds)
}

/// The databases stay the copies that they are when collabs and views
/// are added, where each database added is the copy of a published one.
pub proof fn lemma_databases_grow(
    collabs: Seq<NewCollab>,
    more_collabs: Seq<NewCollab>,
    views: Seq<FolderView>,
    more: Seq<FolderView>,
    kinds: Seq<Hung>,
    more_kinds: Seq<Hung>,
    store: PublishedStore,
)
    requires
        databases_hold(collabs, store, views, kinds),
        is_prefix(collabs, more_collabs),
        is_prefix(views, more),
        is_prefix(kinds, more_kinds),
        forall|i: int|
            collabs.len() <= i < more_collabs.len() ==> #[trigger] is_database_copy(
                more_collabs,
                i,
                store,
                more,
                more_kinds,
            ),
    ensures
        databases_hold(more_collabs, store, more, more_kinds),
{
    assert forall|i: int| 0 <= i < more_collabs.len() implies #[trigger] is_database_copy(
        more_collabs,
        i,
        store,
        more,
        more_kinds,
    ) by {
        if i < collabs.len() {
            assert(is_database_copy(collabs, i, store, views, kinds));
            assert(more_collabs.take(collabs.len() as int)[i] == more_collabs[i]);
            match collabs[i] {
                NewCollab::Database {
                    object_id,
                    published_view_id,
                    rows,
                    views: copies,
                    linked_views,
                } => {
                    let published = store.database_answer(published_view_id@).unwrap().published.unwrap();
                    let row_ids = published.database.row_ids@;
                    let kept = kept_views(published, published_view_id@);
                    let positions = sibling_positions(kept, published_view_id@);
                    assert forall|k: int| 0 <= k < row_ids.len() implies is_row_collab(
                        more_collabs[i - row_ids.len() + k],
                        #[trigger] rows@[k],
                        published_view_id,
                        object_id,
                    ) by {
                        assert(more_collabs.take(collabs.len() as int)[i - row_ids.len() + k]
                            == more_collabs[i - row_ids.len() + k]);
                    }
                    if linked_views@.len() == copies@.len() + 1 {
                        let j = choose|j: int| #[trigger]
                            is_block_link(
                                copies@,
                                kept,
                                published_view_id@,
                                linked_views@.last()@,
                                views,
                                kinds,
                                j,
                            );
                        assert(more.take(views.len() as int)[j] == more[j]);
                        assert(more.take(views.len() as int)[j - 1] == more[j - 1]);
                        assert(more_kinds.take(kinds.len() as int)[j] == more_kinds[j]);
                        assert forall|k: int| 0 <= k < positions.len() implies 0
                            <= #[trigger] positions[k] < copies@.len() && more[j - 1 - positions.len()
                            + k].id@ == copies@[positions[k]].view.id@ by {
                            assert(more.take(views.len() as int)[j - 1 - positions.len() + k]
                                == more[j - 1 - positions.len() + k]);
                        }
                        assert(is_block_link(
                            copies@,
                            kept,
                            published_view_id@,
                            linked_views@.last()@,
                            more,
                            more_kinds,
                            j,
                        ));
                    }
                },
                _ => {},
            }
        }
    }
}

} // verus!
