//! How a run ends, told from the record of the publish store alone: which
//! view it asks for, or why it fails, or that it is complete.  The
//! identifiers that a run draws play no part in this.

use crate::database::{retained_views, sibling_positions, DatabaseView};
use crate::database_copy::database_failure;
use crate::document::{blocks_mentions, is_database_block, rewrite_blocks, rewrite_data, BlockModel};
use crate::error::DuplicateError;
use crate::folder::DatabaseLayout;
use crate::ids::{refs_extend, texts, uuid_parse_result};
use crate::invariants::{embedded_view, shows_published_database};
use crate::json::{key_index, lemma_key_index, lemma_key_index_same_keys, JsonTree};
use crate::plan::{Interrupt, NewCollab, RunOutcome};
use crate::sequences::is_prefix;
use crate::store::{
    document_index, lemma_document_index, lemma_unresolved_drops, lemma_unresolved_shrinks,
    unresolved, CollabType, PublishedDatabaseView, PublishedStore,
};
use vstd::prelude::*;

verus! {

/// Why a run stops before it is complete.
pub enum Stop {
    /// The record has no answer for the view, read as a collab of the
    /// kind.
    Fetch { view_id: Seq<char>, collab_type: CollabType },
    /// Something is not found; the field holds the message.
    NotFound(Seq<char>),
    /// The field holds a text that is no UUID.
    Unparsed(Seq<char>),
}

/// The interrupt tells of the stop.
pub open spec fn tells(interrupt: Interrupt, stop: Stop) -> bool {
    match interrupt {
        Interrupt::Fetch(request) => stop == (Stop::Fetch {
            view_id: request.view_id@,
            collab_type: request.collab_type,
        }),
        Interrupt::Failed(DuplicateError::RecordNotFound(message)) => stop == Stop::NotFound(
            message@,
        ),
        Interrupt::Failed(DuplicateError::Parse(input)) => stop == Stop::Unparsed(input@),
        Interrupt::Failed(_) => false,
    }
}

/// The outcome of a run tells of the stop.
pub open spec fn ends_with(outcome: RunOutcome, stop: Stop) -> bool {
    match outcome {
        RunOutcome::Complete(_) => false,
        RunOutcome::Fetch(request) => tells(Interrupt::Fetch(request), stop),
        RunOutcome::Failed(e) => tells(Interrupt::Failed(e), stop),
    }
}

/// How a run of the document `publish_view_id` ends, as the record of the
/// publish store has it: complete, or with a stop.  A root that is not
/// published is not found.
pub open spec fn document_run_end(store: PublishedStore, publish_view_id: Seq<char>) -> Option<Stop> {
    match visit(store, publish_view_id, Map::empty()) {
        Ok((_, true)) => None,
        Ok((_, false)) => Some(Stop::NotFound("view not found, it might be unpublished"@)),
        Err(stop) => Some(stop),
    }
}

/// What is known of the old identifiers: whether each has a copy.
pub open spec fn known_of(refs: Map<Seq<char>, Option<Seq<char>>>) -> Map<Seq<char>, bool> {
    Map::new(|k: Seq<char>| refs.contains_key(k), |k: Seq<char>| refs[k] is Some)
}

/// Why the copy of the database that a block shows stops, if it does.  A
/// block of another kind stops nothing.  A block that shows a database
/// stops the run where it lacks `view_id` or `parent_id`, whatever the
/// record says of its view; one whose view is not published stops
/// nothing else.
pub open spec fn block_stop(store: PublishedStore, block: BlockModel) -> Option<Stop> {
    if !is_database_block(block.ty) {
        None
    } else {
        match key_index(block.data, "view_id"@, 0) {
            None => Some(Stop::NotFound("view_id not found in block data"@)),
            Some(at) => match block.data[at].1 {
                JsonTree::Text(view_id) => if key_index(block.data, "parent_id"@, 0) is None {
                    Some(Stop::NotFound("parent_id not found in block data"@))
                } else if uuid_parse_result(view_id) is None {
                    Some(Stop::Unparsed(view_id))
                } else {
                    match store.database_answer(view_id) {
                        None => Some(Stop::Fetch { view_id, collab_type: CollabType::Database }),
                        Some(entry) => match entry.published {
                            None => None,
                            Some(published) => match database_failure(published, view_id) {
                                Some(message) => Some(Stop::NotFound(message)),
                                None => None,
                            },
                        },
                    }
                },
                _ => Some(Stop::NotFound("view_id not a string"@)),
            },
        }
    }
}

/// The first stop among the blocks from the position `from` on.
pub open spec fn blocks_stop(store: PublishedStore, blocks: Seq<BlockModel>, from: int) -> Option<
    Stop,
>
    decreases blocks.len() - from,
{
    if from < 0 || from >= blocks.len() {
        None
    } else {
        match block_stop(store, blocks[from]) {
            Some(stop) => Some(stop),
            None => blocks_stop(store, blocks, from + 1),
        }
    }
}

/// The copy of the page `page`, given what is known: the stop, or what is
/// known afterwards and whether the page has a copy.
///
/// A page that is no UUID stops the run, and so does one that the record
/// has no answer for.  An unpublished page has no copy.  A published
/// page is known to have a copy from the start; then the pages it
/// mentions are copied, and then the databases its blocks show.
pub open spec fn visit(store: PublishedStore, page: Seq<char>, known: Map<Seq<char>, bool>) -> Result<
    (Map<Seq<char>, bool>, bool),
    Stop,
>
    decreases unresolved(store.documents@, known.dom()), 0nat, 0nat,
{
    if known.contains_key(page) {
        Ok((known, known[page]))
    } else if uuid_parse_result(page) is None {
        Err(Stop::Unparsed(page))
    } else {
        match store.document_answer(page) {
            None => Err(Stop::Fetch { view_id: page, collab_type: CollabType::Document }),
            Some(entry) => match entry.published {
                None => Ok((known, false)),
                Some(published) => {
                    proof {
                        lemma_document_index(store.documents@, page, 0);
                        lemma_unresolved_drops(
                            store.documents@,
                            known.dom(),
                            known.insert(page, true).dom(),
                            document_index(store.documents@, page, 0).unwrap(),
                        );
                    }
                    match visit_mentions(
                        store,
                        blocks_mentions(published.data@.blocks),
                        0,
                        known.insert(page, true),
                    ) {
                        Err(stop) => Err(stop),
                        Ok(after) => match blocks_stop(store, published.data@.blocks, 0) {
                            Some(stop) => Err(stop),
                            None => Ok((after, true)),
                        },
                    }
                },
            },
        }
    }
}

/// The copy of the pages mentioned from the position `from` on, given
/// what is known: the stop, or what is known afterwards.  A page that is
/// known already is passed over.
pub open spec fn visit_mentions(
    store: PublishedStore,
    mentions: Seq<Seq<char>>,
    from: int,
    known: Map<Seq<char>, bool>,
) -> Result<Map<Seq<char>, bool>, Stop>
    decreases unresolved(store.documents@, known.dom()), 1nat, mentions.len() - from,
{
    if from < 0 || from >= mentions.len() {
        Ok(known)
    } else if known.contains_key(mentions[from]) {
        visit_mentions(store, mentions, from + 1, known)
    } else {
        match visit(store, mentions[from], known) {
            Err(stop) => Err(stop),
            Ok((after, copied)) => {
                proof {
                    lemma_unresolved_shrinks(
                        store.documents@,
                        known.dom(),
                        known.union_prefer_right(after).insert(mentions[from], copied).dom(),
                    );
                }
                visit_mentions(
                    store,
                    mentions,
                    from + 1,
                    known.union_prefer_right(after).insert(mentions[from], copied),
                )
            },
        }
    }
}

/// The rewriting of page mentions changes nothing in what stops the copy
/// of the database that a block shows.
pub proof fn lemma_block_stop_rewritten(
    store: PublishedStore,
    block: BlockModel,
    refs: Map<Seq<char>, Option<Seq<char>>>,
)
    ensures
        block_stop(
            store,
            BlockModel { id: block.id, ty: block.ty, data: rewrite_data(block.data, refs) },
        ) == block_stop(store, block),
{
    let data = block.data;
    let rewritten = rewrite_data(data, refs);
    reveal_strlit("view_id");
    reveal_strlit("parent_id");
    reveal_strlit("delta");
    lemma_key_index_same_keys(data, rewritten, "view_id"@, 0);
    lemma_key_index_same_keys(data, rewritten, "parent_id"@, 0);
    lemma_key_index(data, "view_id"@, 0);
}

/// The rewriting of page mentions changes nothing in what stops the copy
/// of the databases that the blocks show.
pub proof fn lemma_blocks_stop_rewritten(
    store: PublishedStore,
    blocks: Seq<BlockModel>,
    refs: Map<Seq<char>, Option<Seq<char>>>,
    from: int,
)
    requires
        0 <= from,
    ensures
        blocks_stop(store, rewrite_blocks(blocks, refs), from) == blocks_stop(store, blocks, from),
    decreases blocks.len() - from,
{
    if from < blocks.len() {
        lemma_block_stop_rewritten(store, blocks[from], refs);
        lemma_blocks_stop_rewritten(store, blocks, refs, from + 1);
    }
}

/// What is known grows with the mapping, entry by entry.
pub proof fn lemma_known_insert(
    refs: Map<Seq<char>, Option<Seq<char>>>,
    key: Seq<char>,
    value: Option<Seq<char>>,
)
    ensures
        known_of(refs.insert(key, value)) == known_of(refs).insert(key, value is Some),
{
}

/// What is known of a mapping that says more takes the place of what was
/// known before.
pub proof fn lemma_known_extends(
    refs: Map<Seq<char>, Option<Seq<char>>>,
    later: Map<Seq<char>, Option<Seq<char>>>,
)
    requires
        refs_extend(refs, later),
    ensures
        known_of(refs).union_prefer_right(known_of(later)) == known_of(later),
        known_of(refs).dom().subset_of(known_of(later).dom()),
{
}

/// What a collab is made from: a document from a published page, a row
/// from a row of the database that a published view shows, a database
/// from the database that a published view shows.  A database that a
/// block shows is `embedded`: it is linked to the view of the block
/// besides its own views.
pub enum Made {
    Document { page: Seq<char> },
    Row { view: Seq<char>, row: Seq<char> },
    Database { view: Seq<char>, embedded: bool },
}

/// What the collab is made from.
pub open spec fn made_of(collab: NewCollab) -> Made {
    match collab {
        NewCollab::Document { published_view_id, .. } => Made::Document { page: published_view_id@ },
        NewCollab::DatabaseRow { published_view_id, old_row_id, .. } => Made::Row {
            view: published_view_id@,
            row: old_row_id@,
        },
        NewCollab::Database { published_view_id, views, linked_views, .. } => Made::Database {
            view: published_view_id@,
            embedded: linked_views@.len() > views@.len(),
        },
    }
}

/// What the collabs from the position `from` on are made from, in their
/// order.
pub open spec fn made_since(collabs: Seq<NewCollab>, from: int) -> Seq<Made> {
    collabs.skip(from).map_values(|c: NewCollab| made_of(c))
}

/// What the copy of a database adds to the collabs: a row for each
/// published row, in their order, and then the database.
pub open spec fn database_made(
    published: PublishedDatabaseView,
    view_id: Seq<char>,
    embedded: bool,
) -> Seq<Made> {
    Seq::new(
        published.database.row_ids@.len(),
        |i: int| Made::Row { view: view_id, row: published.database.row_ids@[i]@ },
    ).push(Made::Database { view: view_id, embedded })
}

/// What the copy of the database that a block shows adds to the collabs:
/// nothing, unless the block shows a published database.
pub open spec fn block_made(store: PublishedStore, block: BlockModel) -> Seq<Made> {
    if shows_published_database(store, block) {
        database_made(
            store.database_answer(embedded_view(block).unwrap()).unwrap().published.unwrap(),
            embedded_view(block).unwrap(),
            true,
        )
    } else {
        Seq::empty()
    }
}

/// What the copy of the databases that the blocks from the position
/// `from` on show adds to the collabs.
pub open spec fn blocks_made(store: PublishedStore, blocks: Seq<BlockModel>, from: int) -> Seq<Made>
    decreases blocks.len() - from,
{
    if from < 0 || from >= blocks.len() {
        Seq::empty()
    } else {
        block_made(store, blocks[from]) + blocks_made(store, blocks, from + 1)
    }
}

/// What the copy of the page `page` adds to the collabs, given what is
/// known, where the copy does not stop: what the pages it mentions add,
/// then what the databases of its blocks add, then the document itself.
/// A page that is known, or not published, adds nothing.
pub open spec fn visit_made(store: PublishedStore, page: Seq<char>, known: Map<Seq<char>, bool>) -> Seq<
    Made,
>
    decreases unresolved(store.documents@, known.dom()), 0nat, 0nat,
{
    if known.contains_key(page) || uuid_parse_result(page) is None {
        Seq::empty()
    } else {
        match store.document_answer(page) {
            None => Seq::empty(),
            Some(entry) => match entry.published {
                None => Seq::empty(),
                Some(published) => {
                    proof {
                        lemma_document_index(store.documents@, page, 0);
                        lemma_unresolved_drops(
                            store.documents@,
                            known.dom(),
                            known.insert(page, true).dom(),
                            document_index(store.documents@, page, 0).unwrap(),
                        );
                    }
                    mentions_made(
                        store,
                        blocks_mentions(published.data@.blocks),
                        0,
                        known.insert(page, true),
                    ) + blocks_made(store, published.data@.blocks, 0) + seq![
                        Made::Document { page },
                    ]
                },
            },
        }
    }
}

/// What the copy of the pages mentioned from the position `from` on adds
/// to the collabs, given what is known, where the copy does not stop.
pub open spec fn mentions_made(
    store: PublishedStore,
    mentions: Seq<Seq<char>>,
    from: int,
    known: Map<Seq<char>, bool>,
) -> Seq<Made>
    decreases unresolved(store.documents@, known.dom()), 1nat, mentions.len() - from,
{
    if from < 0 || from >= mentions.len() {
        Seq::empty()
    } else if known.contains_key(mentions[from]) {
        mentions_made(store, mentions, from + 1, known)
    } else {
        match visit(store, mentions[from], known) {
            Err(_) => visit_made(store, mentions[from], known),
            Ok((after, copied)) => {
                proof {
                    lemma_unresolved_shrinks(
                        store.documents@,
                        known.dom(),
                        known.union_prefer_right(after).insert(mentions[from], copied).dom(),
                    );
                }
                visit_made(store, mentions[from], known) + mentions_made(
                    store,
                    mentions,
                    from + 1,
                    known.union_prefer_right(after).insert(mentions[from], copied),
                )
            },
        }
    }
}

/// What was added since `from` is what was added up to a point between,
/// and then what was added since that point.
pub proof fn lemma_made_split(mid: Seq<NewCollab>, all: Seq<NewCollab>, from: int)
    requires
        is_prefix(mid, all),
        0 <= from <= mid.len(),
    ensures
        made_since(all, from) == made_since(mid, from) + made_since(all, mid.len() as int),
{
    assert forall|i: int| 0 <= i < mid.len() - from implies made_since(all, from)[i] == made_since(
        mid,
        from,
    )[i] by {
        assert(all.take(mid.len() as int)[from + i] == mid[from + i]);
    }
    assert(made_since(all, from) =~= made_since(mid, from) + made_since(all, mid.len() as int));
}

/// Nothing was added since the end.
pub proof fn lemma_made_none(collabs: Seq<NewCollab>)
    ensures
        made_since(collabs, collabs.len() as int) == Seq::<Made>::empty(),
{
    assert(made_since(collabs, collabs.len() as int) =~= Seq::<Made>::empty());
}

/// What one more collab adds.
pub proof fn lemma_made_push(collabs: Seq<NewCollab>, collab: NewCollab, from: int)
    requires
        0 <= from <= collabs.len(),
    ensures
        made_since(collabs.push(collab), from) == made_since(collabs, from).push(made_of(collab)),
{
    assert(made_since(collabs.push(collab), from) =~= made_since(collabs, from).push(
        made_of(collab),
    ));
}

/// The rewriting of page mentions changes nothing in what the copy of
/// the databases that the blocks show adds to the collabs.
pub proof fn lemma_blocks_made_rewritten(
    store: PublishedStore,
    blocks: Seq<BlockModel>,
    refs: Map<Seq<char>, Option<Seq<char>>>,
    from: int,
)
    requires
        0 <= from,
    ensures
        blocks_made(store, rewrite_blocks(blocks, refs), from) == blocks_made(store, blocks, from),
    decreases blocks.len() - from,
{
    if from < blocks.len() {
        let block = blocks[from];
        let data = block.data;
        let rewritten = rewrite_data(data, refs);
        reveal_strlit("view_id");
        reveal_strlit("delta");
        assert("view_id"@ != "delta"@) by {
            assert("view_id"@.len() != "delta"@.len());
        }
        lemma_key_index_same_keys(data, rewritten, "view_id"@, 0);
        lemma_key_index(data, "view_id"@, 0);
        lemma_blocks_made_rewritten(store, blocks, refs, from + 1);
    }
}

/// What a view to add stands for.
pub enum Hung {
    /// The view of the copy of the page `page`, below the view of the
    /// copy of the page `below`, which mentions it.
    Page { page: Seq<char>, below: Seq<char> },
    /// The folder view of the database that a block of the page `below`
    /// shows through the published view `view`.
    Folder { view: Seq<char>, below: Seq<char> },
    /// The view of a block that shows a database through the published
    /// view `view`; it follows the folder view of that database.
    Block { view: Seq<char> },
    /// The folder view of the view `sibling` of the database that the
    /// published view `view` shows, a view kept beside `view`.  Where a
    /// block shows the database, the folder view of the database comes
    /// `ahead` places later.
    Sibling { view: Seq<char>, sibling: Seq<char>, layout: DatabaseLayout, ahead: int },
}

/// The views of the published database that a copy for the view
/// `view_id` keeps.
pub open spec fn kept_views(published: PublishedDatabaseView, view_id: Seq<char>) -> Seq<DatabaseView> {
    match published.database.views {
        Some(views) => retained_views(
            views@,
            view_id,
            texts(published.database.visible_database_view_ids@),
        ),
        None => Seq::empty(),
    }
}

/// What the copy of a database adds to the views: a folder view for each
/// kept view other than the duplicated one, in their order.
pub open spec fn database_hung(
    published: PublishedDatabaseView,
    view_id: Seq<char>,
    embedded: bool,
) -> Seq<Hung> {
    let kept = kept_views(published, view_id);
    let positions = sibling_positions(kept, view_id);
    Seq::new(
        positions.len(),
        |k: int|
            Hung::Sibling {
                view: view_id,
                sibling: kept[positions[k]].id@,
                layout: kept[positions[k]].layout,
                ahead: if embedded {
                    positions.len() - k
                } else {
                    0
                },
            },
    )
}

/// What the copy of the database that a block of the page `below` shows
/// adds to the views: nothing, unless the block shows a published
/// database; then the folder views of the siblings, the folder view of
/// the database and the view of the block.
pub open spec fn block_hung(store: PublishedStore, block: BlockModel, below: Seq<char>) -> Seq<Hung> {
    if shows_published_database(store, block) {
        let view = embedded_view(block).unwrap();
        database_hung(store.database_answer(view).unwrap().published.unwrap(), view, true).push(
            Hung::Folder { view, below },
        ).push(Hung::Block { view })
    } else {
        Seq::empty()
    }
}

/// What the copy of the databases that the blocks from the position
/// `from` on show adds to the views.
pub open spec fn blocks_hung(
    store: PublishedStore,
    blocks: Seq<BlockModel>,
    from: int,
    below: Seq<char>,
) -> Seq<Hung>
    decreases blocks.len() - from,
{
    if from < 0 || from >= blocks.len() {
        Seq::empty()
    } else {
        block_hung(store, blocks[from], below) + blocks_hung(store, blocks, from + 1, below)
    }
}

/// What the copy of the page `page` adds to the views, given what is
/// known, where the copy does not stop: what the pages it mentions add,
/// then what the databases of its blocks add.  The view of the page
/// itself is for the one who asked for the copy to add.
pub open spec fn visit_hung(store: PublishedStore, page: Seq<char>, known: Map<Seq<char>, bool>) -> Seq<
    Hung,
>
    decreases unresolved(store.documents@, known.dom()), 0nat, 0nat,
{
    if known.contains_key(page) || uuid_parse_result(page) is None {
        Seq::empty()
    } else {
        match store.document_answer(page) {
            None => Seq::empty(),
            Some(entry) => match entry.published {
                None => Seq::empty(),
                Some(published) => {
                    proof {
                        lemma_document_index(store.documents@, page, 0);
                        lemma_unresolved_drops(
                            store.documents@,
                            known.dom(),
                            known.insert(page, true).dom(),
                            document_index(store.documents@, page, 0).unwrap(),
                        );
                    }
                    mentions_hung(
                        store,
                        blocks_mentions(published.data@.blocks),
                        0,
                        known.insert(page, true),
                        page,
                    ) + blocks_hung(store, published.data@.blocks, 0, page)
                },
            },
        }
    }
}

/// What the copy of the pages that the page `below` mentions from the
/// position `from` on adds to the views, given what is known, where the
/// copy does not stop: for each page that is copied, what its copy adds
/// and then its own view.
pub open spec fn mentions_hung(
    store: PublishedStore,
    mentions: Seq<Seq<char>>,
    from: int,
    known: Map<Seq<char>, bool>,
    below: Seq<char>,
) -> Seq<Hung>
    decreases unresolved(store.documents@, known.dom()), 1nat, mentions.len() - from,
{
    if from < 0 || from >= mentions.len() {
        Seq::empty()
    } else if known.contains_key(mentions[from]) {
        mentions_hung(store, mentions, from + 1, known, below)
    } else {
        match visit(store, mentions[from], known) {
            Err(_) => visit_hung(store, mentions[from], known),
            Ok((after, copied)) => {
                proof {
                    lemma_unresolved_shrinks(
                        store.documents@,
                        known.dom(),
                        known.union_prefer_right(after).insert(mentions[from], copied).dom(),
                    );
                }
                visit_hung(store, mentions[from], known) + (if copied {
                    seq![Hung::Page { page: mentions[from], below }]
                } else {
                    Seq::empty()
                }) + mentions_hung(
                    store,
                    mentions,
                    from + 1,
                    known.union_prefer_right(after).insert(mentions[from], copied),
                    below,
                )
            },
        }
    }
}

/// The rewriting of page mentions changes nothing in what the copy of
/// the databases that the blocks show adds to the views.
pub proof fn lemma_blocks_hung_rewritten(
    store: PublishedStore,
    blocks: Seq<BlockModel>,
    refs: Map<Seq<char>, Option<Seq<char>>>,
    from: int,
    below: Seq<char>,
)
    requires
        0 <= from,
    ensures
        blocks_hung(store, rewrite_blocks(blocks, refs), from, below) == blocks_hung(
            store,
            blocks,
            from,
            below,
        ),
    decreases blocks.len() - from,
{
    if from < blocks.len() {
        let block = blocks[from];
        let data = block.data;
        let rewritten = rewrite_data(data, refs);
        reveal_strlit("view_id");
        reveal_strlit("delta");
        assert("view_id"@ != "delta"@) by {
            assert("view_id"@.len() != "delta"@.len());
        }
        lemma_key_index_same_keys(data, rewritten, "view_id"@, 0);
        lemma_key_index(data, "view_id"@, 0);
        lemma_blocks_hung_rewritten(store, blocks, refs, from + 1, below);
    }
}

} // verus!
