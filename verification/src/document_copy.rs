//! The copy of a published view within a run: a document with the pages
//! it mentions and the databases its blocks show, or a database.

use crate::database::{are_sibling_views, lemma_sibling_infos, main_layout, sibling_positions};
use crate::database_copy::{copy_ids, database_copied, database_failure, lemma_database_added};
use crate::document::{
    all_known, blocks_mentions, blocks_of, clone_document, lemma_children_stable, mention_children,
    page_mentions, rewrite_blocks, rewrite_document, rewrite_page_mentions, shows_database,
    DocumentData,
};
use crate::duplicator::{
    lemma_continues_chain, lemma_continues_on, lemma_continues_same, lemma_unused_beyond,
    root_database, root_unanswered, root_unpublished, PublishCollabDuplicator,
};
use crate::error::DuplicateError;
use crate::folder::{
    all_infos, is_view_for_info, is_view_from_info, layout_of, FolderView, ViewIdentifier,
    ViewLayout,
};
use crate::ids::{is_uuid, refs_extend, texts, uuid_parse_result, Lookup};
use crate::invariants::{
    are_block_views, block_outcome, child_ids, children_known, closed_except, documents_hold,
    has_view, is_database_copy, is_document_copy, is_hung, is_new_id, is_relinked,
    lemma_block_outcome_grows, lemma_child_ids_push, lemma_children_known_grows, lemma_closed_grows,
    lemma_closed_insert, lemma_closed_inserted, lemma_databases_grow, lemma_documents_grow,
    lemma_has_view_grows, lemma_refs_extend_chain, lemma_refs_extend_same, lemma_tree_extends,
    lemma_tree_grows, lemma_views_grow, shows_published_database, store_lacks, tree_holds,
};
use crate::json::{
    find_member, key_index, lemma_key_index, lemma_key_index_same_keys, lemma_members_of,
    members_of, set_member, JsonTree, JsonValue,
};
use crate::keys::{document_keyed, lemma_copy_keyed};
use crate::outcome::{
    block_hung, block_made, blocks_hung, blocks_made, blocks_stop, database_hung, database_made,
    kept_views, known_of, lemma_blocks_hung_rewritten, lemma_blocks_made_rewritten,
    lemma_blocks_stop_rewritten, lemma_known_extends, lemma_known_insert, lemma_made_none,
    lemma_made_push, lemma_made_split, made_since, mentions_hung, mentions_made, tells, visit,
    visit_hung, visit_made, visit_mentions, Hung, Made, Stop,
};
use crate::plan::{Interrupt, NewCollab};
use crate::sequences::{lemma_prefix_chain, lemma_prefix_push, lemma_prefix_same};
use crate::store::{
    document_index, lemma_document_index, lemma_unresolved_drops, lemma_unresolved_shrinks,
    unresolved, CollabType, FetchRequest, PublishedDatabaseView, PublishedDocument, PublishedStore,
};
use vstd::prelude::*;

verus! {

/// `after` is `before` but for its children.
pub open spec fn same_but_children(before: FolderView, after: FolderView) -> bool {
    after == (FolderView { children: after.children, ..before })
}

/// What a run has done when it has copied the published document
/// `published` under the identifier `new_view_id`: `after` is the run as
/// it is, and `view` the folder view that the copy returns.
///
/// Every page that the document mentions has an entry in the mapping.
/// The view is made from the document's metadata and has, as children,
/// the new identifiers of the mentioned pages that have one.  The last
/// collab to insert is the document under its new identifier: its page
/// mentions are rewritten by the mapping, in the blocks and in the text
/// map, and its blocks that show a published database are linked anew.
pub open spec fn document_copied(
    after: PublishCollabDuplicator,
    view: FolderView,
    store: PublishedStore,
    published: PublishedDocument,
    published_view_id: Seq<char>,
    new_view_id: String,
    parent: Seq<char>,
) -> bool {
    let mentions = blocks_mentions(published.data@.blocks);
    let rewritten = rewrite_document(published.data@, after.ids@);
    &&& all_known(mentions, after.ids@)
    &&& is_view_for_info(
        view,
        new_view_id,
        published.metadata.view,
        ViewLayout::Document,
        after.ts_now,
        after.duplicator_uid,
        parent,
    )
    &&& child_ids(view.children@) == mention_children(mentions, after.ids@)
    &&& after.collabs@.len() > 0
    &&& after.collabs@.last() matches NewCollab::Document {
        object_id,
        published_view_id: source,
        data,
    }
    &&& object_id == new_view_id
    &&& source@ == published_view_id
    &&& data@.text_map == rewritten.text_map
    &&& data@.blocks.len() == rewritten.blocks.len()
    &&& forall|j: int|
        0 <= j < rewritten.blocks.len() ==> block_outcome(
            store,
            rewritten.blocks[j],
            #[trigger] data@.blocks[j],
            after.views_to_add@,
            view.id@,
        )
}

impl PublishCollabDuplicator {
    /// Copies the databases that the blocks of a document show.
    ///
    /// For each block of kind `grid`, `board` or `calendar` whose view is
    /// published, the database behind the view is copied under a new
    /// identifier; the copy's folder view goes below `ret_view`, a view
    /// for the block itself below that one, and the block is pointed at
    /// the two: `view_id` at the block's view, `parent_id` at the
    /// database's.  The new database is linked to its own views and to
    /// the view of the block.  A block whose view is not published stays
    /// as it is; one that lacks `view_id` or `parent_id` fails the run,
    /// whatever the record says of its view.  `page` is the published
    /// page whose document this is.
    #[verifier::rlimit(100)]
    fn deep_copy_doc_databases(
        &mut self,
        store: &PublishedStore,
        doc_data: &mut DocumentData,
        ret_view: &FolderView,
        Ghost(floating): Ghost<Set<Seq<char>>>,
        Ghost(page): Ghost<Seq<char>>,
    ) -> (r: Result<(), Interrupt>)
        requires
            old(self).wf(),
            tree_holds(old(self).views_to_add@, old(self).ids@, floating),
            floating.contains(ret_view.id@),
            documents_hold(old(self).collabs@, *store, old(self).ids@, old(self).views_to_add@),
            old(self).described(*store),
            old(self).ids@.contains_key(page),
            old(self).ids@[page] == Some(ret_view.id@),
        ensures
            final(self).wf(),
            final(self).ids@ == old(self).ids@,
            r is Ok ==> tree_holds(final(self).views_to_add@, final(self).ids@, floating),
            r is Ok ==> (documents_hold(
                final(self).collabs@,
                *store,
                final(self).ids@,
                final(self).views_to_add@,
            ) && final(self).described(*store)),
            final(self).continues(
                old(self),
                old(self).ids.drawn().len() as int,
                old(self).ids.drawn().len() as int,
                false,
            ),
            match r {
                Ok(()) => {
                    &&& final(doc_data).text_map == old(doc_data).text_map
                    &&& final(doc_data).blocks@.len() == old(doc_data).blocks@.len()
                    &&& forall|j: int|
                        0 <= j < old(doc_data).blocks@.len() ==> block_outcome(
                            *store,
                            old(doc_data).blocks@[j]@,
                            (#[trigger] final(doc_data).blocks@[j])@,
                            final(self).views_to_add@,
                            ret_view.id@,
                        )
                },
                Err(Interrupt::Fetch(request)) => store_lacks(*store, request),
                Err(Interrupt::Failed(e)) => e is RecordNotFound || e is Parse,
            },
            match r {
                Ok(()) => blocks_stop(*store, old(doc_data)@.blocks, 0) is None,
                Err(interrupt) => blocks_stop(*store, old(doc_data)@.blocks, 0) matches Some(stop)
                    && tells(interrupt, stop),
            },
            r is Ok ==> made_since(final(self).collabs@, old(self).collabs@.len() as int)
                == blocks_made(*store, old(doc_data)@.blocks, 0),
            r is Ok ==> final(self).view_kinds@ == old(self).view_kinds@ + blocks_hung(
                *store,
                old(doc_data)@.blocks,
                0,
                page,
            ),
    {
        let view_id_key = "view_id".to_owned();
        let parent_id_key = "parent_id".to_owned();
        let ghost floor = self.ids.drawn().len() as int;
        let ghost inserted = self.collabs@.len() as int;
        proof {
            lemma_continues_same(*self, floor, floor, false);
            lemma_made_none(self.collabs@);
            assert(made_since(self.collabs@, inserted) + blocks_made(*store, doc_data@.blocks, 0)
                =~= blocks_made(*store, doc_data@.blocks, 0));
        }
        let ghost kinds_at_start = self.view_kinds@;
        let mut i: usize = 0;
        while i < doc_data.blocks.len()
            invariant
                0 <= i <= doc_data.blocks.len(),
                inserted == old(self).collabs@.len(),
                kinds_at_start == old(self).view_kinds@,
                self.ids@.contains_key(page),
                self.ids@[page] == Some(ret_view.id@),
                self.view_kinds@ + blocks_hung(*store, old(doc_data)@.blocks, i as int, page)
                    == kinds_at_start + blocks_hung(*store, old(doc_data)@.blocks, 0, page),
                made_since(self.collabs@, inserted) + blocks_made(
                    *store,
                    old(doc_data)@.blocks,
                    i as int,
                ) == blocks_made(*store, old(doc_data)@.blocks, 0),
                view_id_key@ == "view_id"@,
                parent_id_key@ == "parent_id"@,
                floor == old(self).ids.drawn().len(),
                self.wf(),
                self.ids@ == old(self).ids@,
                self.continues(old(self), floor, floor, false),
                tree_holds(self.views_to_add@, self.ids@, floating),
                floating.contains(ret_view.id@),
                documents_hold(self.collabs@, *store, self.ids@, self.views_to_add@),
                self.described(*store),
                blocks_stop(*store, old(doc_data)@.blocks, 0) == blocks_stop(
                    *store,
                    old(doc_data)@.blocks,
                    i as int,
                ),
                doc_data.text_map == old(doc_data).text_map,
                doc_data.blocks@.len() == old(doc_data).blocks@.len(),
                forall|j: int|
                    0 <= j < i ==> block_outcome(
                        *store,
                        old(doc_data).blocks@[j]@,
                        (#[trigger] doc_data.blocks@[j])@,
                        self.views_to_add@,
                        ret_view.id@,
                    ),
                forall|j: int|
                    i <= j < doc_data.blocks@.len() ==> #[trigger] doc_data.blocks@[j] == old(
                        doc_data,
                    ).blocks@[j],
            decreases doc_data.blocks.len() - i,
        {
            let ghost before = doc_data.blocks@[i as int]@;
            proof {
                assert(old(doc_data)@.blocks[i as int] == before);
            }
            let ghost views_before = self.views_to_add@;
            let ghost kinds_before = self.view_kinds@;
            let ghost collabs_before = self.collabs@;
            let ghost blocks_before = doc_data.blocks@;
            if shows_database(&doc_data.blocks[i].ty) {
                proof {
                    lemma_members_of(doc_data.blocks@[i as int].data@);
                }
                let at_view = match find_member(&doc_data.blocks[i].data, &view_id_key) {
                    Some(at) => at,
                    None => {
                        return Err(
                            Interrupt::Failed(
                                DuplicateError::record_not_found("view_id not found in block data"),
                            ),
                        );
                    },
                };
                let view_id = match doc_data.blocks[i].data[at_view].value.as_text() {
                    Some(text) => text.clone(),
                    None => {
                        return Err(
                            Interrupt::Failed(DuplicateError::record_not_found("view_id not a string")),
                        );
                    },
                };
                if find_member(&doc_data.blocks[i].data, &parent_id_key).is_none() {
                    return Err(
                        Interrupt::Failed(
                            DuplicateError::record_not_found("parent_id not found in block data"),
                        ),
                    );
                }
                if !is_uuid(&view_id) {
                    return Err(Interrupt::Failed(DuplicateError::Parse(view_id)));
                }
                let entry = match store.database(&view_id) {
                    Some(entry) => entry,
                    None => {
                        return Err(
                            Interrupt::Fetch(
                                FetchRequest { view_id, collab_type: CollabType::Database },
                            ),
                        );
                    },
                };
                match &entry.published {
                    Some(published) => {
                        let ghost here = *self;
                        let ghost view_at = self.ids.drawn().len() as int;
                        proof {
                            lemma_unused_beyond(here, view_at);
                            lemma_unused_beyond(here, view_at + 1);
                            lemma_unused_beyond(here, view_at + 2);
                        }
                        let ghost block_at = view_at + 2;
                        let new_db_folder_view_id = self.draw();
                        let new_db_id = self.draw();
                        let ghost drawn_pair = self.ids.drawn();
                        let new_block_view_id = self.draw();
                        let ghost drawn_twice = *self;
                        proof {
                            lemma_prefix_push(here.ids.drawn(), new_db_folder_view_id@);
                            lemma_prefix_push(here.ids.drawn().push(new_db_folder_view_id@), new_db_id@);
                            lemma_prefix_push(drawn_pair, new_block_view_id@);
                            lemma_prefix_chain(
                                here.ids.drawn(),
                                here.ids.drawn().push(new_db_folder_view_id@),
                                drawn_pair,
                            );
                            lemma_prefix_chain(here.ids.drawn(), drawn_pair, drawn_twice.ids.drawn());
                            lemma_prefix_same(here.collabs@);
                            lemma_prefix_same(here.views_to_add@);
                            lemma_prefix_same(here.collab_draws@);
                            lemma_prefix_same(here.view_draws@);
                            assert(drawn_twice.continues(&here, floor, floor, false));
                            lemma_continues_on(*old(self), here, drawn_twice, floor);
                        }
                        proof {
                            lemma_tree_extends(
                                self.views_to_add@,
                                self.ids@,
                                self.ids@,
                                floating,
                                floating.insert(new_db_folder_view_id@),
                            );
                        }
                        let copied = self.deep_copy_database_txn(
                            &view_id,
                            &view_id,
                            new_db_folder_view_id.clone(),
                            new_db_id.clone(),
                            Some(new_block_view_id.clone()),
                            published,
                            Ghost(view_at + 1),
                            Ghost(floating.insert(new_db_folder_view_id@)),
                        );
                        let ghost with_database = *self;
                        proof {
                            lemma_continues_chain(
                                *old(self),
                                drawn_twice,
                                with_database,
                                floor,
                                floor,
                                false,
                                floor,
                                floor,
                                false,
                                view_at + 3,
                                view_at + 1,
                                false,
                            );
                        }
                        let mut new_folder_db_view = match copied {
                            Ok(view) => view,
                            Err(e) => {
                                return Err(Interrupt::Failed(e));
                            },
                        };
                        let ghost copied_view = new_folder_db_view;
                        new_folder_db_view.parent_view_id = ret_view.id.clone();
                        proof {
                            assert(with_database.ids.drawn().take(drawn_twice.ids.drawn().len() as int)[view_at]
                                == new_db_folder_view_id@);
                            assert forall|j: int|
                                0 <= j < with_database.view_draws@.len() implies #[trigger] with_database.view_draws@[j]
                                != view_at by {
                                if j < here.view_draws@.len() {
                                    assert(with_database.view_draws@.take(
                                        drawn_twice.view_draws@.len() as int,
                                    )[j] == here.view_draws@[j]);
                                }
                            }
                            assert forall|c: int|
                                0 <= c < with_database.collab_draws@.len() && !(with_database.collabs@[c]
                                    is Document) implies #[trigger] with_database.collab_draws@[c]
                                != view_at by {
                                if c < here.collab_draws@.len() {
                                    assert(with_database.collab_draws@.take(
                                        drawn_twice.collab_draws@.len() as int,
                                    )[c] == here.collab_draws@[c]);
                                }
                            }
                        }
                        self.add_view(
                            new_folder_db_view,
                            Ghost(view_at),
                            Ghost(Hung::Folder { view: view_id@, below: page }),
                        );
                        let ghost with_folder = *self;
                        proof {
                            let more = with_folder.views_to_add@;
                            lemma_prefix_push(with_database.views_to_add@, more.last());
                            assert(more[more.len() - 1].id@ == new_db_folder_view_id@);
                            assert(has_view(more, new_db_folder_view_id@));
                            lemma_tree_grows(
                                with_database.views_to_add@,
                                more,
                                self.ids@,
                                floating.insert(new_db_folder_view_id@),
                                floating,
                            );
                        }
                        proof {
                            assert(with_folder.ids.drawn().take(drawn_twice.ids.drawn().len() as int)[block_at]
                                == new_block_view_id@);
                            assert forall|j: int|
                                0 <= j < with_folder.view_draws@.len() implies #[trigger] with_folder.view_draws@[j]
                                != block_at by {
                                if j < here.view_draws@.len() {
                                    assert(with_database.view_draws@.take(
                                        drawn_twice.view_draws@.len() as int,
                                    )[j] == here.view_draws@[j]);
                                    assert(with_folder.view_draws@[j] == with_database.view_draws@[j]);
                                } else if j < with_database.view_draws@.len() {
                                    assert(with_folder.view_draws@[j] == with_database.view_draws@[j]);
                                }
                            }
                            assert forall|c: int|
                                0 <= c < with_folder.collab_draws@.len() && !(with_folder.collabs@[c]
                                    is Document) implies #[trigger] with_folder.collab_draws@[c]
                                != block_at by {
                                if c < here.collab_draws@.len() {
                                    assert(with_database.collab_draws@.take(
                                        drawn_twice.collab_draws@.len() as int,
                                    )[c] == here.collab_draws@[c]);
                                }
                            }
                        }
                        let mut db_view_in_doc = self.new_folder_view(
                            new_block_view_id.clone(),
                            &published.metadata.view,
                            published.metadata.view.layout,
                        );
                        db_view_in_doc.parent_view_id = new_db_folder_view_id.clone();
                        self.add_view(db_view_in_doc, Ghost(block_at), Ghost(Hung::Block { view: view_id@ }));
                        proof {
                            let more = self.views_to_add@;
                            lemma_prefix_push(with_folder.views_to_add@, more.last());
                            lemma_has_view_grows(with_folder.views_to_add@, more, new_db_folder_view_id@);
                            lemma_tree_grows(
                                with_folder.views_to_add@,
                                more,
                                self.ids@,
                                floating,
                                floating,
                            );
                        }
                        proof {
                            lemma_prefix_push(with_database.views_to_add@, with_folder.views_to_add@.last());
                            lemma_prefix_push(with_database.view_draws@, view_at);
                            lemma_prefix_same(with_database.ids.drawn());
                            lemma_prefix_same(with_database.collabs@);
                            lemma_prefix_same(with_database.collab_draws@);
                            assert(with_folder.continues(&with_database, floor, floor, false));
                            lemma_continues_on(*old(self), with_database, with_folder, floor);
                            lemma_prefix_same(with_folder.ids.drawn());
                            lemma_prefix_push(with_folder.views_to_add@, self.views_to_add@.last());
                            lemma_prefix_push(with_folder.view_draws@, block_at);
                            lemma_prefix_same(with_folder.collabs@);
                            lemma_prefix_same(with_folder.collab_draws@);
                            assert(self.continues(&with_folder, floor, floor, false));
                            lemma_continues_on(*old(self), with_folder, *self, floor);
                        }
                        proof {
                            let views = self.views_to_add@;
                            let kinds = self.view_kinds@;
                            let from = views_before.len() as int;
                            let hung = database_hung(*published, view_id@, true);
                            let copies = with_database.collabs@.last()->Database_views;
                            assert(with_database.views_to_add@.take(from) == views_before);
                            assert(views.subrange(from, from + hung.len())
                                =~= with_database.views_to_add@.skip(from));
                            assert(kinds.subrange(from, from + hung.len()) =~= hung);
                            assert(kinds =~= kinds_before + hung + seq![
                                Hung::Folder { view: view_id@, below: page },
                            ] + seq![Hung::Block { view: view_id@ }]);
                            assert forall|j: int| from <= j < views.len() implies #[trigger] is_hung(
                                views,
                                kinds,
                                j,
                                *store,
                                self.ids@,
                                self.ts_now,
                                self.duplicator_uid,
                            ) by {
                                if j < from + hung.len() {
                                    lemma_siblings_are_hung(
                                        views,
                                        kinds,
                                        from,
                                        *store,
                                        self.ids@,
                                        self.ts_now,
                                        self.duplicator_uid,
                                        *published,
                                        view_id@,
                                        copy_ids(copies@),
                                        new_db_folder_view_id@,
                                        true,
                                        j,
                                    );
                                    assert(is_hung(
                                        views,
                                        kinds,
                                        j,
                                        *store,
                                        self.ids@,
                                        self.ts_now,
                                        self.duplicator_uid,
                                    ));
                                } else if j == from + hung.len() {
                                    assert(views[j] == with_folder.views_to_add@.last());
                                    assert(kinds[j] == (Hung::Folder { view: view_id@, below: page }));
                                    assert(main_layout(kept_views(*published, view_id@), view_id@)
                                        is Some);
                                    assert(views[j].parent_view_id@ == ret_view.id@);
                                    assert(store.database_answer(view_id@) == Some(*entry));
                                    assert(is_view_from_info(
                                        views[j],
                                        views[j].id,
                                        published.metadata.view,
                                        layout_of(
                                            main_layout(kept_views(*published, view_id@), view_id@).unwrap(),
                                        ),
                                        self.ts_now,
                                        self.duplicator_uid,
                                        views[j].parent_view_id@,
                                    ));
                                    assert(is_hung(
                                        views,
                                        kinds,
                                        j,
                                        *store,
                                        self.ids@,
                                        self.ts_now,
                                        self.duplicator_uid,
                                    ));
                                } else {
                                    assert(views[j] == views.last());
                                    assert(kinds[j] == (Hung::Block { view: view_id@ }));
                                    assert(kinds[j - 1] == (Hung::Folder { view: view_id@, below: page }));
                                    assert(views[j - 1] == with_folder.views_to_add@.last());
                                    assert(views[j].parent_view_id@ == new_db_folder_view_id@);
                                    assert(is_view_from_info(
                                        views[j],
                                        views[j].id,
                                        published.metadata.view,
                                        published.metadata.view.layout,
                                        self.ts_now,
                                        self.duplicator_uid,
                                        views[j - 1].id@,
                                    ));
                                    assert(is_hung(
                                        views,
                                        kinds,
                                        j,
                                        *store,
                                        self.ids@,
                                        self.ts_now,
                                        self.duplicator_uid,
                                    ));
                                }
                            }
                            lemma_prefix_chain(
                                views_before,
                                with_database.views_to_add@,
                                with_folder.views_to_add@,
                            );
                            lemma_prefix_chain(views_before, with_folder.views_to_add@, views);
                            assert(kinds.take(kinds_before.len() as int) =~= kinds_before);
                            lemma_refs_extend_same(self.ids@);
                            lemma_views_grow(
                                views_before,
                                views,
                                kinds_before,
                                kinds,
                                *store,
                                self.ids@,
                                self.ids@,
                                self.ts_now,
                                self.duplicator_uid,
                            );
                            lemma_prefix_chain(collabs_before, drawn_twice.collabs@, with_database.collabs@);
                            lemma_database_added(
                                collabs_before,
                                views_before,
                                kinds_before,
                                with_database,
                                copied_view,
                                *published,
                                view_id,
                                new_db_folder_view_id,
                                new_db_id@,
                                drawn_twice.ids.drawn().len() as int,
                                views_before.len() as int,
                                Seq::<char>::empty(),
                                Some(new_block_view_id@),
                                *store,
                                views,
                                kinds,
                                views.len() - 1,
                            );
                        }
                        let ghost data_before = members_of(doc_data.blocks@[i as int].data@);
                        set_member(
                            &mut doc_data.blocks[i].data,
                            &view_id_key,
                            JsonValue::Text(new_block_view_id),
                        );
                        let ghost data_between = members_of(doc_data.blocks@[i as int].data@);
                        proof {
                            lemma_key_index(data_before, "view_id"@, 0);
                            lemma_key_index_same_keys(data_before, data_between, "parent_id"@, 0);
                            lemma_key_index(data_before, "parent_id"@, 0);
                        }
                        set_member(
                            &mut doc_data.blocks[i].data,
                            &parent_id_key,
                            JsonValue::Text(new_db_folder_view_id),
                        );
                        proof {
                            let after = doc_data.blocks@[i as int]@;
                            let views = self.views_to_add@;
                            let p = views.len() - 2;
                            let q = views.len() - 1;
                            assert(views[p].id@ == new_db_folder_view_id@);
                            assert(views[q].id@ == new_block_view_id@);
                            assert(are_block_views(
                                views,
                                new_block_view_id@,
                                new_db_folder_view_id@,
                                ret_view.id@,
                            ));
                            let at_view = key_index(before.data, "view_id"@, 0).unwrap();
                            let at_parent = key_index(before.data, "parent_id"@, 0).unwrap();
                            reveal_strlit("view_id");
                            reveal_strlit("parent_id");
                            assert("view_id"@.len() != "parent_id"@.len());
                            assert(at_view != at_parent);
                            assert(after.data[at_parent].1 == JsonTree::Text(new_db_folder_view_id@));
                            assert(after.data[at_view].1 == JsonTree::Text(new_block_view_id@));
                            assert(is_relinked(before, after, views, ret_view.id@));
                            lemma_prefix_chain(
                                views_before,
                                with_database.views_to_add@,
                                with_folder.views_to_add@,
                            );
                            lemma_prefix_chain(views_before, with_folder.views_to_add@, views);
                            lemma_prefix_chain(collabs_before, drawn_twice.collabs@, with_database.collabs@);
                            assert(shows_published_database(*store, before));
                            assert(made_since(self.collabs@, collabs_before.len() as int)
                                == block_made(*store, before));
                            assert(self.view_kinds@ =~= kinds_before + block_hung(*store, before, page));
                        }
                    },
                    None => {},
                }
            }
            proof {
                if self.views_to_add@ == views_before {
                    lemma_prefix_same(views_before);
                }
                if self.collabs@ == collabs_before {
                    lemma_prefix_same(collabs_before);
                    lemma_made_none(self.collabs@);
                }
                assert(made_since(self.collabs@, collabs_before.len() as int) == block_made(
                    *store,
                    before,
                ));
                assert(self.view_kinds@ =~= kinds_before + block_hung(*store, before, page));
                assert(self.view_kinds@ + blocks_hung(*store, old(doc_data)@.blocks, i + 1, page)
                    =~= kinds_before + blocks_hung(*store, old(doc_data)@.blocks, i as int, page));
                lemma_made_split(collabs_before, self.collabs@, inserted);
                assert(made_since(self.collabs@, inserted) + blocks_made(
                    *store,
                    old(doc_data)@.blocks,
                    i + 1,
                ) =~= made_since(collabs_before, inserted) + blocks_made(
                    *store,
                    old(doc_data)@.blocks,
                    i as int,
                ));
                lemma_refs_extend_same(self.ids@);
                assert forall|j: int| collabs_before.len() <= j < self.collabs@.len() implies !((
                #[trigger] self.collabs@[j]) is Document) by {}
                lemma_documents_grow(
                    collabs_before,
                    self.collabs@,
                    *store,
                    self.ids@,
                    self.ids@,
                    views_before,
                    self.views_to_add@,
                );
                assert forall|j: int| 0 <= j < i implies block_outcome(
                    *store,
                    old(doc_data).blocks@[j]@,
                    (#[trigger] doc_data.blocks@[j])@,
                    self.views_to_add@,
                    ret_view.id@,
                ) by {
                    assert(doc_data.blocks@[j] == blocks_before[j]);
                    lemma_block_outcome_grows(
                        *store,
                        old(doc_data).blocks@[j]@,
                        blocks_before[j]@,
                        views_before,
                        self.views_to_add@,
                        ret_view.id@,
                    );
                }
            }
            i += 1;
        }
        Ok(())
    }
}

impl PublishCollabDuplicator {
    /// Copies the published view `publish_view_id`, read as a collab of
    /// the kind `collab_type`, under the identifier `new_view_id`, which
    /// is the last that was drawn.
    ///
    /// Returns `None`, and leaves the run as it was, where the view is not
    /// published; a kind other than document or database fails and
    /// leaves the run as it was, too.  Where a document is published, the
    /// mapping says from here on that `new_view_id` replaces
    /// `publish_view_id`; a database gets no entry in the mapping, which
    /// is of pages.  The folder view of the copy is returned without a
    /// parent, for the caller to fill in.  `pending` names the pages whose
    /// documents are under construction further up.
    pub(crate) fn deep_copy_txn(
        &mut self,
        store: &PublishedStore,
        new_view_id: String,
        publish_view_id: &String,
        collab_type: CollabType,
        Ghost(pending): Ghost<Set<Seq<char>>>,
        Ghost(floating): Ghost<Set<Seq<char>>>,
    ) -> (r: Result<Option<FolderView>, Interrupt>)
        requires
            old(self).wf(),
            !old(self).ids@.contains_key(publish_view_id@),
            closed_except(old(self).ids@, old(self).collabs@, pending),
            tree_holds(old(self).views_to_add@, old(self).ids@, floating),
            documents_hold(old(self).collabs@, *store, old(self).ids@, old(self).views_to_add@),
            old(self).described(*store),
            old(self).ids.drawn().len() > 0,
            old(self).ids.drawn().last() == new_view_id@,
            old(self).no_collab_from(old(self).ids.drawn().len() - 1),
            old(self).no_view_from(old(self).ids.drawn().len() - 1),
        ensures
            final(self).wf(),
            refs_extend(old(self).ids@, final(self).ids@),
            final(self).continues(
                old(self),
                old(self).ids.drawn().len() as int,
                old(self).ids.drawn().len() - 1,
                true,
            ),
            match r {
                Ok(None) => {
                    &&& final(self).ids@ == old(self).ids@
                    &&& final(self).ids.drawn() == old(self).ids.drawn()
                    &&& final(self).same_output(old(self))
                    &&& uuid_parse_result(publish_view_id@) is Some
                    &&& match collab_type {
                        CollabType::Document => store.document_answer(publish_view_id@) matches Some(
                            entry,
                        ) && entry.published is None,
                        CollabType::Database => store.database_answer(publish_view_id@) matches Some(
                            entry,
                        ) && entry.published is None,
                        _ => false,
                    }
                },
                Ok(Some(view)) => {
                    &&& uuid_parse_result(publish_view_id@) is Some
                    &&& view.id == new_view_id
                    &&& closed_except(final(self).ids@, final(self).collabs@, pending)
                    &&& tree_holds(
                        final(self).views_to_add@,
                        final(self).ids@,
                        floating.insert(new_view_id@),
                    )
                    &&& children_known(view, final(self).ids@)
                    &&& (documents_hold(
                        final(self).collabs@,
                        *store,
                        final(self).ids@,
                        final(self).views_to_add@,
                    ) && final(self).described(*store))
                    &&& match collab_type {
                        CollabType::Document => {
                            &&& store.document_answer(publish_view_id@) matches Some(entry)
                            &&& entry.published matches Some(published)
                            &&& final(self).ids@.contains_key(publish_view_id@)
                            &&& final(self).ids@[publish_view_id@] == Some(new_view_id@)
                            &&& document_copied(
                                *final(self),
                                view,
                                *store,
                                published,
                                publish_view_id@,
                                new_view_id,
                                Seq::<char>::empty(),
                            )
                        },
                        CollabType::Database => {
                            &&& store.database_answer(publish_view_id@) matches Some(entry)
                            &&& entry.published matches Some(published)
                            &&& final(self).ids@ == old(self).ids@
                            &&& final(self).ids.drawn().len() > old(self).ids.drawn().len()
                            &&& database_copied(
                                *final(self),
                                view,
                                published,
                                *publish_view_id,
                                publish_view_id@,
                                new_view_id,
                                final(self).ids.drawn()[old(self).ids.drawn().len() as int],
                                old(self).ids.drawn().len() as int + 1,
                                old(self).collabs@.len() as int,
                                old(self).views_to_add@.len() as int,
                                Seq::<char>::empty(),
                                None,
                            )
                        },
                        _ => false,
                    }
                },
                Err(Interrupt::Fetch(request)) => {
                    &&& uuid_parse_result(publish_view_id@) is Some
                    &&& collab_type is Document || collab_type is Database
                    &&& store_lacks(*store, request)
                },
                Err(Interrupt::Failed(e)) => {
                    &&& e is RecordNotFound || e is Parse
                    &&& uuid_parse_result(publish_view_id@) is None ==> e is Parse && e.text()
                        == publish_view_id@
                    &&& uuid_parse_result(publish_view_id@) is Some && !(collab_type is Document
                        || collab_type is Database) ==> e is RecordNotFound && e.text()
                        == "collab type not supported"@
                    &&& uuid_parse_result(publish_view_id@) is None || !(collab_type is Document
                        || collab_type is Database) ==> (final(self).ids@ == old(self).ids@
                        && final(self).ids.drawn() == old(self).ids.drawn()
                        && final(self).same_output(old(self)))
                },
            },
            root_unpublished(*store, publish_view_id@, collab_type) ==> r matches Ok(None),
            uuid_parse_result(publish_view_id@) is Some && root_unanswered(
                *store,
                publish_view_id@,
                collab_type,
            ) ==> r matches Err(Interrupt::Fetch(_)),
            root_database(*store, publish_view_id@, collab_type) matches Some(published) ==> (
            match database_failure(published, publish_view_id@) {
                Some(text) => r matches Err(Interrupt::Failed(e)) && e is RecordNotFound && e.text()
                    == text,
                None => r matches Ok(Some(_)),
            }),
            collab_type is Document ==> (match r {
                Ok(None) => visit(*store, publish_view_id@, known_of(old(self).ids@)) == Ok::<
                    (Map<Seq<char>, bool>, bool),
                    Stop,
                >((known_of(old(self).ids@), false)),
                Ok(Some(_)) => visit(*store, publish_view_id@, known_of(old(self).ids@)) == Ok::<
                    (Map<Seq<char>, bool>, bool),
                    Stop,
                >((known_of(final(self).ids@), true)),
                Err(interrupt) => visit(
                    *store,
                    publish_view_id@,
                    known_of(old(self).ids@),
                ) matches Err(stop) && tells(interrupt, stop),
            }),
            r matches Ok(Some(_)) ==> made_since(
                final(self).collabs@,
                old(self).collabs@.len() as int,
            ) == (match collab_type {
                CollabType::Document => visit_made(
                    *store,
                    publish_view_id@,
                    known_of(old(self).ids@),
                ),
                _ => database_made(
                    store.database_answer(publish_view_id@).unwrap().published.unwrap(),
                    publish_view_id@,
                    false,
                ),
            }),
            r matches Ok(Some(_)) ==> final(self).view_kinds@ == old(self).view_kinds@ + (
            match collab_type {
                CollabType::Document => visit_hung(
                    *store,
                    publish_view_id@,
                    known_of(old(self).ids@),
                ),
                _ => database_hung(
                    store.database_answer(publish_view_id@).unwrap().published.unwrap(),
                    publish_view_id@,
                    false,
                ),
            }),
        decreases unresolved(store.documents@, old(self).ids@.dom()), 0nat,
    {
        let ghost floor = self.ids.drawn().len() as int;
        let ghost own = floor - 1;
        proof {
            lemma_continues_same(*self, floor, own, true);
        }
        if !is_uuid(publish_view_id) {
            return Err(Interrupt::Failed(DuplicateError::Parse(publish_view_id.clone())));
        }
        match collab_type {
            CollabType::Document => {
                let entry = match store.document(publish_view_id) {
                    Some(entry) => entry,
                    None => {
                        return Err(
                            Interrupt::Fetch(
                                FetchRequest {
                                    view_id: publish_view_id.clone(),
                                    collab_type: CollabType::Document,
                                },
                            ),
                        );
                    },
                };
                let published = match &entry.published {
                    Some(published) => published,
                    None => {
                        return Ok(None);
                    },
                };
                self.ids.record(publish_view_id, &new_view_id);
                proof {
                    let at = document_index(store.documents@, publish_view_id@, 0).unwrap();
                    lemma_document_index(store.documents@, publish_view_id@, 0);
                    lemma_unresolved_drops(
                        store.documents@,
                        old(self).ids@.dom(),
                        self.ids@.dom(),
                        at,
                    );
                    lemma_known_insert(old(self).ids@, publish_view_id@, Some(new_view_id@));
                    lemma_prefix_same(self.views_to_add@);
                    lemma_prefix_same(self.view_kinds@);
                    lemma_views_grow(
                        self.views_to_add@,
                        self.views_to_add@,
                        self.view_kinds@,
                        self.view_kinds@,
                        *store,
                        old(self).ids@,
                        self.ids@,
                        self.ts_now,
                        self.duplicator_uid,
                    );
                    lemma_closed_insert(
                        old(self).ids@,
                        self.collabs@,
                        pending,
                        publish_view_id@,
                        Some(new_view_id@),
                    );
                    lemma_tree_extends(
                        self.views_to_add@,
                        old(self).ids@,
                        self.ids@,
                        floating,
                        floating.insert(new_view_id@),
                    );
                    lemma_prefix_same(self.collabs@);
                    lemma_prefix_same(self.views_to_add@);
                    lemma_documents_grow(
                        self.collabs@,
                        self.collabs@,
                        *store,
                        old(self).ids@,
                        self.ids@,
                        self.views_to_add@,
                        self.views_to_add@,
                    );
                }
                let ghost recorded = *self;
                let r = match self.deep_copy_doc_txn(
                    store,
                    new_view_id,
                    publish_view_id,
                    published,
                    Ghost(pending),
                    Ghost(own),
                    Ghost(floating),
                ) {
                    Ok(view) => Ok(Some(view)),
                    Err(interrupt) => Err(interrupt),
                };
                proof {
                    if r is Ok {
                        assert(self.view_kinds@ =~= old(self).view_kinds@ + visit_hung(
                            *store,
                            publish_view_id@,
                            known_of(old(self).ids@),
                        ));
                    }
                    lemma_refs_extend_chain(old(self).ids@, recorded.ids@, self.ids@);
                    assert(recorded.ids@.contains_key(publish_view_id@));
                    lemma_continues_same(recorded, floor, own, true);
                    assert(recorded.continues(old(self), floor, own, true));
                    lemma_continues_chain(
                        *old(self),
                        recorded,
                        *self,
                        floor,
                        own,
                        true,
                        floor,
                        own,
                        true,
                        floor,
                        own,
                        true,
                    );
                }
                r
            },
            CollabType::Database => {
                let entry = match store.database(publish_view_id) {
                    Some(entry) => entry,
                    None => {
                        return Err(
                            Interrupt::Fetch(
                                FetchRequest {
                                    view_id: publish_view_id.clone(),
                                    collab_type: CollabType::Database,
                                },
                            ),
                        );
                    },
                };
                let published = match &entry.published {
                    Some(published) => published,
                    None => {
                        return Ok(None);
                    },
                };
                proof {
                    lemma_unused_beyond(*self, floor);
                }
                let new_db_id = self.draw();
                let ghost drawn_once = *self;
                proof {
                    lemma_prefix_push(old(self).ids.drawn(), new_db_id@);
                    lemma_prefix_same(old(self).collabs@);
                    lemma_prefix_same(old(self).views_to_add@);
                    lemma_prefix_same(old(self).collab_draws@);
                    lemma_prefix_same(old(self).view_draws@);
                    assert(drawn_once.continues(old(self), floor, own, true));
                    lemma_refs_extend_same(self.ids@);
                    lemma_tree_extends(
                        self.views_to_add@,
                        old(self).ids@,
                        self.ids@,
                        floating,
                        floating.insert(new_view_id@),
                    );
                    lemma_prefix_same(self.collabs@);
                    lemma_prefix_same(self.views_to_add@);
                    lemma_documents_grow(
                        self.collabs@,
                        self.collabs@,
                        *store,
                        old(self).ids@,
                        self.ids@,
                        self.views_to_add@,
                        self.views_to_add@,
                    );
                }
                let ghost fresh_view = new_view_id;
                let ghost fresh_database = new_db_id@;
                let copied = self.deep_copy_database_txn(
                    publish_view_id,
                    publish_view_id,
                    new_view_id,
                    new_db_id,
                    None,
                    published,
                    Ghost(floor),
                    Ghost(floating.insert(new_view_id@)),
                );
                proof {
                    lemma_continues_chain(
                        *old(self),
                        drawn_once,
                        *self,
                        floor,
                        own,
                        true,
                        floor,
                        own,
                        true,
                        floor + 1,
                        floor,
                        false,
                    );
                }
                match copied {
                    Ok(view) => {
                        proof {
                            let views = self.views_to_add@;
                            let kinds = self.view_kinds@;
                            let from = old(self).views_to_add@.len() as int;
                            let hung = database_hung(*published, publish_view_id@, false);
                            let copies = self.collabs@.last()->Database_views;
                            assert(views.subrange(from, from + hung.len()) =~= views.skip(from));
                            assert(kinds.subrange(from, from + hung.len()) =~= hung);
                            assert forall|j: int| from <= j < views.len() implies #[trigger] is_hung(
                                views,
                                kinds,
                                j,
                                *store,
                                self.ids@,
                                self.ts_now,
                                self.duplicator_uid,
                            ) by {
                                lemma_siblings_are_hung(
                                    views,
                                    kinds,
                                    from,
                                    *store,
                                    self.ids@,
                                    self.ts_now,
                                    self.duplicator_uid,
                                    *published,
                                    publish_view_id@,
                                    copy_ids(copies@),
                                    view.id@,
                                    false,
                                    j,
                                );
                            }
                            assert(kinds.take(from) =~= old(self).view_kinds@);
                            lemma_refs_extend_same(self.ids@);
                            lemma_views_grow(
                                old(self).views_to_add@,
                                views,
                                old(self).view_kinds@,
                                kinds,
                                *store,
                                self.ids@,
                                self.ids@,
                                self.ts_now,
                                self.duplicator_uid,
                            );
                            lemma_database_added(
                                drawn_once.collabs@,
                                old(self).views_to_add@,
                                old(self).view_kinds@,
                                *self,
                                view,
                                *published,
                                *publish_view_id,
                                fresh_view,
                                fresh_database,
                                drawn_once.ids.drawn().len() as int,
                                from,
                                Seq::<char>::empty(),
                                None,
                                *store,
                                views,
                                kinds,
                                0,
                            );
                            lemma_refs_extend_same(self.ids@);
                            lemma_documents_grow(
                                drawn_once.collabs@,
                                self.collabs@,
                                *store,
                                self.ids@,
                                self.ids@,
                                drawn_once.views_to_add@,
                                self.views_to_add@,
                            );
                            assert(self.ids.drawn().take(drawn_once.ids.drawn().len() as int)[floor]
                                == new_db_id@);
                            lemma_closed_grows(
                                self.ids@,
                                old(self).collabs@,
                                self.collabs@,
                                pending,
                                pending,
                            );
                        }
                        Ok(Some(view))
                    },
                    Err(e) => Err(Interrupt::Failed(e)),
                }
            },
            _ => Err(Interrupt::Failed(DuplicateError::record_not_found("collab type not supported"))),
        }
    }

    /// Copies the published document `published` under the identifier
    /// `new_view_id`, which was drawn at the position `own`: the pages it
    /// mentions, the databases its blocks show, and then the document
    /// itself.
    fn deep_copy_doc_txn(
        &mut self,
        store: &PublishedStore,
        new_view_id: String,
        publish_view_id: &String,
        published: &PublishedDocument,
        Ghost(pending): Ghost<Set<Seq<char>>>,
        Ghost(own): Ghost<int>,
        Ghost(floating): Ghost<Set<Seq<char>>>,
    ) -> (r: Result<FolderView, Interrupt>)
        requires
            old(self).wf(),
            closed_except(old(self).ids@, old(self).collabs@, pending.insert(publish_view_id@)),
            tree_holds(old(self).views_to_add@, old(self).ids@, floating.insert(new_view_id@)),
            documents_hold(old(self).collabs@, *store, old(self).ids@, old(self).views_to_add@),
            old(self).described(*store),
            old(self).ids@.contains_key(publish_view_id@),
            old(self).ids@[publish_view_id@] == Some(new_view_id@),
            store.document_answer(publish_view_id@) matches Some(entry) && entry.published == Some(
                *published,
            ),
            0 <= own < old(self).ids.drawn().len(),
            old(self).ids.drawn()[own] == new_view_id@,
            old(self).no_collab_from(own),
        ensures
            final(self).wf(),
            refs_extend(old(self).ids@, final(self).ids@),
            final(self).continues(old(self), old(self).ids.drawn().len() as int, own, true),
            match r {
                Ok(view) => view.id == new_view_id && document_copied(
                    *final(self),
                    view,
                    *store,
                    *published,
                    publish_view_id@,
                    new_view_id,
                    Seq::<char>::empty(),
                ) && closed_except(final(self).ids@, final(self).collabs@, pending) && tree_holds(
                    final(self).views_to_add@,
                    final(self).ids@,
                    floating.insert(new_view_id@),
                ) && children_known(view, final(self).ids@) && (documents_hold(
                    final(self).collabs@,
                    *store,
                    final(self).ids@,
                    final(self).views_to_add@,
                ) && final(self).described(*store)),
                Err(Interrupt::Fetch(request)) => store_lacks(*store, request),
                Err(Interrupt::Failed(e)) => e is RecordNotFound || e is Parse,
            },
            match visit_mentions(
                *store,
                blocks_mentions(published.data@.blocks),
                0,
                known_of(old(self).ids@),
            ) {
                Err(stop) => r matches Err(interrupt) && tells(interrupt, stop),
                Ok(after) => match blocks_stop(*store, published.data@.blocks, 0) {
                    Some(stop) => r matches Err(interrupt) && tells(interrupt, stop),
                    None => r is Ok && after == known_of(final(self).ids@),
                },
            },
            r is Ok ==> made_since(final(self).collabs@, old(self).collabs@.len() as int)
                == mentions_made(
                *store,
                blocks_mentions(published.data@.blocks),
                0,
                known_of(old(self).ids@),
            ) + blocks_made(*store, published.data@.blocks, 0) + seq![
                Made::Document { page: publish_view_id@ },
            ],
            r is Ok ==> final(self).view_kinds@ == old(self).view_kinds@ + mentions_hung(
                *store,
                blocks_mentions(published.data@.blocks),
                0,
                known_of(old(self).ids@),
                publish_view_id@,
            ) + blocks_hung(*store, published.data@.blocks, 0, publish_view_id@),
        decreases unresolved(store.documents@, old(self).ids@.dom()), 2nat,
    {
        let ghost floor = self.ids.drawn().len() as int;
        let mut ret_view = self.new_folder_view(
            new_view_id.clone(),
            &published.metadata.view,
            ViewLayout::Document,
        );
        let mut doc_data = clone_document(&published.data);
        let paged_result = self.deep_copy_doc_pages(
            store,
            &mut doc_data,
            &mut ret_view,
            Ghost(pending.insert(publish_view_id@)),
            Ghost(floating.insert(new_view_id@)),
            Ghost(publish_view_id@),
        );
        let ghost paged = *self;
        proof {
            lemma_continues_same(paged, floor, own, true);
            lemma_continues_chain(
                *old(self),
                paged,
                paged,
                floor,
                own,
                true,
                floor,
                floor,
                false,
                floor,
                own,
                true,
            );
        }
        match paged_result {
            Ok(()) => {},
            Err(interrupt) => {
                return Err(interrupt);
            },
        }
        let ghost rewritten = doc_data@;
        proof {
            lemma_blocks_stop_rewritten(*store, published.data@.blocks, paged.ids@, 0);
        }
        let linked_result = self.deep_copy_doc_databases(
            store,
            &mut doc_data,
            &ret_view,
            Ghost(floating.insert(new_view_id@)),
            Ghost(publish_view_id@),
        );
        let ghost placed = *self;
        proof {
            lemma_continues_chain(
                *old(self),
                paged,
                placed,
                floor,
                floor,
                false,
                floor,
                floor,
                false,
                paged.ids.drawn().len() as int,
                paged.ids.drawn().len() as int,
                false,
            );
            lemma_continues_same(placed, floor, own, true);
            lemma_continues_chain(
                *old(self),
                placed,
                placed,
                floor,
                own,
                true,
                floor,
                floor,
                false,
                floor,
                own,
                true,
            );
        }
        match linked_result {
            Ok(()) => {},
            Err(interrupt) => {
                return Err(interrupt);
            },
        }
        let collab = NewCollab::Document {
            object_id: ret_view.id.clone(),
            published_view_id: publish_view_id.clone(),
            data: doc_data,
        };
        proof {
            lemma_closed_grows(
                self.ids@,
                paged.collabs@,
                placed.collabs@,
                pending.insert(publish_view_id@),
                pending.insert(publish_view_id@),
            );
            assert(old(self).ids@.contains_key(publish_view_id@));
            lemma_closed_inserted(self.ids@, placed.collabs@, pending, collab);
            lemma_blocks_made_rewritten(*store, published.data@.blocks, paged.ids@, 0);
            lemma_blocks_hung_rewritten(*store, published.data@.blocks, paged.ids@, 0, publish_view_id@);
            lemma_made_split(paged.collabs@, placed.collabs@, old(self).collabs@.len() as int);
            lemma_made_push(placed.collabs@, collab, old(self).collabs@.len() as int);
            assert(blocks_of(doc_data.blocks@) == doc_data@.blocks);
            assert forall|j: int| 0 <= j < rewritten.blocks.len() implies block_outcome(
                *store,
                rewritten.blocks[j],
                #[trigger] doc_data@.blocks[j],
                placed.views_to_add@,
                ret_view.id@,
            ) by {
                assert(block_outcome(
                    *store,
                    rewritten.blocks[j],
                    doc_data.blocks@[j]@,
                    placed.views_to_add@,
                    ret_view.id@,
                ));
            }
            assert(placed.ids.drawn().take(floor)[own] == old(self).ids.drawn()[own]);
            assert forall|c: int| 0 <= c < placed.collab_draws@.len() implies #[trigger] placed.collab_draws@[c]
                != own by {
                if c < old(self).collab_draws@.len() {
                    assert(placed.collab_draws@.take(old(self).collab_draws@.len() as int)[c]
                        == old(self).collab_draws@[c]);
                }
            }
        }
        self.insert_collab_for_duplicator(collab, Ghost(own));
        proof {
            lemma_refs_extend_same(self.ids@);
            lemma_prefix_same(self.views_to_add@);
            lemma_prefix_same(self.view_kinds@);
            lemma_prefix_push(placed.collabs@, collab);
            assert forall|i: int| placed.collabs@.len() <= i < self.collabs@.len() implies #[trigger] is_database_copy(
                self.collabs@,
                i,
                *store,
                self.views_to_add@,
                self.view_kinds@,
            ) by {}
            lemma_databases_grow(
                placed.collabs@,
                self.collabs@,
                self.views_to_add@,
                self.views_to_add@,
                self.view_kinds@,
                self.view_kinds@,
                *store,
            );
            assert(is_document_copy(collab, *store, self.ids@, self.views_to_add@)) by {
                let entry = store.document_answer(publish_view_id@).unwrap();
                assert(entry.published == Some(*published));
                assert(collab->Document_published_view_id@ == publish_view_id@);
                assert(old(self).ids@.contains_key(publish_view_id@));
                assert(self.ids@.contains_key(publish_view_id@));
                assert(self.ids@[publish_view_id@] == Some(new_view_id@));
                assert(collab->Document_object_id@ == new_view_id@);
                assert(all_known(blocks_mentions(published.data@.blocks), self.ids@));
                assert(rewritten.blocks == rewrite_blocks(published.data@.blocks, self.ids@));
                assert(collab->Document_data@.blocks.len() == published.data@.blocks.len());
                assert(collab->Document_data@.text_map == rewrite_document(
                    published.data@,
                    self.ids@,
                ).text_map);
                if document_keyed(published.data@) {
                    lemma_copy_keyed(
                        published.data@,
                        collab->Document_data@,
                        *store,
                        self.ids@,
                        self.views_to_add@,
                        new_view_id@,
                    );
                }
            }
            assert forall|i: int| 0 <= i < self.collabs@.len() implies is_document_copy(
                #[trigger] self.collabs@[i],
                *store,
                self.ids@,
                self.views_to_add@,
            ) by {
                if i < placed.collabs@.len() {
                    assert(self.collabs@[i] == placed.collabs@[i]);
                }
            }
            lemma_prefix_same(placed.ids.drawn());
            lemma_prefix_same(placed.views_to_add@);
            lemma_prefix_same(placed.view_draws@);
            lemma_prefix_push(placed.collabs@, collab);
            lemma_prefix_push(placed.collab_draws@, own);
            assert(self.continues(&placed, floor, own, true));
            lemma_continues_chain(
                *old(self),
                placed,
                *self,
                floor,
                own,
                true,
                floor,
                own,
                true,
                floor,
                own,
                true,
            );
        }
        Ok(ret_view)
    }

    /// Copies the pages that a document mentions and rewrites the
    /// mentions.
    ///
    /// Each mentioned page that is not known yet is copied, if it is
    /// published, below `ret_view`, and marked as unpublished otherwise.
    /// `ret_view` gets a child for each mention of a page that has a copy.
    /// Then every mention of such a page, in the blocks and in the text
    /// map, is pointed at the copy.
    #[verifier::rlimit(60)]
    fn deep_copy_doc_pages(
        &mut self,
        store: &PublishedStore,
        doc_data: &mut DocumentData,
        ret_view: &mut FolderView,
        Ghost(pending): Ghost<Set<Seq<char>>>,
        Ghost(floating): Ghost<Set<Seq<char>>>,
        Ghost(page): Ghost<Seq<char>>,
    ) -> (r: Result<(), Interrupt>)
        requires
            old(self).wf(),
            closed_except(old(self).ids@, old(self).collabs@, pending),
            tree_holds(old(self).views_to_add@, old(self).ids@, floating),
            floating.contains(old(ret_view).id@),
            children_known(*old(ret_view), old(self).ids@),
            documents_hold(old(self).collabs@, *store, old(self).ids@, old(self).views_to_add@),
            old(self).described(*store),
            old(self).ids@.contains_key(page),
            old(self).ids@[page] == Some(old(ret_view).id@),
        ensures
            final(self).wf(),
            refs_extend(old(self).ids@, final(self).ids@),
            final(self).continues(
                old(self),
                old(self).ids.drawn().len() as int,
                old(self).ids.drawn().len() as int,
                false,
            ),
            same_but_children(*old(ret_view), *final(ret_view)),
            match r {
                Ok(()) => {
                    &&& final(doc_data)@ == rewrite_document(old(doc_data)@, final(self).ids@)
                    &&& all_known(blocks_mentions(old(doc_data)@.blocks), final(self).ids@)
                    &&& child_ids(final(ret_view).children@) == child_ids(old(ret_view).children@)
                        + mention_children(
                        blocks_mentions(old(doc_data)@.blocks),
                        final(self).ids@,
                    )
                    &&& closed_except(
                        final(self).ids@,
                        final(self).collabs@,
                        pending,
                    )
                    &&& tree_holds(final(self).views_to_add@, final(self).ids@, floating)
                    &&& children_known(*final(ret_view), final(self).ids@)
                    &&& (documents_hold(
                        final(self).collabs@,
                        *store,
                        final(self).ids@,
                        final(self).views_to_add@,
                    ) && final(self).described(*store))
                },
                Err(Interrupt::Fetch(request)) => store_lacks(*store, request),
                Err(Interrupt::Failed(e)) => e is RecordNotFound || e is Parse,
            },
            match r {
                Ok(()) => visit_mentions(
                    *store,
                    blocks_mentions(old(doc_data)@.blocks),
                    0,
                    known_of(old(self).ids@),
                ) == Ok::<Map<Seq<char>, bool>, Stop>(known_of(final(self).ids@)),
                Err(interrupt) => visit_mentions(
                    *store,
                    blocks_mentions(old(doc_data)@.blocks),
                    0,
                    known_of(old(self).ids@),
                ) matches Err(stop) && tells(interrupt, stop),
            },
            r is Ok ==> made_since(final(self).collabs@, old(self).collabs@.len() as int)
                == mentions_made(
                *store,
                blocks_mentions(old(doc_data)@.blocks),
                0,
                known_of(old(self).ids@),
            ),
            r is Ok ==> final(self).view_kinds@ == old(self).view_kinds@ + mentions_hung(
                *store,
                blocks_mentions(old(doc_data)@.blocks),
                0,
                known_of(old(self).ids@),
                page,
            ),
        decreases unresolved(store.documents@, old(self).ids@.dom()), 1nat,
    {
        let mentions = page_mentions(doc_data);
        let ghost all = texts(mentions@);
        let ghost floor = self.ids.drawn().len() as int;
        proof {
            lemma_continues_same(*self, floor, floor, false);
            assert(all.take(0).len() == 0);
            assert(child_ids(ret_view.children@) == child_ids(old(ret_view).children@)
                + mention_children(all.take(0), self.ids@));
            lemma_made_none(self.collabs@);
            assert(made_since(self.collabs@, self.collabs@.len() as int) + mentions_made(
                *store,
                all,
                0,
                known_of(self.ids@),
            ) =~= mentions_made(*store, all, 0, known_of(self.ids@)));
        }
        let mut k: usize = 0;
        while k < mentions.len()
            invariant
                0 <= k <= mentions.len(),
                all == texts(mentions@),
                all == blocks_mentions(old(doc_data)@.blocks),
                floor == old(self).ids.drawn().len(),
                *doc_data == *old(doc_data),
                self.wf(),
                refs_extend(old(self).ids@, self.ids@),
                self.continues(old(self), floor, floor, false),
                same_but_children(*old(ret_view), *ret_view),
                all_known(all.take(k as int), self.ids@),
                child_ids(ret_view.children@) == child_ids(old(ret_view).children@)
                    + mention_children(all.take(k as int), self.ids@),
                closed_except(self.ids@, self.collabs@, pending),
                tree_holds(self.views_to_add@, self.ids@, floating),
                floating.contains(ret_view.id@),
                children_known(*ret_view, self.ids@),
                documents_hold(self.collabs@, *store, self.ids@, self.views_to_add@),
                self.described(*store),
                visit_mentions(*store, all, 0, known_of(old(self).ids@)) == visit_mentions(
                    *store,
                    all,
                    k as int,
                    known_of(self.ids@),
                ),
                made_since(self.collabs@, old(self).collabs@.len() as int) + mentions_made(
                    *store,
                    all,
                    k as int,
                    known_of(self.ids@),
                ) == mentions_made(*store, all, 0, known_of(old(self).ids@)),
                self.ids@.contains_key(page),
                self.ids@[page] == Some(ret_view.id@),
                self.view_kinds@ + mentions_hung(*store, all, k as int, known_of(self.ids@), page)
                    == old(self).view_kinds@ + mentions_hung(
                    *store,
                    all,
                    0,
                    known_of(old(self).ids@),
                    page,
                ),
                unresolved(store.documents@, self.ids@.dom()) <= unresolved(
                    store.documents@,
                    old(self).ids@.dom(),
                ),
            decreases mentions.len() - k,
        {
            let page_id = &mentions[k];
            let ghost before = *self;
            let ghost children_before = ret_view.children@;
            proof {
                assert(all.take(k + 1).drop_last() == all.take(k as int));
                assert(all.take(k + 1).last() == page_id@);
                assert(all[k as int] == page_id@);
            }
            match self.ids.lookup(page_id) {
                Lookup::Pending(new_id) => {
                    proof {
                        lemma_child_ids_push(children_before, ViewIdentifier { id: new_id });
                        assert(self.ids@.contains_key(page_id@) && self.ids@[page_id@] == Some(
                            new_id@,
                        ));
                    }
                    ret_view.children.push(ViewIdentifier { id: new_id });
                    proof {
                        assert forall|c: int| 0 <= c < ret_view.children@.len() implies is_new_id(
                            self.ids@,
                            (#[trigger] ret_view.children@[c]).id@,
                        ) by {
                            if c < children_before.len() {
                                assert(ret_view.children@[c] == children_before[c]);
                            }
                        }
                    }
                },
                Lookup::Tombstone => {},
                Lookup::Unknown => {
                    let ghost own = self.ids.drawn().len() as int;
                    proof {
                        lemma_unused_beyond(before, own);
                    }
                    let new_id = self.draw();
                    let ghost drawn_once = *self;
                    proof {
                        lemma_prefix_push(before.ids.drawn(), new_id@);
                        lemma_prefix_same(before.collabs@);
                        lemma_prefix_same(before.views_to_add@);
                        lemma_prefix_same(before.collab_draws@);
                        lemma_prefix_same(before.view_draws@);
                        assert(drawn_once.continues(&before, floor, floor, false));
                    }
                    let copied = self.deep_copy_txn(
                        store,
                        new_id,
                        page_id,
                        CollabType::Document,
                        Ghost(pending),
                        Ghost(floating),
                    );
                    let ghost with_page = *self;
                    proof {
                        lemma_continues_chain(
                            before,
                            drawn_once,
                            with_page,
                            floor,
                            floor,
                            false,
                            floor,
                            floor,
                            false,
                            own + 1,
                            own,
                            true,
                        );
                        lemma_continues_on(*old(self), before, with_page, floor);
                    }
                    proof {
                        lemma_known_extends(before.ids@, with_page.ids@);
                        lemma_known_insert(before.ids@, page_id@, None);
                    }
                    match copied {
                        Err(interrupt) => {
                            proof {
                                lemma_refs_extend_chain(old(self).ids@, before.ids@, self.ids@);
                            }
                            return Err(interrupt);
                        },
                        Ok(Some(new_view)) => {
                            let mut new_view = new_view;
                            new_view.parent_view_id = ret_view.id.clone();
                            proof {
                                lemma_child_ids_push(
                                    children_before,
                                    ViewIdentifier { id: new_view.id },
                                );
                            }
                            let ghost view_before = *ret_view;
                            ret_view.children.push(ViewIdentifier { id: new_view.id.clone() });
                            self.ids.record(page_id, &new_view.id);
                            proof {
                                assert(self.ids@ =~= with_page.ids@);
                                assert(known_of(with_page.ids@).insert(page_id@, true) =~= known_of(
                                    with_page.ids@,
                                ));
                                lemma_children_known_grows(view_before, before.ids@, self.ids@);
                                assert(self.ids@.contains_key(page_id@) && self.ids@[page_id@] == Some(
                                    new_view.id@,
                                ));
                                assert forall|c: int| 0 <= c < ret_view.children@.len() implies is_new_id(
                                    self.ids@,
                                    (#[trigger] ret_view.children@[c]).id@,
                                ) by {
                                    if c < children_before.len() {
                                        assert(ret_view.children@[c] == view_before.children@[c]);
                                    }
                                }
                                assert(with_page.ids.drawn().take(drawn_once.ids.drawn().len() as int)[own]
                                    == new_id@);
                                assert forall|j: int|
                                    0 <= j < with_page.view_draws@.len() implies #[trigger] with_page.view_draws@[j]
                                    != own by {
                                    if j < before.view_draws@.len() {
                                        assert(with_page.view_draws@.take(
                                            drawn_once.view_draws@.len() as int,
                                        )[j] == before.view_draws@[j]);
                                    }
                                }
                                assert forall|c: int|
                                    0 <= c < with_page.collab_draws@.len() && !(with_page.collabs@[c]
                                        is Document) implies #[trigger] with_page.collab_draws@[c]
                                    != own by {
                                    if c < before.collab_draws@.len() {
                                        assert(with_page.collab_draws@.take(
                                            drawn_once.collab_draws@.len() as int,
                                        )[c] == before.collab_draws@[c]);
                                    }
                                }
                            }
                            let ghost recorded = *self;
                            self.add_view(
                                new_view,
                                Ghost(own),
                                Ghost(Hung::Page { page: page_id@, below: page }),
                            );
                            proof {
                                lemma_prefix_push(recorded.views_to_add@, new_view);
                                assert(self.views_to_add@[self.views_to_add@.len() - 1].id@ == new_id@);
                                assert(has_view(self.views_to_add@, new_id@));
                                lemma_tree_grows(
                                    recorded.views_to_add@,
                                    self.views_to_add@,
                                    self.ids@,
                                    floating.insert(new_id@),
                                    floating,
                                );
                                lemma_prefix_push(
                                    recorded.view_kinds@,
                                    Hung::Page { page: page_id@, below: page },
                                );
                                assert(before.ids@.contains_key(page));
                                assert(is_hung(
                                    self.views_to_add@,
                                    self.view_kinds@,
                                    recorded.views_to_add@.len() as int,
                                    *store,
                                    self.ids@,
                                    self.ts_now,
                                    self.duplicator_uid,
                                ));
                                lemma_views_grow(
                                    recorded.views_to_add@,
                                    self.views_to_add@,
                                    recorded.view_kinds@,
                                    self.view_kinds@,
                                    *store,
                                    self.ids@,
                                    self.ids@,
                                    self.ts_now,
                                    self.duplicator_uid,
                                );
                                lemma_refs_extend_same(self.ids@);
                                lemma_prefix_same(self.collabs@);
                                lemma_documents_grow(
                                    self.collabs@,
                                    self.collabs@,
                                    *store,
                                    self.ids@,
                                    self.ids@,
                                    recorded.views_to_add@,
                                    self.views_to_add@,
                                );
                                lemma_databases_grow(
                                    self.collabs@,
                                    self.collabs@,
                                    recorded.views_to_add@,
                                    self.views_to_add@,
                                    recorded.view_kinds@,
                                    self.view_kinds@,
                                    *store,
                                );
                                lemma_prefix_same(recorded.ids.drawn());
                                lemma_prefix_same(recorded.collabs@);
                                lemma_prefix_same(recorded.collab_draws@);
                                lemma_prefix_push(recorded.views_to_add@, new_view);
                                lemma_prefix_push(recorded.view_draws@, own);
                                assert(self.continues(&with_page, floor, floor, false));
                                lemma_continues_on(*old(self), with_page, *self, floor);
                            }
                        },
                        Ok(None) => {
                            self.ids.tombstone(page_id);
                            proof {
                                lemma_closed_insert(before.ids@, self.collabs@, pending, page_id@, None);
                                lemma_prefix_same(self.view_kinds@);
                                lemma_views_grow(
                                    self.views_to_add@,
                                    self.views_to_add@,
                                    self.view_kinds@,
                                    self.view_kinds@,
                                    *store,
                                    before.ids@,
                                    self.ids@,
                                    self.ts_now,
                                    self.duplicator_uid,
                                );
                                lemma_tree_extends(
                                    self.views_to_add@,
                                    before.ids@,
                                    self.ids@,
                                    floating,
                                    floating,
                                );
                                lemma_children_known_grows(*ret_view, before.ids@, self.ids@);
                                lemma_prefix_same(self.collabs@);
                                lemma_prefix_same(self.views_to_add@);
                                lemma_documents_grow(
                                    self.collabs@,
                                    self.collabs@,
                                    *store,
                                    before.ids@,
                                    self.ids@,
                                    self.views_to_add@,
                                    self.views_to_add@,
                                );
                                lemma_continues_same(with_page, floor, floor, false);
                                assert(self.continues(&with_page, floor, floor, false));
                                lemma_continues_on(*old(self), with_page, *self, floor);
                            }
                        },
                    }
                },
            }
            proof {
                assert(refs_extend(before.ids@, self.ids@));
                lemma_refs_extend_chain(old(self).ids@, before.ids@, self.ids@);
                lemma_children_stable(all.take(k as int), before.ids@, self.ids@);
                lemma_unresolved_shrinks(store.documents@, before.ids@.dom(), self.ids@.dom());
                if self.collabs@ == before.collabs@ {
                    lemma_prefix_same(before.collabs@);
                    lemma_made_none(self.collabs@);
                }
                lemma_made_split(before.collabs@, self.collabs@, old(self).collabs@.len() as int);
                let known = known_of(before.ids@);
                let added = made_since(self.collabs@, before.collabs@.len() as int);
                if known.contains_key(page_id@) {
                    assert(self.ids@ == before.ids@);
                    assert(added == Seq::<Made>::empty());
                    assert(self.view_kinds@ == before.view_kinds@);
                } else {
                    match visit(*store, page_id@, known) {
                        Ok((after, copied)) => {
                            assert(known.union_prefer_right(after).insert(page_id@, copied)
                                =~= known_of(self.ids@));
                            assert(added == visit_made(*store, page_id@, known));
                            assert(self.view_kinds@ =~= before.view_kinds@ + visit_hung(
                                *store,
                                page_id@,
                                known,
                            ) + (if copied {
                                seq![Hung::Page { page: page_id@, below: page }]
                            } else {
                                Seq::empty()
                            }));
                        },
                        Err(_) => {},
                    }
                }
                assert(self.view_kinds@ + mentions_hung(
                    *store,
                    all,
                    k + 1,
                    known_of(self.ids@),
                    page,
                ) =~= before.view_kinds@ + mentions_hung(*store, all, k as int, known, page));
                assert(made_since(self.collabs@, before.collabs@.len() as int) + mentions_made(
                    *store,
                    all,
                    k + 1,
                    known_of(self.ids@),
                ) =~= mentions_made(*store, all, k as int, known_of(before.ids@)));
                assert(made_since(self.collabs@, old(self).collabs@.len() as int) + mentions_made(
                    *store,
                    all,
                    k + 1,
                    known_of(self.ids@),
                ) =~= made_since(before.collabs@, old(self).collabs@.len() as int) + mentions_made(
                    *store,
                    all,
                    k as int,
                    known_of(before.ids@),
                ));
                assert forall|i: int| 0 <= i < all.take(k + 1).len() implies self.ids@.contains_key(
                    #[trigger] all.take(k + 1)[i],
                ) by {
                    if i < k {
                        assert(all.take(k as int)[i] == all.take(k + 1)[i]);
                    }
                }
            }
            k += 1;
        }
        proof {
            assert(all.take(mentions.len() as int) == all);
        }
        rewrite_page_mentions(doc_data, &self.ids);
        Ok(())
    }
}

/// The folder views of the siblings that a database copy has added are
/// what their kinds say.
proof fn lemma_siblings_are_hung(
    views: Seq<FolderView>,
    kinds: Seq<Hung>,
    from: int,
    store: PublishedStore,
    refs: Map<Seq<char>, Option<Seq<char>>>,
    ts_now: i64,
    uid: i64,
    published: PublishedDatabaseView,
    shown: Seq<char>,
    ids: Seq<String>,
    new_view_id: Seq<char>,
    embedded: bool,
    i: int,
)
    requires
        0 <= from,
        kinds.len() == views.len(),
        store.database_answer(shown) matches Some(entry) && entry.published == Some(published),
        from + database_hung(published, shown, embedded).len() <= views.len(),
        are_sibling_views(
            views.subrange(from, from + database_hung(published, shown, embedded).len()),
            kept_views(published, shown),
            ids,
            shown,
            new_view_id,
            all_infos(published.metadata),
            ts_now,
            uid,
        ),
        kinds.subrange(from, from + database_hung(published, shown, embedded).len())
            == database_hung(published, shown, embedded),
        from <= i < from + database_hung(published, shown, embedded).len(),
        embedded ==> from + database_hung(published, shown, embedded).len() < views.len() && views[from
            + database_hung(published, shown, embedded).len()].id@ == new_view_id,
    ensures
        is_hung(views, kinds, i, store, refs, ts_now, uid),
{
    let hung = database_hung(published, shown, embedded);
    let siblings = views.subrange(from, from + hung.len());
    let kept = kept_views(published, shown);
    lemma_sibling_infos(
        siblings,
        kept,
        ids,
        shown,
        new_view_id,
        all_infos(published.metadata),
        ts_now,
        uid,
    );
    let k = i - from;
    assert(siblings[k] == views[i]);
    assert(kinds.subrange(from, from + hung.len())[k] == kinds[i]);
    assert(sibling_positions(kept, shown)[k] >= 0);
}

} // verus!
