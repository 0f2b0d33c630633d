//! The copy of a published database within a run: its rows first, then
//! the database with its kept views under new identifiers.

use crate::database::{
    are_row_copies, are_sibling_views, copy_failure, is_view_copy, lemma_copy_failure_by_rows,
    lemma_sibling_ids, lemma_sibling_positions, main_layout, plain_copies, renumber_views,
    retained_views, select_views, sibling_positions, RenumberedViews, RowCopy, ViewCopy,
};
use crate::duplicator::{
    lemma_continues_chain, lemma_continues_on, lemma_continues_same, PublishCollabDuplicator,
};
use crate::error::DuplicateError;
use crate::folder::{
    all_infos, is_view_from_info, layout_of, pointees, view_info_by_view_id, FolderView,
};
use crate::ids::texts;
use crate::invariants::{
    databases_hold, is_block_link, is_database_copy, lemma_databases_grow, only_objects_since,
    tree_holds,
};
use crate::outcome::{database_hung, database_made, kept_views, made_since, Hung};
use crate::plan::NewCollab;
use crate::sequences::{is_prefix, lemma_prefix_push, lemma_prefix_same};
use crate::store::{PublishedDatabaseView, PublishedStore};
use vstd::prelude::*;

verus! {

/// The identifiers of the views of a database, in their order.
pub open spec fn copy_ids(copies: Seq<ViewCopy>) -> Seq<String> {
    Seq::new(copies.len(), |i: int| copies[i].view.id)
}

/// `collab` inserts the row `row` of the published view
/// `published_view_id` into the database `database_id`.
pub open spec fn is_row_collab(
    collab: NewCollab,
    row: RowCopy,
    published_view_id: String,
    database_id: String,
) -> bool {
    collab == (NewCollab::DatabaseRow {
        object_id: row.new_row_id,
        published_view_id,
        old_row_id: row.old_row_id,
        database_id,
    })
}

/// What a run has done when it has copied the database that `published`
/// shows: `after` is the run as it is, `view` the folder view that the
/// copy returns; `drawn`, `inserted` and `added` count the identifiers
/// drawn, the collabs to insert and the views to add before the copy.
///
/// The run has drawn one identifier for each published row and one for
/// each kept view, in this order.  It has added one row collab for each
/// published row and then the database collab under `new_db_id`, which
/// holds the rows with their new identifiers and the kept views,
/// renumbered; a view other than the duplicated one goes by the
/// identifier drawn for it.  Each such view has a folder view below
/// `new_view_id` among the views to add, and the new database is linked to
/// the views of the copy.
pub open spec fn database_copied(
    after: PublishCollabDuplicator,
    view: FolderView,
    published: PublishedDatabaseView,
    published_view_id: String,
    old_view_id: Seq<char>,
    new_view_id: String,
    new_db_id: Seq<char>,
    drawn: int,
    inserted: int,
    added: int,
    parent: Seq<char>,
    block_view: Option<Seq<char>>,
) -> bool {
    let row_ids = published.database.row_ids@;
    let infos = all_infos(published.metadata);
    &&& published.database.views matches Some(views)
    &&& {
        let kept = retained_views(
            views@,
            old_view_id,
            texts(published.database.visible_database_view_ids@),
        );
        &&& kept.len() > 0
        &&& 0 <= drawn
        &&& 0 <= inserted
        &&& 0 <= added <= after.views_to_add@.len()
        &&& after.ids.drawn().len() == drawn + row_ids.len() + kept.len()
        &&& after.collabs@.len() == inserted + row_ids.len() + 1
        &&& after.collabs@.last() matches NewCollab::Database {
            object_id,
            published_view_id: source,
            rows,
            views: copies,
            linked_views,
        }
        &&& texts(linked_views@) == texts(copy_ids(copies@)) + match block_view {
            Some(block_view_id) => seq![block_view_id],
            None => Seq::empty(),
        }
        &&& object_id@ == new_db_id
        &&& source == published_view_id
        &&& are_row_copies(rows@, row_ids)
        &&& forall|i: int|
            0 <= i < row_ids.len() ==> (#[trigger] rows@[i]).new_row_id@ == after.ids.drawn()[drawn
                + i] && is_row_collab(after.collabs@[inserted + i], rows@[i], published_view_id, object_id)
        &&& copy_failure(kept, old_view_id, infos, rows@) is None
        &&& copies@.len() == kept.len()
        &&& forall|i: int|
            0 <= i < kept.len() ==> is_view_copy(
                #[trigger] copies@[i],
                kept[i],
                copies@[i].view.id,
                old_view_id,
                new_view_id,
                object_id,
                rows@,
            ) && (kept[i].id@ != old_view_id ==> copies@[i].view.id@ == after.ids.drawn()[drawn
                + row_ids.len() + i])
        &&& is_view_from_info(
            view,
            new_view_id,
            published.metadata.view,
            layout_of(main_layout(kept, old_view_id).unwrap()),
            after.ts_now,
            after.duplicator_uid,
            parent,
        )
        &&& are_sibling_views(
            after.views_to_add@.skip(added),
            kept,
            copy_ids(copies@),
            old_view_id,
            new_view_id@,
            infos,
            after.ts_now,
            after.duplicator_uid,
        )
    }
}

/// `after` is `before` with one row collab for each of `row_ids`, in their
/// order, each for the published view `published_view_id` and in the
/// database `database_id`.
pub open spec fn are_rows_added(
    before: Seq<NewCollab>,
    after: Seq<NewCollab>,
    row_ids: Seq<String>,
    published_view_id: String,
    database_id: String,
) -> bool {
    &&& is_prefix(before, after)
    &&& after.len() == before.len() + row_ids.len()
    &&& forall|i: int|
        0 <= i < row_ids.len() ==> (#[trigger] after[before.len() + i]) is DatabaseRow
            && after[before.len() + i]->DatabaseRow_published_view_id == published_view_id
            && after[before.len() + i]->DatabaseRow_old_row_id == row_ids[i]
            && after[before.len() + i]->DatabaseRow_database_id == database_id
}

/// Why the database that `published` shows cannot be copied for the view
/// `old_view_id`, if it cannot: it holds no list of views, none of its
/// views is kept, or the kept views cannot be renumbered.
pub open spec fn database_failure(published: PublishedDatabaseView, old_view_id: Seq<char>) -> Option<
    Seq<char>,
> {
    match published.database.views {
        None => Some("no views found in database"@),
        Some(views) => {
            let kept = retained_views(
                views@,
                old_view_id,
                texts(published.database.visible_database_view_ids@),
            );
            if kept.len() == 0 {
                Some("no (visible) views found in database"@)
            } else {
                copy_failure(
                    kept,
                    old_view_id,
                    all_infos(published.metadata),
                    plain_copies(published.database.row_ids@),
                )
            }
        },
    }
}

/// The databases among the collabs stay copies of published databases
/// when a run copies the database that the record holds for
/// `published_view_id`: `before` are the collabs, and `before_views` with
/// `before_kinds` the views, from before the copy; `after` is the run
/// right after it, and `views` with `kinds` are the views thereafter.
/// Where a block shows the copy, the view of the block stands at `j`,
/// right after the folder view of the copy.
pub proof fn lemma_database_added(
    before: Seq<NewCollab>,
    before_views: Seq<FolderView>,
    before_kinds: Seq<Hung>,
    after: PublishCollabDuplicator,
    view: FolderView,
    published: PublishedDatabaseView,
    published_view_id: String,
    new_view_id: String,
    new_db_id: Seq<char>,
    drawn: int,
    added: int,
    parent: Seq<char>,
    block_view: Option<Seq<char>>,
    store: PublishedStore,
    views: Seq<FolderView>,
    kinds: Seq<Hung>,
    j: int,
)
    requires
        databases_hold(before, store, before_views, before_kinds),
        is_prefix(before, after.collabs@),
        is_prefix(before_views, views),
        is_prefix(before_kinds, kinds),
        database_copied(
            after,
            view,
            published,
            published_view_id,
            published_view_id@,
            new_view_id,
            new_db_id,
            drawn,
            before.len() as int,
            added,
            parent,
            block_view,
        ),
        store.database_answer(published_view_id@) matches Some(entry) && entry.published == Some(
            published,
        ),
        block_view matches Some(block_view_id) ==> 0 < j < views.len() && j < kinds.len() && kinds[j]
            == (Hung::Block { view: published_view_id@ }) && views[j].id@ == block_view_id
            && views[j - 1].id@ == new_view_id@ && added <= j - 1 && views.subrange(added, j - 1)
            == after.views_to_add@.skip(added),
    ensures
        databases_hold(after.collabs@, store, views, kinds),
{
    let collabs = after.collabs@;
    let row_ids = published.database.row_ids@;
    let inserted = before.len() as int;
    let last = collabs.len() - 1;
    assert forall|i: int| before.len() <= i < collabs.len() implies #[trigger] is_database_copy(
        collabs,
        i,
        store,
        views,
        kinds,
    ) by {
        match collabs.last() {
            NewCollab::Database { object_id, published_view_id: source, rows, views: copies, linked_views } => {
                if i < last {
                    assert(is_row_collab(
                        collabs[inserted + (i - inserted)],
                        rows@[i - inserted],
                        published_view_id,
                        object_id,
                    ));
                } else {
                    let kept = kept_views(published, published_view_id@);
                    assert(texts(linked_views@).len() == linked_views@.len());
                    assert(texts(copy_ids(copies@)).len() == copies@.len());
                    assert(texts(linked_views@).take(copies@.len() as int) =~= texts(
                        copy_ids(copies@),
                    ));
                    assert forall|k: int| 0 <= k < row_ids.len() implies is_row_collab(
                        collabs[i - row_ids.len() + k],
                        #[trigger] rows@[k],
                        source,
                        object_id,
                    ) by {
                        assert(i - row_ids.len() + k == inserted + k);
                    }
                    assert forall|k: int| 0 <= k < kept.len() implies is_view_copy(
                        #[trigger] copies@[k],
                        kept[k],
                        copies@[k].view.id,
                        published_view_id@,
                        copies@[k].view.id,
                        object_id,
                        rows@,
                    ) by {
                        assert(is_view_copy(
                            copies@[k],
                            kept[k],
                            copies@[k].view.id,
                            published_view_id@,
                            new_view_id,
                            object_id,
                            rows@,
                        ));
                    }
                    if linked_views@.len() == copies@.len() + 1 {
                        assert(block_view is Some);
                        assert(texts(linked_views@).last() == block_view.unwrap());
                        assert(linked_views@.last()@ == texts(linked_views@).last());
                        assert forall|k: int|
                            0 <= k < copies@.len() && (#[trigger] copies@[k]).old_view_id@
                                == published_view_id@ implies copies@[k].view.id@ == views[j - 1].id@ by {
                            assert(is_view_copy(
                                copies@[k],
                                kept[k],
                                copies@[k].view.id,
                                published_view_id@,
                                new_view_id,
                                object_id,
                                rows@,
                            ));
                        }
                        let siblings = after.views_to_add@.skip(added);
                        let positions = sibling_positions(kept, published_view_id@);
                        lemma_sibling_positions(
                            siblings,
                            kept,
                            copy_ids(copies@),
                            published_view_id@,
                            new_view_id@,
                            all_infos(published.metadata),
                            after.ts_now,
                            after.duplicator_uid,
                        );
                        assert forall|k: int| 0 <= k < positions.len() implies 0
                            <= #[trigger] positions[k] < copies@.len() && views[j - 1 - positions.len()
                            + k].id@ == copies@[positions[k]].view.id@ by {
                            assert(views.subrange(added, j - 1)[k] == siblings[k]);
                            assert(siblings[k].id == copy_ids(copies@)[positions[k]]);
                        }
                        assert(is_block_link(
                            copies@,
                            kept,
                            published_view_id@,
                            linked_views@.last()@,
                            views,
                            kinds,
                            j,
                        ));
                    }
                }
            },
            _ => {},
        }
    }
    lemma_databases_grow(before, collabs, before_views, views, before_kinds, kinds, store);
}

impl PublishCollabDuplicator {
    /// Draws a new identifier for each published row and adds the row's
    /// collab to those to insert.
    fn copy_rows(&mut self, published_view_id: &String, row_ids: &Vec<String>, new_db_id: &String) -> (rows:
        Vec<RowCopy>)
        requires
            old(self).wf(),
        ensures
            final(self).wf(),
            final(self).ids@ == old(self).ids@,
            final(self).views_to_add == old(self).views_to_add,
            final(self).view_draws == old(self).view_draws,
            final(self).view_kinds == old(self).view_kinds,
            final(self).workspace_databases == old(self).workspace_databases,
            final(self).continues(
                old(self),
                old(self).ids.drawn().len() as int,
                old(self).ids.drawn().len() as int,
                false,
            ),
            are_row_copies(rows@, row_ids@),
            only_objects_since(final(self).collabs@, old(self).collabs@.len() as int),
            final(self).ids.drawn().len() == old(self).ids.drawn().len() + row_ids.len(),
            final(self).collabs@.len() == old(self).collabs@.len() + row_ids.len(),
            forall|i: int|
                0 <= i < row_ids.len() ==> (#[trigger] rows@[i]).new_row_id@
                    == final(self).ids.drawn()[old(self).ids.drawn().len() + i] && is_row_collab(
                    final(self).collabs@[old(self).collabs@.len() + i],
                    rows@[i],
                    *published_view_id,
                    *new_db_id,
                ),
    {
        let mut rows: Vec<RowCopy> = Vec::new();
        let mut i: usize = 0;
        let ghost drawn = self.ids.drawn().len() as int;
        let ghost inserted = self.collabs@.len() as int;
        proof {
            lemma_continues_same(*self, drawn, drawn, false);
        }
        while i < row_ids.len()
            invariant
                0 <= i <= row_ids.len(),
                self.wf(),
                self.ids@ == old(self).ids@,
                self.views_to_add == old(self).views_to_add,
                self.view_draws == old(self).view_draws,
                self.view_kinds == old(self).view_kinds,
                self.workspace_databases == old(self).workspace_databases,
                self.continues(old(self), drawn, drawn, false),
                drawn == old(self).ids.drawn().len(),
                inserted == old(self).collabs@.len(),
                rows@.len() == i,
                forall|j: int| 0 <= j < i ==> (#[trigger] rows@[j]).old_row_id == row_ids@[j],
                self.ids.drawn().len() == drawn + i,
                self.collabs@.len() == inserted + i,
                only_objects_since(self.collabs@, inserted),
                forall|j: int|
                    0 <= j < i ==> (#[trigger] rows@[j]).new_row_id@ == self.ids.drawn()[drawn + j]
                        && is_row_collab(
                        self.collabs@[inserted + j],
                        rows@[j],
                        *published_view_id,
                        *new_db_id,
                    ),
            decreases row_ids.len() - i,
        {
            let ghost before = *self;
            let new_row_id = self.draw();
            let row = RowCopy { old_row_id: row_ids[i].clone(), new_row_id: new_row_id.clone() };
            self.insert_collab_for_duplicator(
                NewCollab::DatabaseRow {
                    object_id: new_row_id,
                    published_view_id: published_view_id.clone(),
                    old_row_id: row_ids[i].clone(),
                    database_id: new_db_id.clone(),
                },
                Ghost(drawn + i),
            );
            rows.push(row);
            proof {
                lemma_prefix_push(before.ids.drawn(), new_row_id@);
                lemma_prefix_push(before.collabs@, self.collabs@.last());
                lemma_prefix_push(before.collab_draws@, drawn + i);
                lemma_continues_on(*old(self), before, *self, drawn);
            }
            i += 1;
        }
        rows
    }

    /// Copies the database that `published` shows, for the view
    /// `old_view_id` of it: the rows first, then the database with its
    /// kept views under new identifiers.  Returns the folder view of the
    /// duplicated view, without a parent.  `new_db_id` is the identifier
    /// drawn at the position `db_at`, which nothing goes by yet.  Where a
    /// block of a document shows the database, `block_view` is the
    /// identifier of the block's view, which the database is linked to
    /// beside the views of the copy.  Where the copy fails, only the row
    /// collabs are added.
    pub(crate) fn deep_copy_database_txn(
        &mut self,
        published_view_id: &String,
        old_view_id: &String,
        new_view_id: String,
        new_db_id: String,
        block_view: Option<String>,
        published: &PublishedDatabaseView,
        Ghost(db_at): Ghost<int>,
        Ghost(floating): Ghost<Set<Seq<char>>>,
    ) -> (r: Result<FolderView, DuplicateError>)
        requires
            old(self).wf(),
            0 <= db_at < old(self).ids.drawn().len(),
            old(self).ids.drawn()[db_at] == new_db_id@,
            old(self).no_collab_from(db_at),
            old(self).no_view_from(db_at),
            tree_holds(old(self).views_to_add@, old(self).ids@, floating),
            floating.contains(new_view_id@),
        ensures
            final(self).wf(),
            final(self).ids@ == old(self).ids@,
            final(self).continues(old(self), old(self).ids.drawn().len() as int, db_at, false),
            only_objects_since(final(self).collabs@, old(self).collabs@.len() as int),
            r is Ok ==> tree_holds(final(self).views_to_add@, final(self).ids@, floating),
            match r {
                Ok(view) => database_copied(
                    *final(self),
                    view,
                    *published,
                    *published_view_id,
                    old_view_id@,
                    new_view_id,
                    new_db_id@,
                    old(self).ids.drawn().len() as int,
                    old(self).collabs@.len() as int,
                    old(self).views_to_add@.len() as int,
                    Seq::<char>::empty(),
                    crate::ids::opt_text(block_view),
                ),
                Err(e) => {
                    &&& e is RecordNotFound
                    &&& database_failure(*published, old_view_id@) == Some(e.text())
                    &&& final(self).views_to_add == old(self).views_to_add
                    &&& final(self).view_draws == old(self).view_draws
                    &&& final(self).view_kinds == old(self).view_kinds
                    &&& final(self).workspace_databases == old(self).workspace_databases
                    &&& are_rows_added(
                        old(self).collabs@,
                        final(self).collabs@,
                        published.database.row_ids@,
                        *published_view_id,
                        new_db_id,
                    )
                },
            },
            r is Ok <==> database_failure(*published, old_view_id@) is None,
            r is Ok ==> made_since(final(self).collabs@, old(self).collabs@.len() as int)
                == database_made(*published, published_view_id@, block_view is Some),
            r is Ok ==> final(self).view_kinds@ == old(self).view_kinds@ + database_hung(
                *published,
                old_view_id@,
                block_view is Some,
            ),
    {
        let ghost drawn = self.ids.drawn().len() as int;
        let ghost inserted = self.collabs@.len() as int;
        let ghost added = self.views_to_add@.len() as int;
        let rows = self.copy_rows(published_view_id, &published.database.row_ids, &new_db_id);
        let ghost with_rows = *self;
        proof {
            lemma_continues_same(with_rows, drawn, db_at, false);
            assert forall|k: int| 0 <= k < published.database.row_ids@.len() implies (
            #[trigger] with_rows.collabs@[inserted + k]) is DatabaseRow
                && with_rows.collabs@[inserted + k]->DatabaseRow_published_view_id
                == *published_view_id && with_rows.collabs@[inserted + k]->DatabaseRow_old_row_id
                == published.database.row_ids@[k]
                && with_rows.collabs@[inserted + k]->DatabaseRow_database_id == new_db_id by {
                assert(is_row_collab(
                    with_rows.collabs@[inserted + k],
                    rows@[k],
                    *published_view_id,
                    new_db_id,
                ));
            }
            assert(are_rows_added(
                old(self).collabs@,
                with_rows.collabs@,
                published.database.row_ids@,
                *published_view_id,
                new_db_id,
            ));
        }
        let views = match &published.database.views {
            Some(views) => views,
            None => {

                return Err(DuplicateError::record_not_found("no views found in database"));
            },
        };
        let kept = select_views(views, old_view_id, &published.database.visible_database_view_ids);
        if kept.len() == 0 {
            return Err(DuplicateError::record_not_found("no (visible) views found in database"));
        }
        let ghost base = self.ids.drawn().len() as int;
        let fresh = self.draw_ids(kept.len());
        let ghost with_ids = *self;
        proof {
            assert(with_ids.ids.drawn().take(base) == with_rows.ids.drawn());
            lemma_continues_chain(
                *old(self),
                with_rows,
                with_ids,
                drawn,
                db_at,
                false,
                drawn,
                db_at,
                false,
                drawn,
                drawn,
                false,
            );
        }
        let infos = view_info_by_view_id(&published.metadata);
        proof {
            lemma_copy_failure_by_rows(
                pointees(kept@),
                old_view_id@,
                pointees(infos@),
                rows@,
                plain_copies(published.database.row_ids@),
                published.database.row_ids@,
            );
        }
        let out = match renumber_views(
            &kept,
            &infos,
            &published.metadata.view,
            old_view_id,
            &new_view_id,
            &new_db_id,
            &rows,
            &fresh,
            self.ts_now,
            self.duplicator_uid,
        ) {
            Ok(out) => out,
            Err(e) => {
                return Err(e);
            },
        };
        let ghost all_kept = pointees(kept@);
        let ghost known = pointees(infos@);
        let mut view_ids: Vec<String> = Vec::new();
        let mut i: usize = 0;
        while i < out.views.len()
            invariant
                0 <= i <= out.views.len(),
                view_ids@.len() == i,
                forall|j: int| 0 <= j < i ==> #[trigger] view_ids@[j] == out.views@[j].view.id,
            decreases out.views.len() - i,
        {
            view_ids.push(out.views[i].view.id.clone());
            i += 1;
        }
        let ghost positions = sibling_positions(all_kept, old_view_id@);
        proof {
            assert(view_ids@ == copy_ids(out.views@));
            assert(texts(view_ids@) + Seq::<Seq<char>>::empty() == texts(view_ids@));
        }
        match block_view {
            Some(block_view_id) => {
                proof {
                    assert(texts(view_ids@.push(block_view_id)) == texts(view_ids@) + seq![
                        block_view_id@,
                    ]);
                }
                view_ids.push(block_view_id);
            },
            None => {},
        }
        proof {
            lemma_sibling_positions(
                out.sibling_views@,
                all_kept,
                fresh@,
                old_view_id@,
                new_view_id@,
                known,
                self.ts_now,
                self.duplicator_uid,
            );
            lemma_sibling_ids(
                out.sibling_views@,
                all_kept,
                fresh@,
                copy_ids(out.views@),
                old_view_id@,
                new_view_id@,
                known,
                self.ts_now,
                self.duplicator_uid,
            );
        }
        let RenumberedViews { views: copies, selected_view, sibling_views } = out;
        let mut sibling_views = sibling_views;
        let ghost siblings = sibling_views@;
        let ghost sibling_draws = Seq::new(siblings.len(), |k: int| base + positions[k]);
        self.views_to_add.append(&mut sibling_views);
        self.view_draws = Ghost(self.view_draws@ + sibling_draws);
        self.view_kinds = Ghost(
            self.view_kinds@ + database_hung(*published, old_view_id@, block_view is Some),
        );
        let ghost with_views = *self;
        proof {
            lemma_prefix_same(with_ids.ids.drawn());
            assert(with_views.views_to_add@.take(added) == with_ids.views_to_add@);
            assert(with_views.view_draws@.take(added) =~= with_ids.view_draws@);
        }
        self.insert_collab_for_duplicator(
            NewCollab::Database {
                object_id: new_db_id,
                published_view_id: published_view_id.clone(),
                rows,
                views: copies,
                linked_views: view_ids,
            },
            Ghost(db_at),
        );
        proof {
            let collab = self.collabs@.last();
            lemma_prefix_same(with_views.views_to_add@);
            lemma_prefix_same(with_views.view_draws@);
            lemma_prefix_push(with_views.collabs@, collab);
            lemma_prefix_push(with_views.collab_draws@, db_at);
            lemma_continues_chain(
                *old(self),
                with_views,
                *self,
                drawn,
                db_at,
                false,
                drawn,
                db_at,
                false,
                drawn,
                db_at,
                false,
            );
            assert(self.views_to_add@.skip(added) == siblings);
            let made = made_since(self.collabs@, inserted);
            let wanted = database_made(*published, published_view_id@, block_view is Some);
            assert(made.len() == wanted.len());
            assert forall|k: int| 0 <= k < made.len() implies made[k] == wanted[k] by {
                assert(self.collabs@.skip(inserted)[k] == self.collabs@[inserted + k]);
                if k < published.database.row_ids@.len() {
                    assert(with_rows.collabs@[inserted + k] == self.collabs@[inserted + k]);
                }
            }
            assert(made =~= wanted);
        }
        Ok(selected_view)
    }
}

} // verus!
