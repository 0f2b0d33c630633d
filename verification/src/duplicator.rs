//! The duplication run: its state, and the deep copy of a published view
//! with everything it refers to.

use crate::database::{clone_ids, links_model, set_links, DatabaseLinks};
use crate::database_copy::{database_copied, database_failure};
use crate::document_copy::document_copied;
use crate::error::DuplicateError;
use crate::folder::{
    folder_view_from_info, is_stamped, is_view_from_info, FolderView, PublishViewInfo, ViewLayout,
};
use crate::ids::{texts, uuid_parse_result, IdRewriter};
use crate::invariants::{closed_except, databases_hold, documents_hold, store_lacks, views_hold};
use crate::outcome::{
    database_hung, database_made, document_run_end, ends_with, known_of, made_since, visit,
    visit_hung, visit_made, Hung, Stop,
};
use crate::plan::{
    final_steps, links_of, msg_id_at, Duplication, FinalStep, Interrupt, NewCollab, RealtimeUser,
    RunOutcome, UpdateSync,
};
use crate::sequences::{is_prefix, lemma_prefix_chain, lemma_prefix_same};
use crate::store::{CollabType, PublishedDatabaseView, PublishedStore};
use vstd::prelude::*;

verus! {

/// Reads the clock with `chrono::Utc::now` and gives the seconds since the
/// epoch, as `DateTime::timestamp` counts them.  Nothing is promised of
/// the number.
#[verifier::external_body]
fn current_timestamp() -> i64 {
    chrono::Utc::now().timestamp()
}

/// The state of one duplication run.
pub struct PublishCollabDuplicator {
    /// The old view identifiers that were met, each with the new one or
    /// with the mark that the view is not published; and every identifier
    /// drawn in this run.
    pub ids: IdRewriter,
    /// The views to add to the destination folder, the root apart.
    pub views_to_add: Vec<FolderView>,
    /// For each new database, the views that show it.
    pub workspace_databases: Vec<DatabaseLinks>,
    /// The collabs to insert, in the order of insertion.
    pub collabs: Vec<NewCollab>,
    /// The time of the duplication.
    pub ts_now: i64,
    /// The user who duplicates.
    pub duplicator_uid: i64,
    /// The workspace to duplicate into.
    pub dest_workspace_id: String,
    /// The view of that workspace below which the duplicate is put.
    pub dest_view_id: String,
    /// For each collab to insert, the position in the record of draws of
    /// the draw that gave its identifier.
    pub collab_draws: Ghost<Seq<int>>,
    /// For each view to add, the position in the record of draws of the
    /// draw that gave its identifier.
    pub view_draws: Ghost<Seq<int>>,
    /// For each view to add, what it stands for.
    pub view_kinds: Ghost<Seq<Hung>>,
}

impl PublishCollabDuplicator {
    /// The run's invariant: every collab to insert and every view to add
    /// goes by an identifier that was drawn in this run, and no draw
    /// serves two collabs, two views, or a view and a collab other than a
    /// document.  A document and its view share their identifier.
    pub open spec fn wf(&self) -> bool {
        let drawn = self.ids.drawn();
        let collab_draws = self.collab_draws@;
        let view_draws = self.view_draws@;
        &&& self.ids.wf()
        &&& collab_draws.len() == self.collabs@.len()
        &&& view_draws.len() == self.views_to_add@.len()
        &&& self.view_kinds@.len() == self.views_to_add@.len()
        &&& forall|i: int|
            0 <= i < collab_draws.len() ==> 0 <= #[trigger] collab_draws[i] < drawn.len()
                && drawn[collab_draws[i]] == self.collabs@[i].object_id()@
        &&& forall|i: int|
            0 <= i < view_draws.len() ==> 0 <= #[trigger] view_draws[i] < drawn.len()
                && drawn[view_draws[i]] == self.views_to_add@[i].id@
        &&& forall|i: int, j: int|
            0 <= i < j < collab_draws.len() ==> #[trigger] collab_draws[i]
                != #[trigger] collab_draws[j]
        &&& forall|i: int, j: int|
            0 <= i < j < view_draws.len() ==> #[trigger] view_draws[i] != #[trigger] view_draws[j]
        &&& forall|i: int, j: int|
            0 <= i < collab_draws.len() && 0 <= j < view_draws.len() && !(self.collabs@[i]
                is Document) ==> #[trigger] collab_draws[i] != #[trigger] view_draws[j]
        &&& forall|i: int|
            0 <= i < self.views_to_add@.len() ==> is_stamped(
                #[trigger] self.views_to_add@[i],
                self.ts_now,
                self.duplicator_uid,
            )
        &&& links_model(self.workspace_databases@) == links_of(self.collabs@)
    }

    /// Every view to add is what its kind says, and every database to
    /// insert is the copy of a published one, as the record of the publish
    /// store and the mapping have it.
    pub open spec fn described(&self, store: PublishedStore) -> bool {
        &&& views_hold(
            self.views_to_add@,
            self.view_kinds@,
            store,
            self.ids@,
            self.ts_now,
            self.duplicator_uid,
        )
        &&& databases_hold(self.collabs@, store, self.views_to_add@, self.view_kinds@)
    }

    /// No collab to insert goes by the identifier of the draw at the
    /// position `at`.
    pub open spec fn no_collab_from(&self, at: int) -> bool {
        forall|i: int| 0 <= i < self.collab_draws@.len() ==> #[trigger] self.collab_draws@[i] != at
    }

    /// No view to add goes by the identifier of the draw at the position
    /// `at`.
    pub open spec fn no_view_from(&self, at: int) -> bool {
        forall|i: int| 0 <= i < self.view_draws@.len() ==> #[trigger] self.view_draws@[i] != at
    }

    /// No collab to insert other than a document goes by the identifier
    /// of the draw at the position `at`.
    pub open spec fn no_object_from(&self, at: int) -> bool {
        forall|i: int|
            0 <= i < self.collab_draws@.len() && !(self.collabs@[i] is Document)
                ==> #[trigger] self.collab_draws@[i] != at
    }

    /// The collabs to insert, the views to add and the databases to link
    /// are those of `other`.
    pub open spec fn same_output(&self, other: &PublishCollabDuplicator) -> bool {
        &&& self.collabs == other.collabs
        &&& self.views_to_add == other.views_to_add
        &&& self.workspace_databases == other.workspace_databases
        &&& self.collab_draws == other.collab_draws
        &&& self.view_draws == other.view_draws
        &&& self.view_kinds == other.view_kinds
    }

    /// The run has gone on from `earlier`: it has drawn more, and it has
    /// added collabs and views.  The collabs added since go by identifiers
    /// drawn at the position `floor` or later, or by the one drawn at
    /// `own`, which then is a document's where `own_document` says so; the
    /// views added since go by identifiers drawn at `floor` or later.
    pub open spec fn continues(
        &self,
        earlier: &PublishCollabDuplicator,
        floor: int,
        own: int,
        own_document: bool,
    ) -> bool {
        &&& self.same_settings(earlier)
        &&& earlier.collab_draws@.len() == earlier.collabs@.len()
        &&& self.collab_draws@.len() == self.collabs@.len()
        &&& is_prefix(earlier.ids.drawn(), self.ids.drawn())
        &&& is_prefix(earlier.collabs@, self.collabs@)
        &&& is_prefix(earlier.views_to_add@, self.views_to_add@)
        &&& is_prefix(earlier.collab_draws@, self.collab_draws@)
        &&& is_prefix(earlier.view_draws@, self.view_draws@)
        &&& forall|i: int|
            earlier.collab_draws@.len() <= i < self.collab_draws@.len() ==> #[trigger] self.collab_draws@[i]
                >= floor || (self.collab_draws@[i] == own && (own_document ==> self.collabs@[i]
                is Document))
        &&& forall|i: int|
            earlier.view_draws@.len() <= i < self.view_draws@.len() ==> #[trigger] self.view_draws@[i]
                >= floor
    }

    /// The destination, the user and the time are those of `other`.
    pub open spec fn same_settings(&self, other: &PublishCollabDuplicator) -> bool {
        &&& self.ts_now == other.ts_now
        &&& self.duplicator_uid == other.duplicator_uid
        &&& self.dest_workspace_id == other.dest_workspace_id
        &&& self.dest_view_id == other.dest_view_id
    }

    /// A run that has copied nothing yet.
    pub open spec fn is_fresh(&self) -> bool {
        &&& self.wf()
        &&& self.ids@ == Map::<Seq<char>, Option<Seq<char>>>::empty()
        &&& self.ids.drawn() == Seq::<Seq<char>>::empty()
        &&& self.views_to_add@.len() == 0
        &&& self.workspace_databases@.len() == 0
        &&& self.collabs@.len() == 0
    }

    /// A run for the user `dest_uid` into the view `dest_view_id` of the
    /// workspace `dest_workspace_id`, at the time that the clock shows.
    pub fn new(dest_uid: i64, dest_workspace_id: String, dest_view_id: String) -> (r: Self)
        ensures
            r.is_fresh(),
            r.duplicator_uid == dest_uid,
            r.dest_workspace_id == dest_workspace_id,
            r.dest_view_id == dest_view_id,
    {
        let ts_now = current_timestamp();
        Self::with_timestamp(ts_now, dest_uid, dest_workspace_id, dest_view_id)
    }

    /// A run at the time `ts_now`.
    pub fn with_timestamp(
        ts_now: i64,
        dest_uid: i64,
        dest_workspace_id: String,
        dest_view_id: String,
    ) -> (r: Self)
        ensures
            r.is_fresh(),
            r.ts_now == ts_now,
            r.duplicator_uid == dest_uid,
            r.dest_workspace_id == dest_workspace_id,
            r.dest_view_id == dest_view_id,
    {
        assert(links_model(Seq::<DatabaseLinks>::empty()) =~= links_of(Seq::<NewCollab>::empty()));
        PublishCollabDuplicator {
            ids: IdRewriter::new(),
            views_to_add: Vec::new(),
            workspace_databases: Vec::new(),
            collabs: Vec::new(),
            ts_now,
            duplicator_uid: dest_uid,
            dest_workspace_id,
            dest_view_id,
            collab_draws: Ghost(Seq::empty()),
            view_draws: Ghost(Seq::empty()),
            view_kinds: Ghost(Seq::empty()),
        }
    }

    /// The folder view for `view_info` under the identifier `new_view_id`,
    /// created and last edited by the duplicating user at the time of the
    /// run.  The parent is left empty for the caller to fill.
    pub fn new_folder_view(
        &self,
        new_view_id: String,
        view_info: &PublishViewInfo,
        layout: ViewLayout,
    ) -> (view: FolderView)
        ensures
            is_view_from_info(
                view,
                new_view_id,
                *view_info,
                layout,
                self.ts_now,
                self.duplicator_uid,
                Seq::<char>::empty(),
            ),
    {
        folder_view_from_info(new_view_id, view_info, layout, self.ts_now, self.duplicator_uid)
    }

    /// Draws an identifier.
    pub(crate) fn draw(&mut self) -> (id: String)
        requires
            old(self).wf(),
        ensures
            final(self).wf(),
            final(self).ids@ == old(self).ids@,
            final(self).ids.drawn() == old(self).ids.drawn().push(id@),
            id@.len() == 36,
            final(self).same_output(old(self)),
            final(self).same_settings(old(self)),
    {
        self.ids.fresh_id()
    }

    /// Adds a collab to those to insert, and with a database its links to
    /// those of the workspace.  The collab's identifier is the one drawn
    /// at the position `at`, which no collab goes by yet, and no view
    /// unless the collab is a document.
    pub(crate) fn insert_collab_for_duplicator(&mut self, collab: NewCollab, Ghost(at): Ghost<int>)
        requires
            old(self).wf(),
            0 <= at < old(self).ids.drawn().len(),
            old(self).ids.drawn()[at] == collab.object_id()@,
            old(self).no_collab_from(at),
            !(collab is Document) ==> old(self).no_view_from(at),
        ensures
            final(self).wf(),
            final(self).collabs@ == old(self).collabs@.push(collab),
            final(self).collab_draws@ == old(self).collab_draws@.push(at),
            final(self).ids == old(self).ids,
            final(self).views_to_add == old(self).views_to_add,
            final(self).view_draws == old(self).view_draws,
            final(self).view_kinds == old(self).view_kinds,
            !(collab is Database) ==> final(self).workspace_databases
                == old(self).workspace_databases,
            final(self).same_settings(old(self)),
    {
        match &collab {
            NewCollab::Database { object_id, linked_views, .. } => {
                set_links(&mut self.workspace_databases, object_id.clone(), clone_ids(linked_views));
            },
            _ => {},
        }
        proof {
            assert(self.collabs@.push(collab).drop_last() == self.collabs@);
        }
        self.collabs.push(collab);
        self.collab_draws = Ghost(self.collab_draws@.push(at));
    }

    /// Adds a view to those to add to the folder.  Its identifier is the
    /// one drawn at the position `at`, which no view goes by yet, and no
    /// collab other than a document.
    pub(crate) fn add_view(
        &mut self,
        view: FolderView,
        Ghost(at): Ghost<int>,
        Ghost(kind): Ghost<Hung>,
    )
        requires
            old(self).wf(),
            0 <= at < old(self).ids.drawn().len(),
            old(self).ids.drawn()[at] == view.id@,
            old(self).no_view_from(at),
            old(self).no_object_from(at),
            is_stamped(view, old(self).ts_now, old(self).duplicator_uid),
        ensures
            final(self).wf(),
            final(self).views_to_add@ == old(self).views_to_add@.push(view),
            final(self).view_draws@ == old(self).view_draws@.push(at),
            final(self).view_kinds@ == old(self).view_kinds@.push(kind),
            final(self).ids == old(self).ids,
            final(self).collabs == old(self).collabs,
            final(self).collab_draws == old(self).collab_draws,
            final(self).workspace_databases == old(self).workspace_databases,
            final(self).same_settings(old(self)),
    {
        self.views_to_add.push(view);
        self.view_draws = Ghost(self.view_draws@.push(at));
        self.view_kinds = Ghost(self.view_kinds@.push(kind));
    }

    /// Draws `count` identifiers.
    pub(crate) fn draw_ids(&mut self, count: usize) -> (fresh: Vec<String>)
        requires
            old(self).wf(),
        ensures
            final(self).wf(),
            final(self).ids@ == old(self).ids@,
            fresh@.len() == count,
            final(self).ids.drawn() == old(self).ids.drawn() + texts(fresh@),
            final(self).same_output(old(self)),
            final(self).same_settings(old(self)),
    {
        let mut fresh: Vec<String> = Vec::new();
        let mut i: usize = 0;
        while i < count
            invariant
                0 <= i <= count,
                self.wf(),
                self.ids@ == old(self).ids@,
                fresh@.len() == i,
                self.ids.drawn() == old(self).ids.drawn() + texts(fresh@),
                self.same_output(old(self)),
                self.same_settings(old(self)),
            decreases count - i,
        {
            let id = self.draw();
            fresh.push(id);
            i += 1;
        }
        fresh
    }
}

/// The run has gone on through two stretches; so it has gone on through
/// both, under the lower floor.
pub proof fn lemma_continues_chain(
    first: PublishCollabDuplicator,
    second: PublishCollabDuplicator,
    third: PublishCollabDuplicator,
    floor: int,
    own: int,
    own_document: bool,
    second_floor: int,
    second_own: int,
    second_document: bool,
    third_floor: int,
    third_own: int,
    third_document: bool,
)
    requires
        second.continues(&first, second_floor, second_own, second_document),
        third.continues(&second, third_floor, third_own, third_document),
        floor <= second_floor,
        floor <= third_floor,
        second_own >= floor || (second_own == own && (own_document ==> second_document)),
        third_own >= floor || (third_own == own && (own_document ==> third_document)),
    ensures
        third.continues(&first, floor, own, own_document),
{
    lemma_prefix_chain(first.ids.drawn(), second.ids.drawn(), third.ids.drawn());
    lemma_prefix_chain(first.collabs@, second.collabs@, third.collabs@);
    lemma_prefix_chain(first.views_to_add@, second.views_to_add@, third.views_to_add@);
    lemma_prefix_chain(first.collab_draws@, second.collab_draws@, third.collab_draws@);
    lemma_prefix_chain(first.view_draws@, second.view_draws@, third.view_draws@);
    assert forall|i: int|
        first.collab_draws@.len() <= i < third.collab_draws@.len() implies #[trigger] third.collab_draws@[i]
        >= floor || (third.collab_draws@[i] == own && (own_document ==> third.collabs@[i]
        is Document)) by {
        if i < second.collab_draws@.len() {
            assert(third.collab_draws@.take(second.collab_draws@.len() as int)[i]
                == second.collab_draws@[i]);
            if i < second.collabs@.len() {
                assert(third.collabs@.take(second.collabs@.len() as int)[i] == second.collabs@[i]);
            }
        }
    }
    assert forall|i: int|
        first.view_draws@.len() <= i < third.view_draws@.len() implies #[trigger] third.view_draws@[i]
        >= floor by {
        if i < second.view_draws@.len() {
            assert(third.view_draws@.take(second.view_draws@.len() as int)[i]
                == second.view_draws@[i]);
        }
    }
}

/// The run has gone on through two stretches in which everything added
/// goes by identifiers drawn at `floor` or later; so it has through both.
pub proof fn lemma_continues_on(
    first: PublishCollabDuplicator,
    second: PublishCollabDuplicator,
    third: PublishCollabDuplicator,
    floor: int,
)
    requires
        second.continues(&first, floor, floor, false),
        third.continues(&second, floor, floor, false),
    ensures
        third.continues(&first, floor, floor, false),
{
    lemma_continues_chain(
        first,
        second,
        third,
        floor,
        floor,
        false,
        floor,
        floor,
        false,
        floor,
        floor,
        false,
    );
}

/// A run has gone on from itself.
pub proof fn lemma_continues_same(run: PublishCollabDuplicator, floor: int, own: int, own_document: bool)
    requires
        run.collab_draws@.len() == run.collabs@.len(),
    ensures
        run.continues(&run, floor, own, own_document),
{
    lemma_prefix_same(run.ids.drawn());
    lemma_prefix_same(run.collabs@);
    lemma_prefix_same(run.views_to_add@);
    lemma_prefix_same(run.collab_draws@);
    lemma_prefix_same(run.view_draws@);
}

/// Below the number of draws, no draw is unused by mistake: a position at
/// or beyond the number of draws of a well-formed run serves no collab
/// and no view.
pub proof fn lemma_unused_beyond(run: PublishCollabDuplicator, at: int)
    requires
        run.wf(),
        at >= run.ids.drawn().len(),
    ensures
        run.no_collab_from(at),
        run.no_view_from(at),
        run.no_object_from(at),
{
}

impl PublishCollabDuplicator {
    /// The steps of the finalisation.
    pub fn finalisation(&self) -> (steps: Vec<FinalStep>)
        ensures
            steps@ == final_steps(self.workspace_databases@.len() > 0),
    {
        let mut steps: Vec<FinalStep> = Vec::new();
        if self.workspace_databases.len() > 0 {
            steps.push(FinalStep::LinkDatabases);
            steps.push(FinalStep::BroadcastWorkspaceDatabase);
            steps.push(FinalStep::InsertWorkspaceDatabase);
        }
        steps.push(FinalStep::AddFolderViews);
        steps.push(FinalStep::InsertFolder);
        steps.push(FinalStep::BroadcastFolder);
        steps.push(FinalStep::Commit);
        steps
    }

    /// The frame of the message that tells the editors of the collab
    /// `oid` of an update, or `None` where nobody edits the collab.  The
    /// sender is the duplicating user, on a device and in a session of
    /// its own.
    pub fn broadcast_update(&self, oid: &String, has_group: bool) -> (r: Option<UpdateSync>)
        ensures
            r is Some == has_group,
            r matches Some(message) ==> {
                &&& message.object_id == *oid
                &&& message.msg_id == msg_id_at(self.ts_now)
                &&& message.user.uid == self.duplicator_uid
                &&& message.user.connect_at == self.ts_now
                &&& message.user.app_version@ == Seq::<char>::empty()
                &&& message.user.device_id@.len() == 36
                &&& message.user.session_id@.len() == 36
            },
    {
        if !has_group {
            return None;
        }
        let user = RealtimeUser {
            uid: self.duplicator_uid,
            device_id: crate::ids::fresh_uuid(),
            connect_at: self.ts_now,
            session_id: crate::ids::fresh_uuid(),
            app_version: String::new(),
        };
        let msg_id: u64 = if self.ts_now >= 0 {
            self.ts_now as u64
        } else {
            u64::MAX - ((-(self.ts_now + 1)) as u64)
        };
        Some(UpdateSync { user, object_id: oid.clone(), msg_id })
    }

    /// Runs the duplication of the published view `publish_view_id`, read
    /// as a collab of the kind `collab_type`.
    ///
    /// The run draws the identifier of the root view first.  It is
    /// complete when the root and everything it refers to is copied; the
    /// root view then stands below the destination view.  It asks for a
    /// view where the record of the publish store has no answer, and
    /// fails where `publish_view_id` is no UUID, where the kind is neither
    /// document nor database, where the root view is not published, and
    /// where something the root refers to cannot be copied.
    pub fn deep_copy(self, store: &PublishedStore, publish_view_id: &String, collab_type: CollabType) -> (r:
        RunOutcome)
        requires
            self.is_fresh(),
        ensures
            match r {
                RunOutcome::Complete(plan) => {
                    &&& uuid_parse_result(publish_view_id@) is Some
                    &&& plan.wf()
                    &&& plan.run.same_settings(&self)
                    &&& closed_except(plan.run.ids@, plan.run.collabs@, Set::empty())
                    &&& documents_hold(
                        plan.run.collabs@,
                        *store,
                        plan.run.ids@,
                        plan.run.views_to_add@,
                    )
                    &&& plan.run.described(*store)
                    &&& match collab_type {
                        CollabType::Document => {
                            &&& store.document_answer(publish_view_id@) matches Some(entry)
                            &&& entry.published matches Some(published)
                            &&& plan.run.ids@.contains_key(publish_view_id@)
                            &&& plan.run.ids@[publish_view_id@] == Some(plan.root_view.id@)
                            &&& visit(*store, publish_view_id@, Map::empty()) == Ok::<
                                (Map<Seq<char>, bool>, bool),
                                Stop,
                            >((known_of(plan.run.ids@), true))
                            &&& made_since(plan.run.collabs@, 0) == visit_made(
                                *store,
                                publish_view_id@,
                                Map::empty(),
                            )
                            &&& plan.run.view_kinds@ == visit_hung(
                                *store,
                                publish_view_id@,
                                Map::empty(),
                            )
                            &&& document_copied(
                                plan.run,
                                plan.root_view,
                                *store,
                                published,
                                publish_view_id@,
                                plan.root_view.id,
                                self.dest_view_id@,
                            )
                        },
                        CollabType::Database => {
                            &&& store.database_answer(publish_view_id@) matches Some(entry)
                            &&& entry.published matches Some(published)
                            &&& plan.run.ids@ == Map::<Seq<char>, Option<Seq<char>>>::empty()
                            &&& made_since(plan.run.collabs@, 0) == database_made(
                                published,
                                publish_view_id@,
                                false,
                            )
                            &&& plan.run.view_kinds@ == database_hung(
                                published,
                                publish_view_id@,
                                false,
                            )
                            &&& plan.run.ids.drawn().len() > 1
                            &&& database_copied(
                                plan.run,
                                plan.root_view,
                                published,
                                *publish_view_id,
                                publish_view_id@,
                                plan.root_view.id,
                                plan.run.ids.drawn()[1],
                                2,
                                0,
                                0,
                                self.dest_view_id@,
                                None,
                            )
                        },
                        _ => false,
                    }
                },
                RunOutcome::Fetch(request) => {
                    &&& uuid_parse_result(publish_view_id@) is Some
                    &&& collab_type is Document || collab_type is Database
                    &&& store_lacks(*store, request)
                },
                RunOutcome::Failed(e) => {
                    &&& e is RecordNotFound || e is Parse
                    &&& uuid_parse_result(publish_view_id@) is None ==> e is Parse && e.text()
                        == publish_view_id@
                    &&& uuid_parse_result(publish_view_id@) is Some && !(collab_type is Document
                        || collab_type is Database) ==> e is RecordNotFound && e.text()
                        == "collab type not supported"@
                    &&& root_unpublished(*store, publish_view_id@, collab_type) ==> e is RecordNotFound
                        && e.text() == "view not found, it might be unpublished"@
                },
            },
            uuid_parse_result(publish_view_id@) is None ==> r is Failed,
            !(collab_type is Document || collab_type is Database) ==> r is Failed,
            root_unpublished(*store, publish_view_id@, collab_type) ==> r is Failed,
            uuid_parse_result(publish_view_id@) is Some && root_unanswered(
                *store,
                publish_view_id@,
                collab_type,
            ) ==> r is Fetch,
            root_database(*store, publish_view_id@, collab_type) matches Some(published) ==> (
            match database_failure(published, publish_view_id@) {
                Some(text) => r matches RunOutcome::Failed(e) && e is RecordNotFound && e.text()
                    == text,
                None => r is Complete,
            }),
            collab_type is Document ==> (match document_run_end(*store, publish_view_id@) {
                Some(stop) => ends_with(r, stop),
                None => r is Complete,
            }),
    {
        let mut run = self;
        let new_view_id = run.draw();
        let ghost drawn_once = run;
        proof {
            assert(known_of(run.ids@) =~= Map::<Seq<char>, bool>::empty());
        }
        let mut root_view = match run.deep_copy_txn(
            store,
            new_view_id,
            publish_view_id,
            collab_type,
            Ghost(Set::empty()),
            Ghost(Set::empty()),
        ) {
            Ok(Some(view)) => view,
            Ok(None) => {
                return RunOutcome::Failed(
                    DuplicateError::record_not_found("view not found, it might be unpublished"),
                );
            },
            Err(Interrupt::Fetch(request)) => {
                return RunOutcome::Fetch(request);
            },
            Err(Interrupt::Failed(e)) => {
                return RunOutcome::Failed(e);
            },
        };
        proof {
            assert(run.ids.drawn().take(drawn_once.ids.drawn().len() as int)[0]
                == drawn_once.ids.drawn()[0]);
        }
        root_view.parent_view_id = run.dest_view_id.clone();
        let final_steps = run.finalisation();
        RunOutcome::Complete(Duplication { root_view, run, final_steps })
    }
}

/// The record says that the root view, read as a collab of the kind
/// `collab_type`, is not published.
pub open spec fn root_unpublished(
    store: PublishedStore,
    publish_view_id: Seq<char>,
    collab_type: CollabType,
) -> bool {
    &&& uuid_parse_result(publish_view_id) is Some
    &&& match collab_type {
        CollabType::Document => store.document_answer(publish_view_id) matches Some(entry)
            && entry.published is None,
        CollabType::Database => store.database_answer(publish_view_id) matches Some(entry)
            && entry.published is None,
        _ => false,
    }
}

/// The published database that the record holds for the root view, where
/// the run is one of a database whose root is a UUID.
pub open spec fn root_database(
    store: PublishedStore,
    publish_view_id: Seq<char>,
    collab_type: CollabType,
) -> Option<PublishedDatabaseView> {
    if collab_type is Database && uuid_parse_result(publish_view_id) is Some {
        match store.database_answer(publish_view_id) {
            Some(entry) => entry.published,
            None => None,
        }
    } else {
        None
    }
}

/// The record has no answer for the root view, read as a collab of the
/// kind `collab_type`.
pub open spec fn root_unanswered(
    store: PublishedStore,
    publish_view_id: Seq<char>,
    collab_type: CollabType,
) -> bool {
    match collab_type {
        CollabType::Document => store.document_answer(publish_view_id) is None,
        CollabType::Database => store.database_answer(publish_view_id) is None,
        _ => false,
    }
}

/// Duplicates the published view `publish_view_id` for the user
/// `dest_uid` into the workspace `dest_workspace_id`, below the view
/// `dest_view_id`, at the time that the clock shows.
///
/// How the run ends is told by the record of the publish store alone.
/// It fails where `publish_view_id` is no UUID, where the kind is neither
/// document nor database, and where the root view is not published.  A
/// run of a database asks for the root where the record has no answer,
/// fails where the database cannot be copied, and is complete otherwise.
/// A run of a document ends as [`document_run_end`] says: with the first
/// view that the record has no answer for, with the first thing that
/// cannot be copied, or complete.
///
/// A complete run hands over a plan that is well-formed: every collab and
/// every view goes by an identifier drawn in the run, the views hang
/// together below the root view, every reference that has a new
/// identifier has its view, and every document is the copy of its
/// published document with the mentions rewritten.  In a run of a
/// document every reference that has a new identifier has its collab.
pub fn duplicate_published_collab_to_workspace(
    store: &PublishedStore,
    dest_uid: i64,
    publish_view_id: String,
    dest_workspace_id: String,
    dest_view_id: String,
    collab_type: CollabType,
) -> (r: RunOutcome)
    ensures
        uuid_parse_result(publish_view_id@) is None ==> (r matches RunOutcome::Failed(e) && e is Parse
            && e.text() == publish_view_id@),
        uuid_parse_result(publish_view_id@) is Some && !(collab_type is Document
            || collab_type is Database) ==> (r matches RunOutcome::Failed(e) && e is RecordNotFound
            && e.text() == "collab type not supported"@),
        root_unpublished(*store, publish_view_id@, collab_type) ==> (r matches RunOutcome::Failed(e)
            && e is RecordNotFound && e.text() == "view not found, it might be unpublished"@),
        uuid_parse_result(publish_view_id@) is Some && root_unanswered(
            *store,
            publish_view_id@,
            collab_type,
        ) ==> r is Fetch,
        root_database(*store, publish_view_id@, collab_type) matches Some(published) ==> (
        match database_failure(published, publish_view_id@) {
            Some(text) => r matches RunOutcome::Failed(e) && e is RecordNotFound && e.text() == text,
            None => r is Complete,
        }),
        collab_type is Document ==> (match document_run_end(*store, publish_view_id@) {
            Some(stop) => ends_with(r, stop),
            None => r is Complete,
        }),
        r matches RunOutcome::Fetch(request) ==> store_lacks(*store, request),
        r matches RunOutcome::Failed(e) ==> e is RecordNotFound || e is Parse,
        r matches RunOutcome::Complete(plan) ==> {
            &&& plan.wf()
            &&& plan.run.duplicator_uid == dest_uid
            &&& plan.run.dest_workspace_id == dest_workspace_id
            &&& plan.run.dest_view_id == dest_view_id
            &&& closed_except(plan.run.ids@, plan.run.collabs@, Set::empty())
            &&& documents_hold(plan.run.collabs@, *store, plan.run.ids@, plan.run.views_to_add@)
                    &&& plan.run.described(*store)
            &&& match collab_type {
                CollabType::Document => {
                    &&& store.document_answer(publish_view_id@) matches Some(entry)
                    &&& entry.published matches Some(published)
                    &&& plan.run.ids@.contains_key(publish_view_id@)
                    &&& plan.run.ids@[publish_view_id@] == Some(plan.root_view.id@)
                    &&& visit(*store, publish_view_id@, Map::empty()) == Ok::<
                        (Map<Seq<char>, bool>, bool),
                        Stop,
                    >((known_of(plan.run.ids@), true))
                    &&& made_since(plan.run.collabs@, 0) == visit_made(
                        *store,
                        publish_view_id@,
                        Map::empty(),
                    )
                    &&& plan.run.view_kinds@ == visit_hung(*store, publish_view_id@, Map::empty())
                    &&& document_copied(
                        plan.run,
                        plan.root_view,
                        *store,
                        published,
                        publish_view_id@,
                        plan.root_view.id,
                        dest_view_id@,
                    )
                },
                CollabType::Database => {
                    &&& store.database_answer(publish_view_id@) matches Some(entry)
                    &&& entry.published matches Some(published)
                    &&& plan.run.ids@ == Map::<Seq<char>, Option<Seq<char>>>::empty()
                    &&& made_since(plan.run.collabs@, 0) == database_made(
                        published,
                        publish_view_id@,
                        false,
                    )
                    &&& plan.run.view_kinds@ == database_hung(published, publish_view_id@, false)
                    &&& plan.run.ids.drawn().len() > 1
                    &&& database_copied(
                        plan.run,
                        plan.root_view,
                        published,
                        publish_view_id,
                        publish_view_id@,
                        plan.root_view.id,
                        plan.run.ids.drawn()[1],
                        2,
                        0,
                        0,
                        dest_view_id@,
                        None,
                    )
                },
                _ => false,
            }
        },
{
    let copier = PublishCollabDuplicator::new(dest_uid, dest_workspace_id, dest_view_id);
    copier.deep_copy(store, &publish_view_id, collab_type)
}

} // verus!
