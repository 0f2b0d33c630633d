//! What a run hands over: the collabs to insert, the steps of the
//! finalisation, and the outcome of the run.

use crate::database::{links_put, RowCopy, ViewCopy};
use crate::document::DocumentData;
use crate::duplicator::PublishCollabDuplicator;
use crate::error::DuplicateError;
use crate::folder::{is_stamped, FolderView};
use crate::ids::texts;
use crate::invariants::{children_known, tree_holds};
use crate::store::{CollabType, FetchRequest};
use vstd::prelude::*;

verus! {

/// A collab that a run hands over for insertion into the destination
/// workspace.
#[derive(Debug, PartialEq, Eq)]
pub enum NewCollab {
    /// The document that the published view `published_view_id` shows,
    /// under the identifier `object_id`, with its rewritten content.
    Document { object_id: String, published_view_id: String, data: DocumentData },
    /// A row of a database: the published row `old_row_id` of the
    /// published view `published_view_id`, under the identifier
    /// `object_id` and in the database `database_id`.
    DatabaseRow {
        object_id: String,
        published_view_id: String,
        old_row_id: String,
        database_id: String,
    },
    /// The database that the published view `published_view_id` shows,
    /// under the identifier `object_id`, with its rows and its views as
    /// they stand in the duplicate, and the views that the workspace is
    /// to link it to: those of the copy and, where a block of a document
    /// shows the database, the view of the block.
    Database {
        object_id: String,
        published_view_id: String,
        rows: Vec<RowCopy>,
        views: Vec<ViewCopy>,
        linked_views: Vec<String>,
    },
}

impl NewCollab {
    /// The identifier under which the collab is inserted.
    pub open spec fn object_id(self) -> String {
        match self {
            NewCollab::Document { object_id, .. } => object_id,
            NewCollab::DatabaseRow { object_id, .. } => object_id,
            NewCollab::Database { object_id, .. } => object_id,
        }
    }

    /// The role under which the collab is inserted.
    pub open spec fn collab_type(self) -> CollabType {
        match self {
            NewCollab::Document { .. } => CollabType::Document,
            NewCollab::DatabaseRow { .. } => CollabType::DatabaseRow,
            NewCollab::Database { .. } => CollabType::Database,
        }
    }
}

/// The links that the collabs to insert call for: for each database, in
/// the order of the collabs, its entry with the views it is linked to.  A
/// database that occurs again takes the place of its earlier entry.
pub open spec fn links_of(collabs: Seq<NewCollab>) -> Seq<(Seq<char>, Seq<Seq<char>>)>
    decreases collabs.len(),
{
    if collabs.len() == 0 {
        Seq::empty()
    } else {
        match collabs.last() {
            NewCollab::Database { object_id, linked_views, .. } => links_put(
                links_of(collabs.drop_last()),
                object_id@,
                texts(linked_views@),
            ),
            _ => links_of(collabs.drop_last()),
        }
    }
}

/// Why a run stops before it is complete.
#[derive(Debug, PartialEq, Eq)]
pub enum Interrupt {
    /// The record of the publish store has no answer for a view that the
    /// run needs.
    Fetch(FetchRequest),
    /// The run cannot be completed.
    Failed(DuplicateError),
}

/// A step of the finalisation of a run, which the caller performs once
/// every collab of the plan is inserted.
#[derive(Debug, Clone, Copy, PartialEq, Eq, Structural)]
pub enum FinalStep {
    /// Add each new database with its views to the destination's
    /// workspace-database list, in one update.
    LinkDatabases,
    /// Send that update to those who edit the workspace-database list.
    BroadcastWorkspaceDatabase,
    /// Insert the workspace-database list as it now stands.
    InsertWorkspaceDatabase,
    /// Add the root view and then every view to add, in their order, to
    /// the destination's folder, in one update.
    AddFolderViews,
    /// Insert the folder as it now stands.
    InsertFolder,
    /// Send the folder's update to those who edit the folder.
    BroadcastFolder,
    /// Commit the transaction.
    Commit,
}

/// The steps of the finalisation, in their order.  The workspace-database
/// list is touched only where the run made a database; the folder comes
/// last, so that whoever finds a view in it finds the view's collab too.
pub open spec fn final_steps(links_databases: bool) -> Seq<FinalStep> {
    let folder = seq![
        FinalStep::AddFolderViews,
        FinalStep::InsertFolder,
        FinalStep::BroadcastFolder,
        FinalStep::Commit,
    ];
    if links_databases {
        seq![
            FinalStep::LinkDatabases,
            FinalStep::BroadcastWorkspaceDatabase,
            FinalStep::InsertWorkspaceDatabase,
        ] + folder
    } else {
        folder
    }
}

/// What a complete run hands over: the root view of the duplicate, below
/// the destination view, and the run with the collabs to insert, the
/// views to add and the databases to link.
pub struct Duplication {
    pub root_view: FolderView,
    pub run: PublishCollabDuplicator,
    pub final_steps: Vec<FinalStep>,
}

/// How a run ended.
pub enum RunOutcome {
    /// The run is complete.
    Complete(Duplication),
    /// The run needs a view that the record of the publish store does not
    /// answer for.  Once the answer is recorded the run can be started
    /// again.
    Fetch(FetchRequest),
    /// The run cannot be completed.  Nothing is to be inserted.
    Failed(DuplicateError),
}

/// One who takes part in the editing of a collab.
#[derive(Debug, PartialEq, Eq)]
pub struct RealtimeUser {
    pub uid: i64,
    pub device_id: String,
    pub connect_at: i64,
    pub session_id: String,
    pub app_version: String,
}

/// The frame of the message that tells the editors of a collab of an
/// update: who sends it, for which collab, under which number.
#[derive(Debug, PartialEq, Eq)]
pub struct UpdateSync {
    pub user: RealtimeUser,
    pub object_id: String,
    pub msg_id: u64,
}

/// The number of a message sent at the time `ts_now`: the time itself,
/// read as an unsigned number of 64 bits.
pub open spec fn msg_id_at(ts_now: i64) -> u64 {
    if ts_now >= 0 {
        ts_now as u64
    } else {
        (ts_now + 0x1_0000_0000_0000_0000) as u64
    }
}

impl Duplication {
    /// The invariant of a plan: the run is well-formed, the root view goes
    /// by the first identifier that was drawn, which no view to add goes
    /// by and no collab other than a document, and the steps of the
    /// finalisation are those that the run calls for.
    pub open spec fn wf(&self) -> bool {
        &&& self.run.wf()
        &&& self.run.ids.drawn().len() > 0
        &&& self.root_view.id@ == self.run.ids.drawn()[0]
        &&& self.run.no_view_from(0)
        &&& self.run.no_object_from(0)
        &&& tree_holds(
            self.run.views_to_add@,
            self.run.ids@,
            Set::<Seq<char>>::empty().insert(self.root_view.id@),
        )
        &&& children_known(self.root_view, self.run.ids@)
        &&& is_stamped(self.root_view, self.run.ts_now, self.run.duplicator_uid)
        &&& self.final_steps@ == final_steps(self.run.workspace_databases@.len() > 0)
    }
}

} // verus!
