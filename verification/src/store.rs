//! What is known of the publish store: for each view that was asked for,
//! the published data or the answer that there is none.
//!
//! A run reads published views on demand.  It never fetches by itself: it
//! consults this record, and where the record has no answer it reports
//! which view it needs.  The caller fetches that view, records the answer,
//! and starts the run again.

use crate::database::PublishedDatabase;
use crate::document::DocumentData;
use crate::folder::PublishViewMetaData;
use vstd::prelude::*;

verus! {

/// The role of a collab.
#[derive(Debug, Clone, Copy, PartialEq, Eq, Structural)]
pub enum CollabType {
    Document,
    Database,
    DatabaseRow,
    Folder,
    WorkspaceDatabase,
    /// Any other role.
    Other,
}

/// A published document: its metadata and its decoded content.
#[derive(Debug, PartialEq, Eq)]
pub struct PublishedDocument {
    pub metadata: PublishViewMetaData,
    pub data: DocumentData,
}

/// A published database view: its metadata and the decoded database.
#[derive(Debug, PartialEq, Eq)]
pub struct PublishedDatabaseView {
    pub metadata: PublishViewMetaData,
    pub database: PublishedDatabase,
}

/// The answer of the publish store for a view read as a document.
#[derive(Debug, PartialEq, Eq)]
pub struct DocumentEntry {
    pub view_id: String,
    /// `None` where the view is not published.
    pub published: Option<PublishedDocument>,
}

/// The answer of the publish store for a view read as a database.
#[derive(Debug, PartialEq, Eq)]
pub struct DatabaseEntry {
    pub view_id: String,
    /// `None` where the view is not published.
    pub published: Option<PublishedDatabaseView>,
}

/// A view that a run needs and the record does not answer for.
#[derive(Debug, PartialEq, Eq)]
pub struct FetchRequest {
    pub view_id: String,
    pub collab_type: CollabType,
}

/// The answers recorded so far.  Of two answers for one view, the earlier
/// counts.
#[derive(Debug, PartialEq, Eq)]
pub struct PublishedStore {
    pub documents: Vec<DocumentEntry>,
    pub databases: Vec<DatabaseEntry>,
}

/// The position, at or after `from`, of the first answer for the view.
pub open spec fn document_index(entries: Seq<DocumentEntry>, view_id: Seq<char>, from: int) -> Option<
    int,
>
    decreases entries.len() - from,
{
    if from < 0 || from >= entries.len() {
        None
    } else if entries[from].view_id@ == view_id {
        Some(from)
    } else {
        document_index(entries, view_id, from + 1)
    }
}

/// The position, at or after `from`, of the first answer for the view.
pub open spec fn database_index(entries: Seq<DatabaseEntry>, view_id: Seq<char>, from: int) -> Option<
    int,
>
    decreases entries.len() - from,
{
    if from < 0 || from >= entries.len() {
        None
    } else if entries[from].view_id@ == view_id {
        Some(from)
    } else {
        database_index(entries, view_id, from + 1)
    }
}

/// The position found by [`document_index`] is in range and answers for
/// the view.
pub proof fn lemma_document_index(entries: Seq<DocumentEntry>, view_id: Seq<char>, from: int)
    requires
        0 <= from,
    ensures
        document_index(entries, view_id, from) matches Some(i) ==> from <= i < entries.len()
            && entries[i].view_id@ == view_id,
    decreases entries.len() - from,
{
    if from < entries.len() && entries[from].view_id@ != view_id {
        lemma_document_index(entries, view_id, from + 1);
    }
}

impl PublishedStore {
    /// The answer recorded for the view read as a document.
    pub open spec fn document_answer(&self, view_id: Seq<char>) -> Option<DocumentEntry> {
        match document_index(self.documents@, view_id, 0) {
            Some(i) => Some(self.documents@[i]),
            None => None,
        }
    }

    /// The answer recorded for the view read as a database.
    pub open spec fn database_answer(&self, view_id: Seq<char>) -> Option<DatabaseEntry> {
        match database_index(self.databases@, view_id, 0) {
            Some(i) => Some(self.databases@[i]),
            None => None,
        }
    }

    /// A record without answers.
    pub fn new() -> (r: PublishedStore)
        ensures
            r.documents@.len() == 0,
            r.databases@.len() == 0,
    {
        PublishedStore { documents: Vec::new(), databases: Vec::new() }
    }

    /// Records the answer for a view read as a document.  An answer that
    /// is already there stays in force.
    pub fn add_document(&mut self, view_id: String, published: Option<PublishedDocument>)
        ensures
            final(self).documents@ == old(self).documents@.push(
                DocumentEntry { view_id, published },
            ),
            final(self).databases == old(self).databases,
    {
        self.documents.push(DocumentEntry { view_id, published });
    }

    /// Records the answer for a view read as a database.  An answer that
    /// is already there stays in force.
    pub fn add_database(&mut self, view_id: String, published: Option<PublishedDatabaseView>)
        ensures
            final(self).databases@ == old(self).databases@.push(
                DatabaseEntry { view_id, published },
            ),
            final(self).documents == old(self).documents,
    {
        self.databases.push(DatabaseEntry { view_id, published });
    }

    /// The answer recorded for the view read as a document.
    pub fn document(&self, view_id: &String) -> (r: Option<&DocumentEntry>)
        ensures
            match r {
                Some(entry) => self.document_answer(view_id@) == Some(*entry) && entry.view_id@
                    == view_id@ && document_index(self.documents@, view_id@, 0) is Some,
                None => self.document_answer(view_id@) is None,
            },
    {
        let mut i: usize = 0;
        while i < self.documents.len()
            invariant
                0 <= i <= self.documents.len(),
                document_index(self.documents@, view_id@, 0) == document_index(
                    self.documents@,
                    view_id@,
                    i as int,
                ),
            decreases self.documents.len() - i,
        {
            if self.documents[i].view_id == *view_id {
                return Some(&self.documents[i]);
            }
            i += 1;
        }
        None
    }

    /// The answer recorded for the view read as a database.
    pub fn database(&self, view_id: &String) -> (r: Option<&DatabaseEntry>)
        ensures
            match r {
                Some(entry) => self.database_answer(view_id@) == Some(*entry) && entry.view_id@
                    == view_id@,
                None => self.database_answer(view_id@) is None,
            },
    {
        let mut i: usize = 0;
        while i < self.databases.len()
            invariant
                0 <= i <= self.databases.len(),
                database_index(self.databases@, view_id@, 0) == database_index(
                    self.databases@,
                    view_id@,
                    i as int,
                ),
            decreases self.databases.len() - i,
        {
            if self.databases[i].view_id == *view_id {
                return Some(&self.databases[i]);
            }
            i += 1;
        }
        None
    }
}

/// The number of published documents of the record whose view has no
/// entry in the mapping `known`.
pub open spec fn unresolved(entries: Seq<DocumentEntry>, known: Set<Seq<char>>) -> nat
    decreases entries.len(),
{
    if entries.len() == 0 {
        0
    } else {
        let rest = unresolved(entries.drop_last(), known);
        if entries.last().published is Some && !known.contains(entries.last().view_id@) {
            rest + 1
        } else {
            rest
        }
    }
}

/// A larger mapping leaves no more documents unresolved.
pub proof fn lemma_unresolved_shrinks(
    entries: Seq<DocumentEntry>,
    known: Set<Seq<char>>,
    more: Set<Seq<char>>,
)
    requires
        known.subset_of(more),
    ensures
        unresolved(entries, more) <= unresolved(entries, known),
    decreases entries.len(),
{
    if entries.len() > 0 {
        lemma_unresolved_shrinks(entries.drop_last(), known, more);
    }
}

/// A larger mapping that covers one more published document leaves fewer
/// documents unresolved.
pub proof fn lemma_unresolved_drops(
    entries: Seq<DocumentEntry>,
    known: Set<Seq<char>>,
    more: Set<Seq<char>>,
    i: int,
)
    requires
        known.subset_of(more),
        0 <= i < entries.len(),
        entries[i].published is Some,
        !known.contains(entries[i].view_id@),
        more.contains(entries[i].view_id@),
    ensures
        unresolved(entries, more) < unresolved(entries, known),
    decreases entries.len(),
{
    if i == entries.len() - 1 {
        lemma_unresolved_shrinks(entries.drop_last(), known, more);
    } else {
        lemma_unresolved_drops(entries.drop_last(), known, more, i);
    }
}

} // verus!
