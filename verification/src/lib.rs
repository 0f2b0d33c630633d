//! Duplication of published collaborative documents and databases into a
//! destination workspace.
//!
//! The crate holds the decisions of a duplication run: which identifiers are
//! replaced by which, how a document's mentions and embedded databases are
//! rewritten, how a database's views and rows are renumbered, and which
//! collabs and folder views a run hands over for insertion.  Fetching and
//! storing are left to the caller, who answers the requests that a run
//! reports and applies the plan it returns.
//!
//! A run starts in [`duplicator`]; [`document_copy`] and [`database_copy`]
//! copy a view with what it refers to; [`invariants`] and [`outcome`] say
//! what holds meanwhile and how a run ends; [`laws`] states what holds of
//! every plan.  [`ids`], [`json`], [`document`], [`database`], [`folder`]
//! and [`store`] hold the data and its rewriting; [`keys`] says of the
//! lists that stand for maps that a key occurs once.  [`admin`], [`client`]
//! and [`notification`] hold the decisions of the server's other parts.

pub mod admin;
pub mod client;
pub mod database;
pub mod database_copy;
pub mod document;
pub mod document_copy;
pub mod duplicator;
pub mod error;
pub mod folder;
pub mod ids;
pub mod invariants;
pub mod json;
pub mod keys;
pub mod laws;
pub mod notification;
pub mod outcome;
pub mod plan;
pub mod sequences;
pub mod store;
