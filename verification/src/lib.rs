//! Loads a directory of JSON documents into one table from string keys to
//! lists of strings.
//!
//! The library holds the decisions of the load: which directory entries
//! count, what a document's text means, how documents are merged and which
//! failure ends the load. Reading the file system is left to the caller, who
//! performs the action that the [`storage::loader::Loader`] asks for and
//! reports what came of it.

pub mod storage;
