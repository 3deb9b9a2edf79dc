//! The table, the documents it is merged from, and the load itself.

pub mod entry;
pub mod error;
pub mod json;
pub mod loader;
pub mod run;
pub mod scan;
pub mod table;
pub mod text;
