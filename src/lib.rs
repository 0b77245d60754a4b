//! Rule dispatch and incremental caching for a source-file lint engine.

pub mod issue;
pub mod position;
pub mod cache;
pub mod rules;
pub mod registry;
