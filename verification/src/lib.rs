//! Verified core of a local document indexer: the rules that decide which
//! files and folders are indexed, how filesystem events become index
//! commands, how rows of the document database are encoded and decoded, and
//! how a folder is reconciled against what is on disk.

pub mod clock;
pub mod database;
pub mod events;
pub mod filesystem;
pub mod indexer;
pub mod paths;
pub mod sql;
pub mod text;
