//! Core of a terminal browser for the directories on the executable search path.

pub mod app;
pub mod filter;
pub mod input;
pub mod labels;
pub mod lister;
pub mod path_source;
pub mod text;
pub mod types;

pub use app::{App, Key};
pub use types::{DirectoryView, EntryInfo, FileEntry, View};
