//! Read-only queries over the note store of the Bear note-taking application:
//! query composition, row mapping and the repository operations built on them.
pub mod args;
pub mod constants;
pub mod note;
pub mod query;
pub mod store;
pub mod timestamp;

pub use query::{Limit, SortOrder};
pub use store::{find_note_by_id, list_notes, list_tags};
