//! Line-level staging: choose single diff lines to move into or out of the
//! index, and compute the index entry that results.
pub mod error;
pub mod entry;
pub mod selection;

pub use error::StageError;
pub use entry::{
    entry_after_bootstrap, first_step, index_entry_for_untracked_file, index_update, new_index_content,
    EntryState, FirstStep, IndexEntry, IndexUpdate,
};
pub use selection::{apply_selection, DiffLine, DiffLinePosition, DiffLineType, Hunk};
