//! Index entries and the decisions that staging lines makes about them.
use vstd::prelude::*;
use vstd::string::*;

use crate::error::StageError;
use crate::selection::{apply_selection, resolved_content, selection_known, texts, DiffLinePosition, Hunk};

verus! {

/// The file mode of a regular, non-executable file (octal 100644).
pub const REGULAR_FILE_MODE: u32 = 33188;

/// Whether an entry holds staged content.
#[derive(Clone, Copy, Debug, PartialEq, Eq, Structural)]
pub enum EntryState {
    /// A complete entry: its object is the staged content.
    Normal,
    /// The path is tracked but nothing of it is staged yet.
    IntentToAdd,
}

/// The part of a path's index record that staging reads and writes.
/// `id` is the content object's hash, `None` for the null reference.
#[derive(Clone, Debug)]
pub struct IndexEntry {
    pub id: Option<[u8; 20]>,
    pub file_size: u32,
    pub mode: u32,
    pub state: EntryState,
    pub path: Vec<u8>,
}

/// `e` is the entry that records `path` as tracked with nothing staged.
pub open spec fn is_bootstrap_for(e: IndexEntry, path: Seq<u8>) -> bool {
    &&& e.id is None
    &&& e.file_size == 0
    &&& e.mode == REGULAR_FILE_MODE
    &&& e.state == EntryState::IntentToAdd
    &&& e.path@ == path
}

/// `e` is `prev` pointing at the object `id` of `size` bytes, as a complete
/// entry.
pub open spec fn is_staged_from(e: IndexEntry, prev: IndexEntry, id: [u8; 20], size: nat) -> bool {
    &&& e.id == Some(id)
    &&& e.file_size == size
    &&& e.mode == prev.mode
    &&& e.state == EntryState::Normal
    &&& e.path@ == prev.path@
}

/// The entry for a path that the index does not hold yet: no content, and
/// marked intent-to-add, so that single lines can be staged into it.
pub fn index_entry_for_untracked_file(file_path: &str) -> (r: IndexEntry)
    ensures
        is_bootstrap_for(r, file_path.spec_bytes()),
{
    IndexEntry {
        id: None,
        file_size: 0,
        mode: REGULAR_FILE_MODE,
        state: EntryState::IntentToAdd,
        path: file_path.as_bytes_vec(),
    }
}

/// What to do first when asked to stage lines of a path.
#[derive(Clone, Debug)]
pub enum FirstStep {
    /// Nothing is chosen: leave the index as it is.
    Nothing,
    /// Work on the path's present entry.
    Use(IndexEntry),
    /// Add this entry for the untracked path, then look the path up again.
    Bootstrap(IndexEntry),
}

/// Decides the first step from the chosen lines and the path's present
/// entry. With no line chosen nothing is done at all.
pub fn first_step(file_path: &str, lines: &[DiffLinePosition], current: Option<IndexEntry>) -> (r:
    FirstStep)
    ensures
        lines@.len() == 0 ==> r is Nothing,
        lines@.len() > 0 && current is Some ==> r == FirstStep::Use(current->Some_0),
        lines@.len() > 0 && current is None ==> r is Bootstrap && is_bootstrap_for(
            r->Bootstrap_0,
            file_path.spec_bytes(),
        ),
{
    if lines.len() == 0 {
        return FirstStep::Nothing;
    }
    match current {
        Some(e) => FirstStep::Use(e),
        None => FirstStep::Bootstrap(index_entry_for_untracked_file(file_path)),
    }
}

/// The entry found after the bootstrap entry was written: missing means the
/// index lost it.
pub fn entry_after_bootstrap(found: Option<IndexEntry>) -> (r: Result<IndexEntry, StageError>)
    ensures
        found is None <==> r == Err::<IndexEntry, StageError>(StageError::NotFound),
        found is Some ==> r == Ok::<IndexEntry, StageError>(found->Some_0),
{
    match found {
        Some(e) => Ok(e),
        None => Err(StageError::NotFound),
    }
}

/// The lines of a text as `str::lines` splits it.
pub uninterp spec fn lines_of(s: Seq<char>) -> Seq<Seq<char>>;

/// Relies on `str::lines`: the lines of a text without their terminators,
/// which depend on the text's characters alone.
#[verifier::external_body]
fn text_lines(s: &str) -> (r: Vec<String>)
    ensures
        texts(r@) == lines_of(s@),
{
    s.lines().map(String::from).collect()
}

/// The new content of the index entry whose content is `indexed_content`:
/// that content split into lines, with the chosen lines of `hunks` applied
/// (see `apply_selection`).
pub fn new_index_content(
    lines: &[DiffLinePosition],
    hunks: &[Hunk],
    indexed_content: &str,
    is_stage: bool,
) -> (r: Result<String, StageError>)
    ensures
        r is Ok <==> selection_known(lines@, hunks@),
        r is Ok ==> r->Ok_0@ == resolved_content(lines@, hunks@, lines_of(indexed_content@), is_stage),
        r is Err ==> r->Err_0 == StageError::MalformedSelection,
{
    let old_lines = text_lines(indexed_content);
    apply_selection(lines, hunks, old_lines.as_slice(), is_stage)
}

/// Declares easy_cast's conversion error.
#[verifier::external_type_specification]
#[verifier::external_body]
pub struct ExCastError(easy_cast::Error);

/// Relies on easy_cast's `u32::try_conv` from `usize`: the same value when it
/// fits in a `u32`, an error otherwise.
#[verifier::external_body]
fn size_field(len: usize) -> (r: Result<u32, easy_cast::Error>)
    ensures
        r is Ok <==> len <= u32::MAX,
        r is Ok ==> r->Ok_0 == len,
{
    <u32 as easy_cast::Conv<usize>>::try_conv(len)
}

/// How the index changes once the new content is stored as an object.
#[derive(Clone, Debug)]
pub struct IndexUpdate {
    /// The entry to write.
    pub entry: IndexEntry,
    /// The new content is empty: after the write, put the path back as the
    /// last commit has it (or drop it, if the commit lacks it).
    pub reset_to_commit: bool,
}

/// The entry that replaces `entry` once `new_content` is stored as object
/// `blob_id`: it points at that object, has its size in bytes and is a
/// complete entry. Fails when the size does not fit the entry's size field.
pub fn index_update(entry: &IndexEntry, blob_id: [u8; 20], new_content: &str) -> (r: Result<
    IndexUpdate,
    StageError,
>)
    ensures
        r is Ok <==> new_content.len() <= u32::MAX,
        r is Err ==> r->Err_0 == StageError::ContentTooLarge,
        r is Ok ==> is_staged_from(r->Ok_0.entry, *entry, blob_id, new_content.len() as nat),
        r is Ok ==> (r->Ok_0.reset_to_commit <==> new_content@.len() == 0),
{
    match size_field(new_content.len()) {
        Ok(size) => {
            let e = IndexEntry {
                id: Some(blob_id),
                file_size: size,
                mode: entry.mode,
                state: EntryState::Normal,
                path: entry.path.clone(),
            };
            Ok(IndexUpdate { entry: e, reset_to_commit: new_content.is_empty() })
        },
        Err(_) => Err(StageError::ContentTooLarge),
    }
}

/// Staging into the entry made for an untracked path leaves an entry at that
/// path that points at the new content's object, has its size, keeps the
/// regular file mode and is a complete entry, no longer intent-to-add.
pub proof fn untracked_bootstrap(path: Seq<u8>, boot: IndexEntry, after: IndexEntry, id: [u8; 20], size: nat)
    requires
        is_bootstrap_for(boot, path),
        is_staged_from(after, boot, id, size),
    ensures
        after.path@ == path,
        after.id == Some(id),
        after.file_size == size,
        after.mode == REGULAR_FILE_MODE,
        after.state == EntryState::Normal,
{
}

} // verus!
