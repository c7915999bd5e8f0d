//! A personal data organizer's structured-record editing, validation, and
//! persistence core: each record kind (tasks, habits, finance entries,
//! calorie entries, kanban cards, flashcards) is rendered into an editable
//! plain-text template, edited in a line buffer with undo/redo, re-parsed
//! with per-field validation, and persisted as a size-guarded binary
//! snapshot with defensive index re-validation.

use vstd::prelude::*;

pub mod buffer;
pub mod codec;
pub mod codec_calorie;
pub mod codec_card;
pub mod codec_finance;
pub mod codec_habit;
pub mod codec_task;
pub mod codec_kanban;
pub mod date;
pub mod dict;
pub mod model;
pub mod num;
pub mod persist;
pub mod session;
pub mod state;
pub mod text;
pub mod validate;

verus! {

/// Maximum size in bytes of a snapshot file, on both the write and the
/// read path; larger payloads are treated as possible corruption.
pub const MAX_SNAPSHOT_BYTES: usize = 52428800;

pub fn snapshot_size_ok(len: usize) -> (r: bool)
    ensures
        r == (len <= MAX_SNAPSHOT_BYTES),
{
    len <= MAX_SNAPSHOT_BYTES
}

} // verus!
