//! The records of the journal and the values that requests carry.

pub mod note;
pub mod user;

pub use note::{CreateNoteDto, Note, NoteMetadata, UpdateNoteDto};
pub use user::{UpdateUserDto, User};
