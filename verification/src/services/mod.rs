//! The services: the lifecycle of notes and of user profiles over the store.

pub mod note_service;
pub mod user_service;

pub use note_service::NoteService;
pub use user_service::UserService;
