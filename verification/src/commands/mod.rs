//! The boundary: each operation as a caller from outside sees it, with
//! failures translated into what may be shown.

pub mod note;
pub mod user;

pub use note::{delete_note, get_all_notes, get_note, save_note, search_notes};
pub use user::{create_user, get_user_profile, update_user_profile};
