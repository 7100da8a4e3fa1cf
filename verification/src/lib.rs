//! Persistence core of a daily journal: notes keyed by calendar date, user
//! profiles keyed by identifier, the fields derived from a note's text, and
//! the translation of failures into what may cross the boundary.

pub mod commands;
pub mod db;
pub mod error;
pub mod laws;
pub mod models;
pub mod order;
pub mod pattern;
pub mod services;
pub mod stamp;
pub mod text;
