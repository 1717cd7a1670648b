//! Core of a terminal note/todo manager: an ordered collection of notes with
//! a selection cursor, transient text-input sub-states, a two-step delete
//! confirmation, and a verified textual storage format for persistence.

pub mod app;
mod clock;
pub mod codec;
pub mod error;
pub mod note;
pub mod notes;
pub mod order;
mod text;
