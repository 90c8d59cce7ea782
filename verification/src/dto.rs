//! Request bodies of the note viewer.

pub mod login;
