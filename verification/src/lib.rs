//! A relay that appends chat messages to a monthly journal document kept in a
//! remote store, with the append engine proved against its model.

pub mod calendar;
pub mod codec;
pub mod config;
pub mod document;
pub mod dto;
pub mod gist;
pub mod github;
pub mod merge;
pub mod publish;
pub mod queue;
pub mod text;
pub mod trace;
