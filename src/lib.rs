//! Extraction of a conference agenda into an ordered, typed model, and the
//! data types of the note service the agenda is published to.

pub mod creator;
pub mod dom;
pub mod error;
pub mod extract;
pub mod hackmd;
pub mod laws;
pub mod model;
pub mod text;
pub mod time;
