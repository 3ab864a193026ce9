//! Agent events: their format, their recovery from plain text, and the state they fold
//! into.

pub mod adapter;
pub mod fallback;
pub mod laws;
pub mod protocol;
pub mod store;
