//! Heddle: the logic of a terminal Matrix client for working with coding agents.

pub mod agent;
pub mod app;
pub mod json;
pub mod laws;
pub mod layout;
pub mod matrix;
pub mod paths;
pub mod seqs;
pub mod table;
pub mod text;
