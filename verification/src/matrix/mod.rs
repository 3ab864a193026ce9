//! What crosses the boundary to the Matrix worker, and the decisions taken on either side.

pub mod account;
pub mod capture;
pub mod homeserver;
pub mod laws;
pub mod model;
pub mod session;
pub mod worker;
