//! The workspace bar, tabs and panes, and how panes tile a tab.

pub mod laws;
pub mod model;
pub mod persist;
pub mod tiling;
