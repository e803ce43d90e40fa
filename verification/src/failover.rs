//! Keeping a node writable while it is not the master.

pub mod escape_bridge;
