//! What the entry points are built on.

pub mod encryption;
