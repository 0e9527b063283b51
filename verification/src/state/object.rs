//! Key objects and the templates they are built from.

pub mod cryptoki_object;
pub mod template;
