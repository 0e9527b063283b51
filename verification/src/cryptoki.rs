//! The entry points of the token and the values that cross its boundary.
//!
//! A pointer argument of the C interface is an `Option` here: `None` is the
//! null pointer. An input pointer holds what the caller's memory held; an
//! output pointer is written through only where the call's contract says so.

pub mod bindings;
pub mod encryption;
pub mod general_purpose;
pub mod internals;
pub mod key_management;
pub mod object_management;
pub mod session_management;
