//! Runtime core of a software cryptographic token behind a Cryptoki-style
//! interface: the session and object store, templates and key objects, and
//! the AES-CBC key-wrap engine, each with a machine-checked contract.
#![allow(non_snake_case)]
#![allow(non_camel_case_types)]

pub mod cryptoki;
pub mod error;
pub mod state;
