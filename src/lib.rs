//! Declarative reconciliation of managed files in a home directory.
//!
//! The previous state of the machine is reconciled with what is on disk
//! (`drift`), the desired state is built from package manifests (`builder`,
//! `package`, `builtin`), the two are compared package by package (`diff`),
//! and the comparison becomes an ordered list of operations (`apply`). The
//! data shapes are in `schema`, content digests in `digest`.

pub mod apply;
pub mod builder;
pub mod builtin;
pub mod catalog;
pub mod diff;
pub mod digest;
pub mod drift;
pub mod package;
pub mod schema;
