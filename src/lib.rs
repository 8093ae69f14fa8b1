//! Static provenance analysis of call-package style package definitions.
//!
//! The analysis evaluates a definition over an abstract value domain: it tracks
//! which well-known input (library, package set, configuration) each value of
//! the resulting attribute set comes from, without computing concrete values.
pub mod ast;
pub mod attrs;
pub mod error;
pub mod eval;
pub mod module;
pub mod namespace;
pub mod scope;
pub mod value;
