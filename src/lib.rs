//! Extraction of enum-like types and of methods from a parsed source file.
//!
//! Source declarations are handed to the library as plain values (see
//! `source`); the library classifies type declarations, aggregates doc
//! comments, reads integer constants and catalogs methods, all verified.

pub mod source;
pub mod text;
pub mod comment;
pub mod classify;
pub mod extract;
pub mod builder;
