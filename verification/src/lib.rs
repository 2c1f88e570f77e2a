//! Structural code search over parsed JavaScript/TypeScript modules.
//!
//! Given a model of a parsed source file (its syntax tree and the line
//! structure of its text), the library finds the spans of import
//! declarations referencing a given module source, or of markup elements
//! with a given tag name and attribute filter, resolves each span to a
//! source location and line snippet, and renders the results through one
//! of three output sinks.  Reading files, parsing them, and printing are
//! left to the surrounding program.

use vstd::prelude::*;

pub mod analysis;
pub mod ast;
pub mod logger;
pub mod parser;
pub mod processor;
pub mod source_map;
pub mod utils;

verus! {

pub use crate::ast::Span;

} // verus!
