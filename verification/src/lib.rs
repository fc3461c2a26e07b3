//! Locate code definitions in an already-parsed syntax tree.
//!
//! The library answers two questions about a source file whose syntax tree
//! has been handed over as a [`node::SyntaxNode`] value:
//!
//! - which definition (function, type alias, struct/union/enum with a body,
//!   macro) is the innermost one enclosing a given line, and
//! - which definitions does the file contain, as an outline ordered by line.
//!
//! Parsing itself is left to the caller: a host converts the parser's tree
//! into plain [`node::SyntaxNode`] values and the library does the rest.
#![verifier::loop_isolation(false)]

pub mod lang;
pub mod laws;
pub mod node;
pub mod query;
pub mod records;
pub mod signature;
pub mod sort;
pub mod walk;
pub mod text;
