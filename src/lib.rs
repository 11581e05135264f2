//! Front-end pieces of a compiler for a gradually typed, class-based
//! language: the expression tree and its markup desugaring, the declaration
//! model of classes with generic substitution and inheritance folding, and
//! the assembly of a file's declaration summary.
pub mod ast;
pub mod decl_defs;
pub mod names;
pub mod parsed_file;
pub mod rewrite_xml;
