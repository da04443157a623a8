//! Pieces of Lua source: comments, names, strings and number literals.
pub mod grammar;
pub mod parser;
