//! The protobuf descriptor model and its parser.
pub mod grammar;
pub mod parser;
pub mod types;
