//! Lua handler files generated line by line from `.proto` files.
pub mod class_def;
pub mod pattern;
pub mod scan;
pub mod route;
pub mod handler;
pub mod update;
