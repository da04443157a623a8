//! Tools that read protobuf definitions and generate Lua handler code.
use vstd::prelude::*;

pub mod cliparse;
pub mod luaparser;
pub mod proto2lua;
pub mod proto_2_lua;
pub mod strings;
pub mod text;

verus! {

} // verus!
