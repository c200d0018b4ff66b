//! Resolves cimgui's machine-generated JSON metadata (function definitions,
//! structs, enums, typedefs and source locations) into one cross-referenced
//! catalog of types and callables, and renders that catalog as Lua wrapper
//! functions and LuaJIT cdef declarations.

pub mod enums;
pub mod error;
pub mod function;
pub mod json;
pub mod name;
pub mod parser;
pub mod render;
pub mod structs;
pub mod text;
pub mod types;

use vstd::prelude::*;

verus! {

} // verus!
