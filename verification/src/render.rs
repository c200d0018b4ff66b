//! The rendering boundary: anything that can spell itself as Lua wrapper
//! text, Lua documentation, and a LuaJIT cdef declaration, given the catalog.

use vstd::prelude::*;

use crate::types::Type;

verus! {

/// Implemented by entities that render against a catalog of types.
pub trait Render {
    /// Whether the entity can be rendered against `types`: every type name it
    /// mentions must classify.
    spec fn renderable(&self, types: &Vec<Type>) -> bool;

    /// The Lua wrapper text the entity renders to.
    spec fn lua_spec(&self, types: &Vec<Type>) -> Seq<char>;

    /// The Lua documentation text the entity renders to.
    spec fn doc_spec(&self, types: &Vec<Type>) -> Seq<char>;

    /// The LuaJIT cdef declaration the entity renders to.
    spec fn cdef_spec(&self, types: &Vec<Type>) -> Seq<char>;

    /// Renders the Lua wrapper.
    fn lua(&self, types: &Vec<Type>) -> (r: String)
        requires
            self.renderable(types),
        ensures
            r@ == self.lua_spec(types),
    ;

    /// Renders the Lua documentation.
    fn doc(&self, types: &Vec<Type>) -> (r: String)
        ensures
            r@ == self.doc_spec(types),
    ;

    /// Renders the LuaJIT cdef declaration.
    fn cdef(&self, types: &Vec<Type>) -> (r: String)
        ensures
            r@ == self.cdef_spec(types),
    ;
}

} // verus!
