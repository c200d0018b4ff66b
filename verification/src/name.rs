//! A raw foreign identifier that can present itself in the foreign (cimgui)
//! spelling or in the Lua naming convention.

use vstd::prelude::*;

verus! {

/// The Lua spelling that case conversion yields for a given foreign spelling.
/// The result depends on the characters of the input alone.
pub uninterp spec fn snake_of(s: Seq<char>) -> Seq<char>;

/// Relies on inflector's `to_snake_case`: a pure case conversion whose result
/// depends only on the characters of the input.
#[verifier::external_body]
fn to_snake_case(s: &str) -> (r: String)
    ensures
        r@ == snake_of(s@),
{
    inflector::cases::snakecase::to_snake_case(s)
}

/// A cimgui name string that can be converted to the requested case.
#[derive(Debug, Clone)]
pub struct Name(String);

impl View for Name {
    type V = Seq<char>;

    closed spec fn view(&self) -> Seq<char> {
        self.0@
    }
}

impl Name {
    /// Wrap a raw cimgui spelling.
    pub fn from_string(name: String) -> (r: Self)
        ensures
            r@ == name@,
    {
        Name(name)
    }

    /// Wrap a raw cimgui spelling given as a slice.
    pub fn from_str(name: &str) -> (r: Self)
        ensures
            r@ == name@,
    {
        Name(name.to_owned())
    }

    /// The cimgui representation.
    pub fn imgui(&self) -> (r: &str)
        ensures
            r@ == self@,
    {
        self.0.as_str()
    }

    /// The converted Lua representation.
    pub fn lua(&self) -> (r: String)
        ensures
            r@ == snake_of(self@),
    {
        to_snake_case(self.0.as_str())
    }
}

} // verus!
