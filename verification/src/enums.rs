//! An enumeration entity of the catalog: a name, its ordered values, and an
//! optional source location attached after construction.

use vstd::prelude::*;

verus! {

/// One value of an enumeration: name, original textual value expression, and
/// the calculated integer value.
#[derive(Debug)]
pub struct Value {
    name: String,
    value: String,
    calculated_value: i64,
}

/// The mathematical value of an enumeration value.
pub struct ValueV {
    pub name: Seq<char>,
    pub value: Seq<char>,
    pub calculated_value: i64,
}

impl View for Value {
    type V = ValueV;

    closed spec fn view(&self) -> ValueV {
        ValueV { name: self.name@, value: self.value@, calculated_value: self.calculated_value }
    }
}

impl DeepView for Value {
    type V = ValueV;

    open spec fn deep_view(&self) -> ValueV {
        self.view()
    }
}

impl Value {
    /// Builds a new enum value from the parsed data.
    pub fn from_parsed(name: String, value: String, calculated_value: i64) -> (r: Self)
        ensures
            r@ == (ValueV { name: name@, value: value@, calculated_value }),
    {
        Self { name, value, calculated_value }
    }
}

/// An enumeration of the foreign API.
#[derive(Debug)]
pub struct Enum {
    name: String,
    values: Vec<Value>,
    location: Option<(String, i64)>,
}

/// The mathematical value of an enumeration.
pub struct EnumV {
    pub name: Seq<char>,
    pub values: Seq<ValueV>,
    pub location: Option<(Seq<char>, i64)>,
}

impl View for Enum {
    type V = EnumV;

    closed spec fn view(&self) -> EnumV {
        EnumV {
            name: self.name@,
            values: self.values.deep_view(),
            location: self.location.deep_view(),
        }
    }
}

impl DeepView for Enum {
    type V = EnumV;

    open spec fn deep_view(&self) -> EnumV {
        self.view()
    }
}

impl Enum {
    /// Builds a new enum from the parsed data, with no location attached yet.
    pub fn from_parsed(name: String, values: Vec<Value>) -> (r: Self)
        ensures
            r@ == (EnumV { name: name@, values: values.deep_view(), location: None }),
    {
        Self { name, values, location: None }
    }

    /// Attaches location information.
    pub fn add_location(&mut self, filename: &str, line_number: i64)
        ensures
            final(self)@ == (EnumV { location: Some((filename@, line_number)), ..old(self)@ }),
    {
        self.location = Some((filename.to_owned(), line_number));
    }

    /// Whether this enum's name equals the given type name.
    pub fn is_same(&self, ty: &str) -> (r: bool)
        ensures
            r == (self@.name == ty@),
    {
        crate::text::str_eq(self.name.as_str(), ty)
    }

    /// The enum's name.
    pub fn name(&self) -> (r: &str)
        ensures
            r@ == self@.name,
    {
        self.name.as_str()
    }

    /// The attached location, if any.
    pub fn location(&self) -> (r: &Option<(String, i64)>)
        ensures
            r.deep_view() == self@.location,
    {
        &self.location
    }
}

} // verus!
