//! An aggregate (struct) entity of the catalog: a name, its ordered fields,
//! an optional source location, and the methods attached to it during
//! resolution.

use vstd::prelude::*;

use crate::function::{Function, FunctionV};
use crate::name::Name;

verus! {

/// A field of an aggregate type.
#[derive(Debug)]
pub struct Field {
    name: Name,
    template_type: Option<String>,
    ty: String,
}

/// The mathematical value of a field.
pub struct FieldV {
    pub name: Seq<char>,
    pub template_type: Option<Seq<char>>,
    pub ty: Seq<char>,
}

impl View for Field {
    type V = FieldV;

    closed spec fn view(&self) -> FieldV {
        FieldV { name: self.name@, template_type: self.template_type.deep_view(), ty: self.ty@ }
    }
}

impl DeepView for Field {
    type V = FieldV;

    open spec fn deep_view(&self) -> FieldV {
        self.view()
    }
}

impl Field {
    /// Builds a new struct field from the parsed data.
    pub fn from_parsed(name: Name, template_type: Option<String>, ty: String) -> (r: Self)
        ensures
            r@ == (FieldV { name: name@, template_type: template_type.deep_view(), ty: ty@ }),
    {
        Self { name, template_type, ty }
    }
}

/// An aggregate type of the foreign API.
#[derive(Debug)]
pub struct Struct {
    name: Name,
    fields: Vec<Field>,
    location: Option<(String, i64)>,
    methods: Vec<Function>,
}

/// The mathematical value of an aggregate type.
pub struct StructV {
    pub name: Seq<char>,
    pub fields: Seq<FieldV>,
    pub location: Option<(Seq<char>, i64)>,
    pub methods: Seq<FunctionV>,
}

impl View for Struct {
    type V = StructV;

    closed spec fn view(&self) -> StructV {
        StructV {
            name: self.name@,
            fields: self.fields.deep_view(),
            location: self.location.deep_view(),
            methods: self.methods.deep_view(),
        }
    }
}

impl DeepView for Struct {
    type V = StructV;

    open spec fn deep_view(&self) -> StructV {
        self.view()
    }
}

impl Struct {
    /// Builds a new struct from the parsed data, with no location and no
    /// methods attached yet.
    pub fn from_parsed(name: Name, fields: Vec<Field>) -> (r: Self)
        ensures
            r@ == (StructV {
                name: name@,
                fields: fields.deep_view(),
                location: None,
                methods: Seq::empty(),
            }),
    {
        let methods: Vec<Function> = Vec::new();
        proof {
            assert(methods.deep_view() =~= Seq::<FunctionV>::empty());
        }
        Self { name, fields, location: None, methods }
    }

    /// Attaches location information.
    pub fn add_location(&mut self, filename: &str, line_number: i64)
        ensures
            final(self)@ == (StructV { location: Some((filename@, line_number)), ..old(self)@ }),
    {
        self.location = Some((filename.to_owned(), line_number));
    }

    /// Attaches a method.
    pub fn add_method(&mut self, method: Function)
        ensures
            final(self)@ == (StructV { methods: old(self)@.methods.push(method@), ..old(self)@ }),
    {
        let ghost m = method@;
        self.methods.push(method);
        proof {
            assert(self.methods.deep_view() =~= old(self).methods.deep_view().push(m));
        }
    }

    /// Whether this struct's name equals the given type name.
    pub fn is_same(&self, ty: &str) -> (r: bool)
        ensures
            r == (self@.name == ty@),
    {
        crate::text::str_eq(self.name.imgui(), ty)
    }

    /// The struct's name.
    pub fn name(&self) -> (r: &Name)
        ensures
            r@ == self@.name,
    {
        &self.name
    }

    /// The struct's ordered field list.
    pub fn fields(&self) -> (r: &Vec<Field>)
        ensures
            r.deep_view() == self@.fields,
    {
        &self.fields
    }

    /// The attached location, if any.
    pub fn location(&self) -> (r: &Option<(String, i64)>)
        ensures
            r.deep_view() == self@.location,
    {
        &self.location
    }

    /// The methods attached so far, in attachment order.
    pub fn methods(&self) -> (r: &Vec<Function>)
        ensures
            r.deep_view() == self@.methods,
    {
        &self.methods
    }
}

} // verus!
