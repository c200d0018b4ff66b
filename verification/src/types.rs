//! The closed union over aggregate, enumeration and foreign primitive types:
//! the single addressable unit the catalog stores. Lookup is by exact name
//! equality; classification maps a type to the Lua primitive category used to
//! choose a runtime validation check.

use vstd::prelude::*;

use crate::enums::{Enum, EnumV};
use crate::error::{Error, ErrorV};
use crate::function::Function;
use crate::structs::{Struct, StructV};
use crate::text::str_eq;

verus! {

/// Any cimgui or C type.
#[derive(Debug)]
pub enum Type {
    Enum(Enum),
    Struct(Struct),
    C(String),
}

/// The mathematical value of a type.
pub enum TypeV {
    Enum(EnumV),
    Struct(StructV),
    C(Seq<char>),
}

impl View for Type {
    type V = TypeV;

    open spec fn view(&self) -> TypeV {
        match self {
            Type::Enum(e) => TypeV::Enum(e@),
            Type::Struct(s) => TypeV::Struct(s@),
            Type::C(c) => TypeV::C(c@),
        }
    }
}

impl DeepView for Type {
    type V = TypeV;

    open spec fn deep_view(&self) -> TypeV {
        self.view()
    }
}

/// The name a type is addressed by in the catalog.
pub open spec fn spec_ty_name(t: TypeV) -> Seq<char> {
    match t {
        TypeV::Enum(e) => e.name,
        TypeV::Struct(s) => s.name,
        TypeV::C(c) => c,
    }
}

/// The Lua primitive category of a type: structs check as tables, enums as
/// numbers, and the fixed C primitive spellings by a fixed mapping. An
/// unrecognized C spelling has no category.
pub open spec fn spec_classification(t: TypeV) -> Option<Seq<char>> {
    match t {
        TypeV::Struct(_) => Some("table"@),
        TypeV::Enum(_) => Some("number"@),
        TypeV::C(c) => if c == "int"@ || c == "float"@ {
            Some("number"@)
        } else if c == "bool"@ {
            Some("boolean"@)
        } else if c == "const char*"@ || c == "char*"@ {
            Some("string"@)
        } else {
            None
        },
    }
}

/// The type with a location attached: a no-op on C primitives.
pub open spec fn spec_add_location(t: TypeV, filename: Seq<char>, line_number: i64) -> TypeV {
    match t {
        TypeV::Enum(e) => TypeV::Enum(EnumV { location: Some((filename, line_number)), ..e }),
        TypeV::Struct(s) => TypeV::Struct(
            StructV { location: Some((filename, line_number)), ..s },
        ),
        TypeV::C(c) => TypeV::C(c),
    }
}

/// The index of the first type in `types` whose name equals `name`.
pub open spec fn find_type_idx(types: Seq<TypeV>, name: Seq<char>) -> Option<int>
    decreases types.len(),
{
    if types.len() == 0 {
        None
    } else if spec_ty_name(types[0]) == name {
        Some(0)
    } else {
        match find_type_idx(types.skip(1), name) {
            Some(i) => Some(i + 1),
            None => None,
        }
    }
}

/// What `find_type_idx` finds is the first match.
pub proof fn lemma_find_type_idx(types: Seq<TypeV>, name: Seq<char>)
    ensures
        match find_type_idx(types, name) {
            Some(i) => {
                &&& 0 <= i < types.len()
                &&& spec_ty_name(types[i]) == name
                &&& forall|j: int| 0 <= j < i ==> spec_ty_name(#[trigger] types[j]) != name
            },
            None => forall|j: int|
                0 <= j < types.len() ==> spec_ty_name(#[trigger] types[j]) != name,
        },
    decreases types.len(),
{
    if types.len() > 0 && spec_ty_name(types[0]) != name {
        lemma_find_type_idx(types.skip(1), name);
        assert(forall|j: int|
            1 <= j < types.len() ==> #[trigger] types[j] == types.skip(1)[j - 1]);
    }
}

impl Type {
    /// The fixed list of foreign primitive C types every catalog contains.
    pub fn default_list() -> (r: Vec<Type>)
        ensures
            r.deep_view() =~= seq![TypeV::C("char*"@), TypeV::C("int"@), TypeV::C("float"@)],
    {
        let mut v: Vec<Type> = Vec::new();
        v.push(Type::C("char*".to_owned()));
        v.push(Type::C("int".to_owned()));
        v.push(Type::C("float".to_owned()));
        v
    }

    /// Whether this type's name equals the given string.
    pub fn is_same(&self, ty: &str) -> (r: bool)
        ensures
            r == (spec_ty_name(self@) == ty@),
    {
        match self {
            Type::Enum(e) => e.is_same(ty),
            Type::Struct(s) => s.is_same(ty),
            Type::C(c) => str_eq(c.as_str(), ty),
        }
    }

    /// Attaches location information; only structs and enums carry one.
    pub fn add_location(&mut self, filename: &str, line_number: i64)
        ensures
            final(self)@ == spec_add_location(old(self)@, filename@, line_number),
    {
        match self {
            Type::Enum(e) => e.add_location(filename, line_number),
            Type::Struct(s) => s.add_location(filename, line_number),
            Type::C(_) => (),
        }
    }

    /// Attaches a method; only structs own methods, so attaching to an enum
    /// or a C primitive is rejected.
    pub fn add_method(&mut self, method: Function) -> (r: Result<(), Error>)
        ensures
            match old(self)@ {
                TypeV::Struct(s) => {
                    &&& r is Ok
                    &&& final(self)@ == TypeV::Struct(
                        StructV { methods: s.methods.push(method@), ..s },
                    )
                },
                _ => {
                    &&& final(self)@ == old(self)@
                    &&& r is Err
                    &&& r->Err_0@ == ErrorV::Unsupported(spec_ty_name(old(self)@))
                },
            },
    {
        match self {
            Type::Struct(s) => {
                s.add_method(method);
                Ok(())
            },
            Type::Enum(e) => Err(Error::Unsupported(e.name().to_owned())),
            Type::C(c) => Err(Error::Unsupported(c.clone())),
        }
    }

    /// The Lua primitive category of this type.
    pub fn lua_primitive_type(&self) -> (r: Result<String, Error>)
        ensures
            match spec_classification(self@) {
                Some(s) => r is Ok && r->Ok_0@ == s,
                None => r is Err && r->Err_0@ == (ErrorV::UnknownType {
                    ty_name: spec_ty_name(self@),
                    context: Seq::empty(),
                }),
            },
    {
        match self {
            Type::Struct(_) => Ok("table".to_owned()),
            Type::Enum(_) => Ok("number".to_owned()),
            Type::C(c) => {
                if str_eq(c.as_str(), "int") || str_eq(c.as_str(), "float") {
                    Ok("number".to_owned())
                } else if str_eq(c.as_str(), "bool") {
                    Ok("boolean".to_owned())
                } else if str_eq(c.as_str(), "const char*") || str_eq(c.as_str(), "char*") {
                    Ok("string".to_owned())
                } else {
                    Err(Error::UnknownType { ty_name: c.clone(), context: String::new() })
                }
            },
        }
    }
}

/// Classification is a fixed mapping: the foreign integer and floating-point
/// spellings classify as "number", the character-pointer spellings (with or
/// without a const qualifier) as "string", the boolean spelling as "boolean",
/// and every aggregate as "table" and every enumeration as "number"
/// regardless of their contents.
pub proof fn lemma_classification_fixed()
    ensures
        spec_classification(TypeV::C("int"@)) == Some("number"@),
        spec_classification(TypeV::C("float"@)) == Some("number"@),
        spec_classification(TypeV::C("bool"@)) == Some("boolean"@),
        spec_classification(TypeV::C("char*"@)) == Some("string"@),
        spec_classification(TypeV::C("const char*"@)) == Some("string"@),
        forall|s: StructV| spec_classification(TypeV::Struct(s)) == Some("table"@),
        forall|e: EnumV| spec_classification(TypeV::Enum(e)) == Some("number"@),
{
    broadcast use vstd::string::group_string_axioms;

    reveal_strlit("int");
    reveal_strlit("float");
    reveal_strlit("bool");
    reveal_strlit("char*");
    reveal_strlit("const char*");
    assert("bool"@.len() == 4);
    assert("int"@.len() == 3);
    assert("float"@.len() == 5);
    assert("char*"@.len() == 5);
    assert("char*"@[0] == 'c');
    assert("float"@[0] == 'f');
    assert("const char*"@.len() == 11);
}

/// Finds the index of the first type in `types` whose name equals `name`.
pub fn find_type_index(types: &Vec<Type>, name: &str) -> (r: Option<usize>)
    ensures
        match r {
            Some(i) => {
                &&& find_type_idx(types.deep_view(), name@) == Some(i as int)
                &&& i < types@.len()
                &&& spec_ty_name(types.deep_view()[i as int]) == name@
            },
            None => find_type_idx(types.deep_view(), name@) is None,
        },
{
    let ghost tv = types.deep_view();
    proof {
        lemma_find_type_idx(tv, name@);
    }
    let mut i: usize = 0;
    while i < types.len()
        invariant
            0 <= i <= types.len(),
            tv == types.deep_view(),
            tv.len() == types.len(),
            forall|j: int| 0 <= j < i ==> spec_ty_name(#[trigger] tv[j]) != name@,
            match find_type_idx(tv, name@) {
                Some(k) => {
                    &&& 0 <= k < tv.len()
                    &&& spec_ty_name(tv[k]) == name@
                    &&& forall|j: int| 0 <= j < k ==> spec_ty_name(#[trigger] tv[j]) != name@
                },
                None => forall|j: int|
                    0 <= j < tv.len() ==> spec_ty_name(#[trigger] tv[j]) != name@,
            },
        decreases types.len() - i,
    {
        proof {
            assert(types[i as int].deep_view() == tv[i as int]);
        }
        if types[i].is_same(name) {
            proof {
                if find_type_idx(tv, name@) is None {
                    assert(false);
                }
                if find_type_idx(tv, name@)->Some_0 != i as int {
                    assert(false);
                }
            }
            return Some(i);
        }
        i = i + 1;
    }
    None
}

/// A list of types addressable by name.
pub trait TypeList {
    type Output: View;

    /// The value of the first entry matching `name`, if any.
    spec fn spec_find(&self, name: Seq<char>) -> Option<<Self::Output as View>::V>;

    /// Finds a type by its cimgui name.
    fn find<'a>(&'a self, imgui_type: &str) -> (r: Result<&'a Self::Output, Error>)
        ensures
            match r {
                Ok(t) => self.spec_find(imgui_type@) == Some(t@),
                Err(e) => self.spec_find(imgui_type@) is None && e@ == (ErrorV::UnknownType {
                    ty_name: imgui_type@,
                    context: Seq::empty(),
                }),
            },
    ;
}

impl TypeList for Vec<Type> {
    type Output = Type;

    open spec fn spec_find(&self, name: Seq<char>) -> Option<TypeV> {
        match find_type_idx(self.deep_view(), name) {
            Some(i) => Some(self.deep_view()[i]),
            None => None,
        }
    }

    fn find<'a>(&'a self, imgui_type: &str) -> (r: Result<&'a Type, Error>) {
        let ghost tv = self.deep_view();
        let mut i: usize = 0;
        proof {
            lemma_find_type_idx(tv, imgui_type@);
        }
        while i < self.len()
            invariant
                0 <= i <= self.len(),
                tv == self.deep_view(),
                tv.len() == self.len(),
                forall|j: int| 0 <= j < i ==> spec_ty_name(#[trigger] tv[j]) != imgui_type@,
                match find_type_idx(tv, imgui_type@) {
                    Some(k) => {
                        &&& 0 <= k < tv.len()
                        &&& spec_ty_name(tv[k]) == imgui_type@
                        &&& forall|j: int|
                            0 <= j < k ==> spec_ty_name(#[trigger] tv[j]) != imgui_type@
                    },
                    None => forall|j: int|
                        0 <= j < tv.len() ==> spec_ty_name(#[trigger] tv[j]) != imgui_type@,
                },
            decreases self.len() - i,
        {
            proof {
                assert(self[i as int].deep_view() == tv[i as int]);
            }
            if self[i].is_same(imgui_type) {
                proof {
                    if find_type_idx(tv, imgui_type@) is None {
                        assert(false);
                    }
                    if find_type_idx(tv, imgui_type@)->Some_0 != i as int {
                        assert(false);
                    }
                }
                return Ok(&self[i]);
            }
            i = i + 1;
        }
        Err(Error::UnknownType { ty_name: imgui_type.to_owned(), context: String::new() })
    }
}

} // verus!
