//! A callable of the foreign API: a free function or a method, with its
//! ordered argument list, optional return type and verbatim signature text.

use vstd::prelude::*;

use crate::error::{Error, ErrorV};
use crate::name::{snake_of, Name};
use crate::render::Render;
use crate::text::{dec_string, join, spec_dec_str, spec_join};
use crate::types::{find_type_idx, spec_classification, spec_ty_name, Type, TypeList, TypeV};

verus! {

/// A function or method argument.
#[derive(Debug)]
pub struct Arg {
    name: String,
    default_value: Option<String>,
    ty: String,
    index: usize,
}

/// The mathematical value of an argument.
pub struct ArgV {
    pub name: Seq<char>,
    pub default_value: Option<Seq<char>>,
    pub ty: Seq<char>,
    pub index: usize,
}

impl View for Arg {
    type V = ArgV;

    closed spec fn view(&self) -> ArgV {
        ArgV {
            name: self.name@,
            default_value: self.default_value.deep_view(),
            ty: self.ty@,
            index: self.index,
        }
    }
}

impl DeepView for Arg {
    type V = ArgV;

    open spec fn deep_view(&self) -> ArgV {
        self.view()
    }
}

/// The `name` spelling used in a generated runtime check: the bare argument
/// name, or `<name> or <default>` when the argument has a default value.
pub open spec fn spec_name_part(a: ArgV) -> Seq<char> {
    match a.default_value {
        Some(d) => a.name + " or "@ + d,
        None => a.name,
    }
}

/// The generated runtime check line for one argument, or the error when its
/// declared type cannot be classified against the catalog.
pub open spec fn spec_check_string(a: ArgV, types: Seq<TypeV>) -> Result<Seq<char>, ErrorV> {
    match find_type_idx(types, a.ty) {
        None => Err(ErrorV::UnknownType { ty_name: a.ty, context: a.name }),
        Some(i) => match spec_classification(types[i]) {
            None => Err(
                ErrorV::UnknownType { ty_name: spec_ty_name(types[i]), context: Seq::empty() },
            ),
            Some(lua_ty) => Ok(
                "    "@ + spec_name_part(a) + " = arg_check("@ + spec_name_part(a) + ", \""@
                    + lua_ty + "\", "@ + spec_dec_str(a.index as int) + ")"@,
            ),
        },
    }
}

impl Arg {
    /// Builds a new argument from the parsed data.
    pub fn from_parsed(name: String, default_value: Option<String>, ty: String, index: usize) -> (r:
        Self)
        ensures
            r@ == (ArgV {
                name: name@,
                default_value: default_value.deep_view(),
                ty: ty@,
                index,
            }),
    {
        Self { name, default_value, ty, index }
    }

    /// The name of the argument.
    pub fn name(&self) -> (r: &str)
        ensures
            r@ == self@.name,
    {
        self.name.as_str()
    }

    /// The declared type name of the argument.
    pub fn ty_name(&self) -> (r: &str)
        ensures
            r@ == self@.ty,
    {
        self.ty.as_str()
    }

    /// The default-value expression text, if any.
    pub fn default_value(&self) -> (r: &Option<String>)
        ensures
            r.deep_view() == self@.default_value,
    {
        &self.default_value
    }

    /// The positional index of the argument in its callable.
    pub fn index(&self) -> (r: usize)
        ensures
            r == self@.index,
    {
        self.index
    }

    /// Resolves the argument's declared type against the catalog.
    pub fn ty<'a>(&self, types: &'a Vec<Type>) -> (r: Result<&'a Type, Error>)
        ensures
            match r {
                Ok(t) => {
                    &&& find_type_idx(types.deep_view(), self@.ty) is Some
                    &&& t@ == types.deep_view()[find_type_idx(types.deep_view(), self@.ty)->Some_0]
                },
                Err(e) => {
                    &&& find_type_idx(types.deep_view(), self@.ty) is None
                    &&& e@ == (ErrorV::UnknownType { ty_name: self@.ty, context: self@.name })
                },
            },
    {
        match types.find(self.ty.as_str()) {
            Ok(t) => Ok(t),
            Err(_) => Err(
                Error::UnknownType { ty_name: self.ty.clone(), context: self.name.clone() },
            ),
        }
    }

    /// The generated Lua runtime check for this argument.
    pub fn check_string(&self, types: &Vec<Type>) -> (r: Result<String, Error>)
        ensures
            match r {
                Ok(s) => spec_check_string(self@, types.deep_view()) == Ok::<_, ErrorV>(s@),
                Err(e) => spec_check_string(self@, types.deep_view()) == Err::<Seq<char>, _>(e@),
            },
    {
        let t = match self.ty(types) {
            Ok(t) => t,
            Err(e) => {
                return Err(e);
            },
        };
        let lua_ty = match t.lua_primitive_type() {
            Ok(s) => s,
            Err(e) => {
                return Err(e);
            },
        };
        let name_part = match &self.default_value {
            Some(d) => {
                let mut n = self.name.clone();
                n.append(" or ");
                n.append(d.as_str());
                n
            },
            None => self.name.clone(),
        };
        let mut s = String::new();
        s.append("    ");
        s.append(name_part.as_str());
        s.append(" = arg_check(");
        s.append(name_part.as_str());
        s.append(", \"");
        s.append(lua_ty.as_str());
        s.append("\", ");
        let idx = dec_string(self.index);
        s.append(idx.as_str());
        s.append(")");
        Ok(s)
    }
}

/// A foreign function or method.
#[derive(Debug)]
pub struct Function {
    name: Name,
    args: Vec<Arg>,
    ret: Option<String>,
    location: Option<(String, i64)>,
    signature: String,
}

/// The mathematical value of a callable.
pub struct FunctionV {
    pub name: Seq<char>,
    pub args: Seq<ArgV>,
    pub ret: Option<Seq<char>>,
    pub location: Option<(Seq<char>, i64)>,
    pub signature: Seq<char>,
}

impl View for Function {
    type V = FunctionV;

    closed spec fn view(&self) -> FunctionV {
        FunctionV {
            name: self.name@,
            args: self.args.deep_view(),
            ret: self.ret.deep_view(),
            location: self.location.deep_view(),
            signature: self.signature@,
        }
    }
}

impl DeepView for Function {
    type V = FunctionV;

    open spec fn deep_view(&self) -> FunctionV {
        self.view()
    }
}

impl Function {
    /// Builds a new callable from the parsed data.
    pub fn from_parsed(
        name: Name,
        args: Vec<Arg>,
        location: Option<(String, i64)>,
        ret: Option<String>,
        signature: String,
    ) -> (r: Self)
        ensures
            r@ == (FunctionV {
                name: name@,
                args: args.deep_view(),
                ret: ret.deep_view(),
                location: location.deep_view(),
                signature: signature@,
            }),
    {
        Self { name, args, location, ret, signature }
    }

    /// The callable's name.
    pub fn name(&self) -> (r: &Name)
        ensures
            r@ == self@.name,
    {
        &self.name
    }

    /// The callable's ordered argument list.
    pub fn args(&self) -> (r: &Vec<Arg>)
        ensures
            r.deep_view() == self@.args,
    {
        &self.args
    }

    /// The declared return type name, if any.
    pub fn ret(&self) -> (r: &Option<String>)
        ensures
            r.deep_view() == self@.ret,
    {
        &self.ret
    }

    /// The attached source location, if any.
    pub fn location(&self) -> (r: &Option<(String, i64)>)
        ensures
            r.deep_view() == self@.location,
    {
        &self.location
    }

    /// The verbatim foreign parameter-list signature text.
    pub fn signature(&self) -> (r: &str)
        ensures
            r@ == self@.signature,
    {
        self.signature.as_str()
    }
}

/// Whether every argument of `f` classifies against the catalog, so that the
/// Lua wrapper for `f` can be rendered.
pub open spec fn spec_fn_renderable(f: FunctionV, types: Seq<TypeV>) -> bool {
    forall|i: int| 0 <= i < f.args.len() ==> (#[trigger] spec_check_string(f.args[i], types)) is Ok
}

/// The Lua wrapper text for a callable: the wrapper header, one runtime check
/// per argument, and the call.
pub open spec fn spec_fn_lua(f: FunctionV, types: Seq<TypeV>) -> Seq<char>
    recommends
        spec_fn_renderable(f, types),
{
    "function gui."@ + snake_of(f.name) + "("@ + spec_join(
        f.args.map_values(|a: ArgV| a.name),
        ", "@,
    ) + ")\n"@ + spec_join(
        f.args.map_values(|a: ArgV| spec_check_string(a, types)->Ok_0),
        "\n"@,
    ) + "\n    -- call\n    "@ + (if f.ret is Some {
        "return ret"@
    } else {
        Seq::<char>::empty()
    }) + "\nend\n"@
}

/// The foreign declaration line for a callable:
/// `<return-type-or-void> <foreign-name><verbatim-signature>;`.
pub open spec fn spec_fn_cdef(f: FunctionV) -> Seq<char> {
    (match f.ret {
        Some(rt) => rt,
        None => "void"@,
    }) + " "@ + f.name + f.signature + ";"@
}

impl Render for Function {
    open spec fn renderable(&self, types: &Vec<Type>) -> bool {
        spec_fn_renderable(self@, types.deep_view())
    }

    open spec fn lua_spec(&self, types: &Vec<Type>) -> Seq<char> {
        spec_fn_lua(self@, types.deep_view())
    }

    open spec fn doc_spec(&self, types: &Vec<Type>) -> Seq<char> {
        Seq::empty()
    }

    open spec fn cdef_spec(&self, types: &Vec<Type>) -> Seq<char> {
        spec_fn_cdef(self@)
    }

    fn lua(&self, types: &Vec<Type>) -> (r: String) {
        let ghost argvs = self@.args;
        let ghost names_model = argvs.map_values(|a: ArgV| a.name);
        let ghost checks_model = argvs.map_values(
            |a: ArgV| spec_check_string(a, types.deep_view())->Ok_0,
        );
        let mut names: Vec<String> = Vec::new();
        let mut checks: Vec<String> = Vec::new();
        let mut i: usize = 0;
        while i < self.args.len()
            invariant
                0 <= i <= self.args.len(),
                argvs == self@.args,
                self.args.deep_view() == argvs,
                argvs.len() == self.args.len(),
                names_model == argvs.map_values(|a: ArgV| a.name),
                checks_model == argvs.map_values(
                    |a: ArgV| spec_check_string(a, types.deep_view())->Ok_0,
                ),
                spec_fn_renderable(self@, types.deep_view()),
                names_model.len() == argvs.len(),
                checks_model.len() == argvs.len(),
                names@.len() == i,
                checks@.len() == i,
                names.deep_view() == names_model.take(i as int),
                checks.deep_view() == checks_model.take(i as int),
            decreases self.args.len() - i,
        {
            proof {
                assert(self.args[i as int].deep_view() == argvs[i as int]);
                assert(names_model[i as int] == argvs[i as int].name);
                assert(checks_model[i as int] == spec_check_string(
                    argvs[i as int],
                    types.deep_view(),
                )->Ok_0);
            }
            names.push(self.args[i].name().to_owned());
            let check = match self.args[i].check_string(types) {
                Ok(c) => c,
                Err(_) => {
                    proof {
                        assert(spec_check_string(argvs[i as int], types.deep_view()) is Ok);
                        assert(false);
                    }
                    String::new()
                },
            };
            checks.push(check);
            proof {
                assert(names.deep_view() =~~= names_model.take(i + 1));
                assert(checks.deep_view() =~~= checks_model.take(i + 1));
            }
            i = i + 1;
        }
        proof {
            assert(names_model.take(argvs.len() as int) =~= names_model);
            assert(checks_model.take(argvs.len() as int) =~= checks_model);
        }
        let mut r = String::new();
        r.append("function gui.");
        let lua_name = self.name.lua();
        r.append(lua_name.as_str());
        r.append("(");
        let names_joined = join(&names, ", ");
        r.append(names_joined.as_str());
        r.append(")\n");
        let checks_joined = join(&checks, "\n");
        r.append(checks_joined.as_str());
        r.append("\n    -- call\n    ");
        match &self.ret {
            Some(_) => {
                r.append("return ret");
            },
            None => {},
        }
        r.append("\nend\n");
        r
    }

    fn doc(&self, types: &Vec<Type>) -> (r: String) {
        let r = String::new();
        proof {
            assert(r@ =~= Seq::<char>::empty());
        }
        r
    }

    fn cdef(&self, types: &Vec<Type>) -> (r: String) {
        let mut r = String::new();
        match &self.ret {
            Some(rt) => {
                r.append(rt.as_str());
            },
            None => {
                r.append("void");
            },
        }
        r.append(" ");
        r.append(self.name.imgui());
        r.append(self.signature.as_str());
        r.append(";");
        r
    }
}

} // verus!
