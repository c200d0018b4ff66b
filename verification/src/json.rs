//! Typed shapes for the three cimgui metadata document kinds: definitions,
//! structs-and-enums-and-locations, and typedefs. Mappings keyed by name are
//! held as ordered pairs; callers hand them over already deserialized.

use vstd::prelude::*;

use crate::text::{parse_i64, spec_parse_i64};

verus! {

/// Corresponds to a typedefs document: typedef name to underlying type name.
#[derive(Debug)]
pub struct Typedefs(pub Vec<(String, String)>);

/// Corresponds to a definitions document: raw definition name to the list of
/// definition records (overloads) under that name.
#[derive(Debug)]
pub struct Definitions(pub Vec<(String, Vec<Definition>)>);

/// One function or method definition record.
#[derive(Debug)]
pub struct Definition {
    pub args: String,
    pub args_t: Vec<ArgT>,
    pub args_original: Option<String>,
    pub call_args: String,
    pub cimgui_name: String,
    pub defaults: Vec<(String, String)>,
    pub func_name: Option<String>,
    pub location: Option<Location>,
    pub ov_cimgui_name: String,
    pub ret: Option<String>,
    pub signature: String,
    pub struct_name: String,
    pub templated: bool,
}

/// A typed argument entry of a definition record.
#[derive(Debug)]
pub struct ArgT {
    pub name: String,
    pub ty: String,
}

/// The mathematical value of a definition record.
pub struct DefinitionV {
    pub args: Seq<char>,
    pub args_t: Seq<ArgTV>,
    pub args_original: Option<Seq<char>>,
    pub call_args: Seq<char>,
    pub cimgui_name: Seq<char>,
    pub defaults: Seq<(Seq<char>, Seq<char>)>,
    pub func_name: Option<Seq<char>>,
    pub location: Option<Seq<char>>,
    pub ov_cimgui_name: Seq<char>,
    pub ret: Option<Seq<char>>,
    pub signature: Seq<char>,
    pub struct_name: Seq<char>,
    pub templated: bool,
}

/// The mathematical value of a typed argument entry.
pub struct ArgTV {
    pub name: Seq<char>,
    pub ty: Seq<char>,
}

/// Corresponds to a structs-and-enums document: three independent mappings
/// keyed by type name.
#[derive(Debug)]
pub struct StructsAndEnums {
    pub enums: Vec<(String, Enum)>,
    pub locations: Vec<(String, Location)>,
    pub structs: Vec<(String, Struct)>,
}

/// The ordered value list of one enum entry.
#[derive(Debug)]
pub struct Enum(pub Vec<EnumValue>);

/// One enum value: name, literal value text, optional calculated value.
#[derive(Debug)]
pub struct EnumValue {
    pub name: String,
    pub calc_value: Option<i64>,
    pub value: String,
}

/// The mathematical value of an enum value entry.
pub struct EnumValueV {
    pub name: Seq<char>,
    pub calc_value: Option<i64>,
    pub value: Seq<char>,
}

/// The ordered field list of one struct entry.
#[derive(Debug)]
pub struct Struct(pub Vec<Field>);

/// One struct field: name, optional template parameter type, declared type.
#[derive(Debug)]
pub struct Field {
    pub name: String,
    pub template_type: Option<String>,
    pub ty: String,
}

/// The mathematical value of a struct field entry.
pub struct FieldV {
    pub name: Seq<char>,
    pub template_type: Option<Seq<char>>,
    pub ty: Seq<char>,
}

/// A source location string of the form `<file>:<line>`.
#[derive(Debug)]
pub struct Location(String);

impl View for ArgT {
    type V = ArgTV;

    open spec fn view(&self) -> ArgTV {
        ArgTV { name: self.name@, ty: self.ty@ }
    }
}

impl DeepView for ArgT {
    type V = ArgTV;

    open spec fn deep_view(&self) -> ArgTV {
        self.view()
    }
}

impl View for Definition {
    type V = DefinitionV;

    open spec fn view(&self) -> DefinitionV {
        DefinitionV {
            args: self.args@,
            args_t: self.args_t.deep_view(),
            args_original: self.args_original.deep_view(),
            call_args: self.call_args@,
            cimgui_name: self.cimgui_name@,
            defaults: self.defaults.deep_view(),
            func_name: self.func_name.deep_view(),
            location: self.location.deep_view(),
            ov_cimgui_name: self.ov_cimgui_name@,
            ret: self.ret.deep_view(),
            signature: self.signature@,
            struct_name: self.struct_name@,
            templated: self.templated,
        }
    }
}

impl DeepView for Definition {
    type V = DefinitionV;

    open spec fn deep_view(&self) -> DefinitionV {
        self.view()
    }
}

impl View for EnumValue {
    type V = EnumValueV;

    open spec fn view(&self) -> EnumValueV {
        EnumValueV { name: self.name@, calc_value: self.calc_value, value: self.value@ }
    }
}

impl DeepView for EnumValue {
    type V = EnumValueV;

    open spec fn deep_view(&self) -> EnumValueV {
        self.view()
    }
}

impl View for Enum {
    type V = Seq<EnumValueV>;

    open spec fn view(&self) -> Seq<EnumValueV> {
        self.0.deep_view()
    }
}

impl DeepView for Enum {
    type V = Seq<EnumValueV>;

    open spec fn deep_view(&self) -> Seq<EnumValueV> {
        self.view()
    }
}

impl View for Field {
    type V = FieldV;

    open spec fn view(&self) -> FieldV {
        FieldV { name: self.name@, template_type: self.template_type.deep_view(), ty: self.ty@ }
    }
}

impl DeepView for Field {
    type V = FieldV;

    open spec fn deep_view(&self) -> FieldV {
        self.view()
    }
}

impl View for Struct {
    type V = Seq<FieldV>;

    open spec fn view(&self) -> Seq<FieldV> {
        self.0.deep_view()
    }
}

impl DeepView for Struct {
    type V = Seq<FieldV>;

    open spec fn deep_view(&self) -> Seq<FieldV> {
        self.view()
    }
}

impl View for Typedefs {
    type V = Seq<(Seq<char>, Seq<char>)>;

    open spec fn view(&self) -> Seq<(Seq<char>, Seq<char>)> {
        self.0.deep_view()
    }
}

impl View for Definitions {
    type V = Seq<(Seq<char>, Seq<DefinitionV>)>;

    open spec fn view(&self) -> Seq<(Seq<char>, Seq<DefinitionV>)> {
        self.0.deep_view()
    }
}

impl View for Location {
    type V = Seq<char>;

    closed spec fn view(&self) -> Seq<char> {
        self.0@
    }
}

impl DeepView for Location {
    type V = Seq<char>;

    open spec fn deep_view(&self) -> Seq<char> {
        self.view()
    }
}

/// The index of the last `:` in `s`, if any.
pub open spec fn last_colon(s: Seq<char>) -> Option<int>
    decreases s.len(),
{
    if s.len() == 0 {
        None
    } else if s.last() == ':' {
        Some(s.len() - 1)
    } else {
        last_colon(s.drop_last())
    }
}

/// Whether a location string follows the `<file>:<line>` grammar: it has a
/// `:`, and what follows the last `:` is a decimal line number.
pub open spec fn loc_wf(s: Seq<char>) -> bool {
    match last_colon(s) {
        None => false,
        Some(i) => spec_parse_i64(s.skip(i + 1)) is Some,
    }
}

/// The filename part: everything before the last `:`.
pub open spec fn loc_filename(s: Seq<char>) -> Seq<char>
    recommends
        loc_wf(s),
{
    s.take(last_colon(s)->Some_0)
}

/// The line number part: the value of the digits after the last `:`.
pub open spec fn loc_line(s: Seq<char>) -> int
    recommends
        loc_wf(s),
{
    spec_parse_i64(s.skip(last_colon(s)->Some_0 + 1))->Some_0
}

proof fn lemma_last_colon_at(s: Seq<char>, i: int)
    requires
        0 <= i < s.len(),
        s[i] == ':',
        forall|j: int| i < j < s.len() ==> s[j] != ':',
    ensures
        last_colon(s) == Some(i),
    decreases s.len(),
{
    if i == s.len() - 1 {
    } else {
        assert(s.last() != ':');
        assert(s.drop_last()[i] == ':');
        lemma_last_colon_at(s.drop_last(), i);
    }
}

proof fn lemma_last_colon_none(s: Seq<char>)
    requires
        forall|j: int| 0 <= j < s.len() ==> s[j] != ':',
    ensures
        last_colon(s) is None,
    decreases s.len(),
{
    if s.len() > 0 {
        lemma_last_colon_none(s.drop_last());
    }
}

/// Finds the index of the last `:` in `s`, if any.
fn find_last_colon(s: &str) -> (r: Option<usize>)
    ensures
        match r {
            Some(i) => last_colon(s@) == Some(i as int) && i < s@.len(),
            None => last_colon(s@) is None,
        },
{
    let n = s.unicode_len();
    let mut i: usize = n;
    while i > 0
        invariant
            0 <= i <= n,
            n == s@.len(),
            forall|j: int| i <= j < n ==> s@[j] != ':',
        decreases i,
    {
        i = i - 1;
        let c = s.get_char(i);
        if c == ':' {
            proof {
                lemma_last_colon_at(s@, i as int);
            }
            return Some(i);
        }
    }
    proof {
        lemma_last_colon_none(s@);
    }
    None
}

impl Location {
    /// Wraps a raw location string.
    pub fn new(s: String) -> (r: Self)
        ensures
            r@ == s@,
    {
        Location(s)
    }

    /// The raw location string.
    pub fn text(&self) -> (r: &str)
        ensures
            r@ == self@,
    {
        self.0.as_str()
    }

    /// Whether this location string follows the `<file>:<line>` grammar.
    pub fn is_well_formed(&self) -> (r: bool)
        ensures
            r == loc_wf(self@),
    {
        match find_last_colon(self.0.as_str()) {
            None => false,
            Some(i) => {
                let n = self.0.as_str().unicode_len();
                let suffix = self.0.as_str().substring_char(i + 1, n);
                proof {
                    assert(suffix@ =~= self@.skip(i + 1));
                }
                parse_i64(suffix).is_some()
            },
        }
    }

    /// The line number after the last `:` of the location string.
    pub fn line_number(&self) -> (r: i64)
        requires
            loc_wf(self@),
        ensures
            r as int == loc_line(self@),
    {
        let colon = find_last_colon(self.0.as_str());
        match colon {
            Some(i) => {
                let n = self.0.as_str().unicode_len();
                let suffix = self.0.as_str().substring_char(i + 1, n);
                proof {
                    assert(suffix@ =~= self@.skip(i + 1));
                }
                match parse_i64(suffix) {
                    Some(v) => v,
                    None => {
                        proof {
                            assert(false);
                        }
                        0
                    },
                }
            },
            None => {
                proof {
                    assert(false);
                }
                0
            },
        }
    }

    /// The filename before the last `:` of the location string.
    pub fn filename(&self) -> (r: &str)
        requires
            loc_wf(self@),
        ensures
            r@ == loc_filename(self@),
    {
        let colon = find_last_colon(self.0.as_str());
        match colon {
            Some(i) => {
                let prefix = self.0.as_str().substring_char(0, i);
                proof {
                    assert(prefix@ =~= self@.take(i as int));
                }
                prefix
            },
            None => {
                proof {
                    assert(false);
                }
                self.0.as_str()
            },
        }
    }
}

} // verus!
