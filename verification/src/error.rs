//! The failure taxonomy of the resolution pipeline. Every error carries the
//! names a reader needs to locate the offending metadata entry.

use vstd::prelude::*;

verus! {

/// Why ingestion or resolution failed.
#[derive(Debug)]
pub enum Error {
    /// A location string does not follow the `<file>:<line>` grammar;
    /// carries the offending string.
    MalformedMetadata(String),
    /// A method's owning-struct name has no matching type in the catalog;
    /// carries the missing owner name.
    UnresolvedOwner(String),
    /// A type name cannot be classified against the catalog; carries the
    /// offending type name and, when known, the owning argument's name.
    UnknownType { ty_name: String, context: String },
    /// A method was attached to a type that is not an aggregate; carries the
    /// owner name.
    Unsupported(String),
}

/// The mathematical value of an error.
pub enum ErrorV {
    MalformedMetadata(Seq<char>),
    UnresolvedOwner(Seq<char>),
    UnknownType { ty_name: Seq<char>, context: Seq<char> },
    Unsupported(Seq<char>),
}

impl View for Error {
    type V = ErrorV;

    open spec fn view(&self) -> ErrorV {
        match self {
            Error::MalformedMetadata(s) => ErrorV::MalformedMetadata(s@),
            Error::UnresolvedOwner(s) => ErrorV::UnresolvedOwner(s@),
            Error::UnknownType { ty_name, context } => ErrorV::UnknownType {
                ty_name: ty_name@,
                context: context@,
            },
            Error::Unsupported(s) => ErrorV::Unsupported(s@),
        }
    }
}

impl Error {
    /// A one-line description of the failure.
    pub fn message(&self) -> (r: String)
        ensures
            r@ == spec_message(self@),
    {
        match self {
            Error::MalformedMetadata(s) => {
                let mut m = String::new();
                m.append("malformed location string \"");
                m.append(s.as_str());
                m.append("\"");
                m
            },
            Error::UnresolvedOwner(s) => {
                let mut m = String::new();
                m.append("no struct \"");
                m.append(s.as_str());
                m.append("\" for method found");
                m
            },
            Error::UnknownType { ty_name, context } => {
                let mut m = String::new();
                m.append("unknown type \"");
                m.append(ty_name.as_str());
                m.append("\" (");
                m.append(context.as_str());
                m.append(")");
                m
            },
            Error::Unsupported(s) => {
                let mut m = String::new();
                m.append("cannot add method to non-struct type \"");
                m.append(s.as_str());
                m.append("\"");
                m
            },
        }
    }
}

/// The text of each error message.
pub open spec fn spec_message(e: ErrorV) -> Seq<char> {
    match e {
        ErrorV::MalformedMetadata(s) => "malformed location string \""@ + s + "\""@,
        ErrorV::UnresolvedOwner(s) => "no struct \""@ + s + "\" for method found"@,
        ErrorV::UnknownType { ty_name, context } => "unknown type \""@ + ty_name + "\" ("@
            + context + ")"@,
        ErrorV::Unsupported(s) => "cannot add method to non-struct type \""@ + s + "\""@,
    }
}

} // verus!
