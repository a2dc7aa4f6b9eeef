//! Decode errors: what went wrong, where in the document, and what was found.

use vstd::prelude::*;
use crate::json::{Json, JVal, jval, clone_json};

verus! {

/// The kinds of decode failure.
#[derive(Copy, Clone, Debug, PartialEq, Eq, Structural)]
pub enum ErrorKind {
    /// A bit value that is neither a non-negative integer nor one of the
    /// strings "0", "1", "z", "x".
    InvalidBitValue,
    /// A boolean-flag field whose value is not an integer.
    InvalidFlagValue,
    /// A schema-required field is absent.
    MissingRequiredField,
    /// A field whose JSON shape does not match the schema.
    TypeMismatch,
}

/// A decode failure. `path` leads from the document root to the offending
/// member, outermost field first; `found` is the value observed there, when
/// there is one (it is `None` for a missing field).
#[derive(Debug, Clone)]
pub struct Error {
    pub kind: ErrorKind,
    pub path: Vec<String>,
    pub found: Option<Json>,
}

/// The model of an [`Error`].
#[verifier::ext_equal]
pub struct ErrV {
    pub kind: ErrorKind,
    pub path: Seq<Seq<char>>,
    pub found: Option<JVal>,
}

/// The model of a field path.
pub open spec fn path_view(p: Seq<String>) -> Seq<Seq<char>> {
    Seq::new(p.len(), |i: int| p[i]@)
}

impl View for Error {
    type V = ErrV;

    open spec fn view(&self) -> ErrV {
        ErrV {
            kind: self.kind,
            path: path_view(self.path@),
            found: match self.found {
                Some(j) => Some(jval(j)),
                None => None,
            },
        }
    }
}

/// An invalid bit value, with no path yet.
pub open spec fn bit_err(v: JVal) -> ErrV {
    ErrV { kind: ErrorKind::InvalidBitValue, path: Seq::empty(), found: Some(v) }
}

/// An invalid flag value, with no path yet.
pub open spec fn flag_err_value(v: JVal) -> ErrV {
    ErrV { kind: ErrorKind::InvalidFlagValue, path: Seq::empty(), found: Some(v) }
}

/// An invalid flag value at the named field.
pub open spec fn flag_err(field: Seq<char>, v: JVal) -> ErrV {
    ErrV { kind: ErrorKind::InvalidFlagValue, path: seq![field], found: Some(v) }
}

/// A required field that is absent.
pub open spec fn missing_err(field: Seq<char>) -> ErrV {
    ErrV { kind: ErrorKind::MissingRequiredField, path: seq![field], found: None }
}

/// A field whose shape does not match the schema.
pub open spec fn mismatch_err(field: Seq<char>, v: JVal) -> ErrV {
    ErrV { kind: ErrorKind::TypeMismatch, path: seq![field], found: Some(v) }
}

/// A value that had to be an object and is not.
pub open spec fn not_object_err(v: JVal) -> ErrV {
    ErrV { kind: ErrorKind::TypeMismatch, path: Seq::empty(), found: Some(v) }
}

/// The same error, one field deeper into the document.
pub open spec fn err_at(e: ErrV, field: Seq<char>) -> ErrV {
    ErrV { kind: e.kind, path: seq![field] + e.path, found: e.found }
}

impl Error {
    /// An invalid bit value, with no path yet.
    pub fn bit_value(found: &Json) -> (r: Error)
        ensures
            r@ == bit_err(found@),
    {
        let r = Error {
            kind: ErrorKind::InvalidBitValue,
            path: Vec::new(),
            found: Some(clone_json(found)),
        };
        proof {
            assert(r@ =~= bit_err(found@));
        }
        r
    }

    /// An invalid flag value at the named field.
    pub fn flag_value(field: &str, found: &Json) -> (r: Error)
        ensures
            r@ == flag_err(field@, found@),
    {
        let mut path: Vec<String> = Vec::new();
        path.push(String::from_str(field));
        let r = Error { kind: ErrorKind::InvalidFlagValue, path, found: Some(clone_json(found)) };
        proof {
            assert(r@ =~= flag_err(field@, found@));
        }
        r
    }

    /// A required field that is absent.
    pub fn missing(field: &str) -> (r: Error)
        ensures
            r@ == missing_err(field@),
    {
        let mut path: Vec<String> = Vec::new();
        path.push(String::from_str(field));
        let r = Error { kind: ErrorKind::MissingRequiredField, path, found: None };
        proof {
            assert(r@ =~= missing_err(field@));
        }
        r
    }

    /// A field whose shape does not match the schema.
    pub fn mismatch(field: &str, found: &Json) -> (r: Error)
        ensures
            r@ == mismatch_err(field@, found@),
    {
        let mut path: Vec<String> = Vec::new();
        path.push(String::from_str(field));
        let r = Error { kind: ErrorKind::TypeMismatch, path, found: Some(clone_json(found)) };
        proof {
            assert(r@ =~= mismatch_err(field@, found@));
        }
        r
    }

    /// A value that had to be an object and is not.
    pub fn not_object(found: &Json) -> (r: Error)
        ensures
            r@ == not_object_err(found@),
    {
        let r = Error {
            kind: ErrorKind::TypeMismatch,
            path: Vec::new(),
            found: Some(clone_json(found)),
        };
        proof {
            assert(r@ =~= not_object_err(found@));
        }
        r
    }

    /// The same error, one field deeper into the document.
    pub fn at(self, field: &str) -> (r: Error)
        ensures
            r@ == err_at(self@, field@),
    {
        let ghost before = self@;
        let mut path = self.path;
        path.insert(0, String::from_str(field));
        let r = Error { kind: self.kind, path, found: self.found };
        proof {
            assert(path_view(r.path@) =~= seq![field@] + before.path);
            assert(r@ =~= err_at(before, field@));
        }
        r
    }
}

} // verus!
