//! Generation-time and call-time errors, and the messages they render to.

use vstd::prelude::*;
use vstd::string::StringExecFns;
use crate::value::{TypeDesc, TypeDescV};

verus! {

/// The name-dispatched operation that a call-time error arose from.
#[derive(Debug, PartialEq, Eq, Clone, Copy)]
pub enum Op {
    Get,
    GetMut,
    /// The `set` operation (named here so as not to shadow a spec type).
    Put,
    Take,
    Replace,
    GetEnum,
}

/// The word an operation goes by inside an error message.
pub open spec fn op_word(op: Op) -> Seq<char> {
    match op {
        Op::Get => "get"@,
        Op::GetMut => "get_mut"@,
        Op::Put => "set"@,
        Op::Take => "take"@,
        Op::Replace => "replace"@,
        Op::GetEnum => "getenum"@,
    }
}

/// A recoverable error returned by a field operation. It carries the
/// operation and the offending name or names verbatim.
#[derive(Debug, PartialEq, Eq)]
pub enum AccessError {
    /// The given name is not dispatched by the operation: it either names no
    /// field at all, or names a field outside the operation's type group.
    NotFound(Op, String),
    /// The two given names do not form a swappable pair of fields.
    InvalidSwap(String, String),
}

/// Mathematical image of an `AccessError`.
#[verifier::ext_equal]
pub enum AccessErrorV {
    NotFound(Op, Seq<char>),
    InvalidSwap(Seq<char>, Seq<char>),
}

impl View for AccessError {
    type V = AccessErrorV;

    open spec fn view(&self) -> AccessErrorV {
        match self {
            AccessError::NotFound(op, name) => AccessErrorV::NotFound(*op, name@),
            AccessError::InvalidSwap(x, y) => AccessErrorV::InvalidSwap(x@, y@),
        }
    }
}

/// The message a call-time error renders to; it embeds the offending name
/// verbatim, except for a swap error, which keeps the wording of the
/// dispatch arm it fell out of.
pub open spec fn message_of(e: AccessErrorV) -> Seq<char> {
    match e {
        AccessErrorV::NotFound(op, name) => "invalid field name to "@ + op_word(op) + " '"@
            + name + "'"@,
        AccessErrorV::InvalidSwap(_, _) => "invalid field name to swap"@,
    }
}

fn op_text(op: Op) -> (r: &'static str)
    ensures
        r@ == op_word(op),
{
    match op {
        Op::Get => "get",
        Op::GetMut => "get_mut",
        Op::Put => "set",
        Op::Take => "take",
        Op::Replace => "replace",
        Op::GetEnum => "getenum",
    }
}

impl AccessError {
    /// Renders the error as its diagnostic message.
    pub fn message(&self) -> (r: String)
        ensures
            r@ == message_of(self@),
    {
        match self {
            AccessError::NotFound(op, name) => {
                let mut m = "invalid field name to ".to_owned();
                m.append(op_text(*op));
                m.append(" '");
                m.append(name.as_str());
                m.append("'");
                m
            },
            AccessError::InvalidSwap(_, _) => "invalid field name to swap".to_owned(),
        }
    }
}

/// A fatal generation-time error: generation aborts with no artifacts.
#[derive(Debug, PartialEq, Eq)]
pub enum GenError {
    /// The record definition is not a struct made of named fields with
    /// pairwise distinct names.
    UnsupportedShape,
    /// A field's declared type supplies no canonical default value, so the
    /// `take` operation cannot be synthesized for its type group.
    NoDefaultAvailable(TypeDesc),
}

/// Mathematical image of a `GenError`.
#[verifier::ext_equal]
pub enum GenErrorV {
    UnsupportedShape,
    NoDefaultAvailable(TypeDescV),
}

impl View for GenError {
    type V = GenErrorV;

    open spec fn view(&self) -> GenErrorV {
        match self {
            GenError::UnsupportedShape => GenErrorV::UnsupportedShape,
            GenError::NoDefaultAvailable(t) => GenErrorV::NoDefaultAvailable(t@),
        }
    }
}

/// The mathematical image of a `Result`, both sides taken to their views.
pub open spec fn result_view<T: View, E: View>(r: Result<T, E>) -> Result<T::V, E::V> {
    match r {
        Ok(t) => Ok(t@),
        Err(e) => Err(e@),
    }
}

} // verus!
