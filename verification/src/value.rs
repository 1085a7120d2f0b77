//! Field values and the descriptors of their declared types.

use vstd::prelude::*;

verus! {

/// Describes the declared type of a field.
///
/// `Text`, `Integer` and `TextList` are the built-in types, each of which
/// supplies a canonical empty/default value. `Named` stands for any other
/// declared type, identified by the name it was declared under; such a type
/// is opaque to the accessors and supplies no default, so generation of the
/// `take` operation fails for it.
#[derive(Debug, PartialEq, Eq)]
pub enum TypeDesc {
    Text,
    Integer,
    TextList,
    Named(String),
}

/// Mathematical image of a `TypeDesc`.
#[verifier::ext_equal]
pub enum TypeDescV {
    Text,
    Integer,
    TextList,
    Named(Seq<char>),
}

impl View for TypeDesc {
    type V = TypeDescV;

    open spec fn view(&self) -> TypeDescV {
        match self {
            TypeDesc::Text => TypeDescV::Text,
            TypeDesc::Integer => TypeDescV::Integer,
            TypeDesc::TextList => TypeDescV::TextList,
            TypeDesc::Named(n) => TypeDescV::Named(n@),
        }
    }
}

/// A field's value: one variant per built-in type. A record never holds a
/// value of a `Named` type, because generation fails for such a schema
/// before any record exists.
#[derive(Debug, PartialEq, Eq)]
pub enum Value {
    Text(String),
    Integer(u64),
    TextList(Vec<String>),
}

/// Mathematical image of a `Value`.
#[verifier::ext_equal]
pub enum ValueV {
    Text(Seq<char>),
    Integer(u64),
    TextList(Seq<Seq<char>>),
}

impl View for Value {
    type V = ValueV;

    open spec fn view(&self) -> ValueV {
        match self {
            Value::Text(s) => ValueV::Text(s@),
            Value::Integer(n) => ValueV::Integer(*n),
            Value::TextList(l) => ValueV::TextList(l@.map_values(|s: String| s@)),
        }
    }
}

impl ValueV {
    /// The declared type a value belongs to.
    pub open spec fn kind(self) -> TypeDescV {
        match self {
            ValueV::Text(_) => TypeDescV::Text,
            ValueV::Integer(_) => TypeDescV::Integer,
            ValueV::TextList(_) => TypeDescV::TextList,
        }
    }
}

/// The canonical empty/default value of a declared type, if it has one.
pub open spec fn default_of(t: TypeDescV) -> Option<ValueV> {
    match t {
        TypeDescV::Text => Some(ValueV::Text(Seq::empty())),
        TypeDescV::Integer => Some(ValueV::Integer(0u64)),
        TypeDescV::TextList => Some(ValueV::TextList(Seq::empty())),
        TypeDescV::Named(_) => None,
    }
}

/// Whether a declared type supplies a canonical default value.
pub open spec fn has_default(t: TypeDescV) -> bool {
    default_of(t) is Some
}

/// The display name of a declared type, as introspection reports it.
pub open spec fn display_name_of(t: TypeDescV) -> Seq<char> {
    match t {
        TypeDescV::Text => "text"@,
        TypeDescV::Integer => "integer"@,
        TypeDescV::TextList => "text list"@,
        TypeDescV::Named(n) => n,
    }
}

impl TypeDesc {
    /// Whether two descriptors denote the same declared type.
    pub fn same_as(&self, other: &TypeDesc) -> (r: bool)
        ensures
            r == (self@ == other@),
    {
        match self {
            TypeDesc::Text => match other {
                TypeDesc::Text => true,
                _ => false,
            },
            TypeDesc::Integer => match other {
                TypeDesc::Integer => true,
                _ => false,
            },
            TypeDesc::TextList => match other {
                TypeDesc::TextList => true,
                _ => false,
            },
            TypeDesc::Named(a) => match other {
                TypeDesc::Named(b) => *a == *b,
                _ => false,
            },
        }
    }

    /// The display name of the declared type.
    pub fn display_name(&self) -> (r: String)
        ensures
            r@ == display_name_of(self@),
    {
        match self {
            TypeDesc::Text => "text".to_owned(),
            TypeDesc::Integer => "integer".to_owned(),
            TypeDesc::TextList => "text list".to_owned(),
            TypeDesc::Named(n) => n.clone(),
        }
    }

    /// The canonical default value of this type, or `None` where the type
    /// supplies none.
    pub fn default_value(&self) -> (r: Option<Value>)
        ensures
            match r {
                Some(v) => default_of(self@) == Some(v@),
                None => default_of(self@) is None,
            },
    {
        match self {
            TypeDesc::Text => Some(Value::Text(String::new())),
            TypeDesc::Integer => Some(Value::Integer(0)),
            TypeDesc::TextList => Some(Value::TextList(Vec::new())),
            TypeDesc::Named(_) => None,
        }
    }

    /// Whether this type supplies a canonical default value.
    pub fn provides_default(&self) -> (r: bool)
        ensures
            r == has_default(self@),
    {
        match self {
            TypeDesc::Named(_) => false,
            _ => true,
        }
    }
}

impl Clone for TypeDesc {
    fn clone(&self) -> (r: Self)
        ensures
            r@ == self@,
    {
        match self {
            TypeDesc::Text => TypeDesc::Text,
            TypeDesc::Integer => TypeDesc::Integer,
            TypeDesc::TextList => TypeDesc::TextList,
            TypeDesc::Named(n) => TypeDesc::Named(n.clone()),
        }
    }
}

impl Value {
    /// The descriptor of the declared type this value belongs to.
    pub fn kind(&self) -> (t: TypeDesc)
        ensures
            t@ == self@.kind(),
    {
        match self {
            Value::Text(_) => TypeDesc::Text,
            Value::Integer(_) => TypeDesc::Integer,
            Value::TextList(_) => TypeDesc::TextList,
        }
    }
}

fn clone_text_list(l: &Vec<String>) -> (r: Vec<String>)
    ensures
        r@.map_values(|s: String| s@) == l@.map_values(|s: String| s@),
{
    let mut r: Vec<String> = Vec::new();
    let mut i: usize = 0;
    while i < l.len()
        invariant
            i <= l.len(),
            r@.len() == i,
            forall|j: int| 0 <= j < i ==> r@[j]@ == l@[j]@,
        decreases l.len() - i,
    {
        r.push(l[i].clone());
        i = i + 1;
    }
    proof {
        assert(r@.map_values(|s: String| s@) =~= l@.map_values(|s: String| s@));
    }
    r
}

impl Clone for Value {
    fn clone(&self) -> (r: Self)
        ensures
            r@ == self@,
    {
        match self {
            Value::Text(s) => Value::Text(s.clone()),
            Value::Integer(n) => Value::Integer(*n),
            Value::TextList(l) => Value::TextList(clone_text_list(l)),
        }
    }
}

} // verus!
