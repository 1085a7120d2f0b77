//! Record schemas, name lookup over them, and their extraction from a
//! record definition.

use vstd::prelude::*;
use crate::value::{TypeDesc, TypeDescV};
use crate::error::{GenError, GenErrorV};

verus! {

/// One field of a schema: its declared name and its declared type.
#[derive(Debug, PartialEq, Eq)]
pub struct Field {
    pub name: String,
    pub ty: TypeDesc,
}

/// Mathematical image of a `Field`.
#[verifier::ext_equal]
pub struct FieldV {
    pub name: Seq<char>,
    pub ty: TypeDescV,
}

impl View for Field {
    type V = FieldV;

    open spec fn view(&self) -> FieldV {
        FieldV { name: self.name@, ty: self.ty@ }
    }
}

impl Clone for Field {
    fn clone(&self) -> (r: Self)
        ensures
            r@ == self@,
    {
        Field { name: self.name.clone(), ty: self.ty.clone() }
    }
}

/// The mathematical image of a field list.
pub open spec fn fields_view(fs: Seq<Field>) -> Seq<FieldV> {
    fs.map_values(|f: Field| f@)
}

/// Pairwise distinct field names.
pub open spec fn names_distinct(fs: Seq<FieldV>) -> bool {
    forall|i: int, j: int| 0 <= i < j < fs.len() ==> fs[i].name != fs[j].name
}

/// The index of the first field bearing the given name, if any field does.
pub open spec fn find_field(fs: Seq<FieldV>, name: Seq<char>) -> Option<int>
    decreases fs.len(),
{
    if fs.len() == 0 {
        None
    } else if fs[0].name == name {
        Some(0)
    } else {
        match find_field(fs.skip(1), name) {
            Some(i) => Some(i + 1),
            None => None,
        }
    }
}

/// What `find_field` returns: the first index bearing the name, or `None`
/// where no field bears it.
pub proof fn lemma_find_field(fs: Seq<FieldV>, name: Seq<char>)
    ensures
        match find_field(fs, name) {
            Some(i) => 0 <= i < fs.len() && fs[i].name == name && (forall|j: int|
                0 <= j < i ==> fs[j].name != name),
            None => forall|j: int| 0 <= j < fs.len() ==> fs[j].name != name,
        },
    decreases fs.len(),
{
    if fs.len() == 0 {
    } else if fs[0].name == name {
    } else {
        let rest = fs.skip(1);
        lemma_find_field(rest, name);
        assert(forall|j: int| 0 <= j < rest.len() ==> rest[j] == fs[j + 1]);
        match find_field(rest, name) {
            Some(i) => {
                assert(fs[i + 1].name == name);
                assert forall|j: int| 0 <= j < i + 1 implies fs[j].name != name by {
                    if j >= 1 {
                        assert(rest[j - 1] == fs[j]);
                    }
                }
            },
            None => {
                assert forall|j: int| 0 <= j < fs.len() implies fs[j].name != name by {
                    if j >= 1 {
                        assert(rest[j - 1] == fs[j]);
                    }
                }
            },
        }
    }
}

/// Where the first match sits at index `k`, `find_field` returns exactly `k`.
pub proof fn lemma_find_field_at(fs: Seq<FieldV>, name: Seq<char>, k: int)
    requires
        0 <= k < fs.len(),
        fs[k].name == name,
        forall|j: int| 0 <= j < k ==> fs[j].name != name,
    ensures
        find_field(fs, name) == Some(k),
    decreases fs.len(),
{
    if k == 0 {
    } else {
        assert(forall|j: int| 0 <= j < fs.skip(1).len() ==> fs.skip(1)[j] == fs[j + 1]);
        lemma_find_field_at(fs.skip(1), name, k - 1);
    }
}

/// An ordered field list plus the record's own name, extracted once from a
/// record definition.
#[derive(Debug, PartialEq, Eq)]
pub struct Schema {
    pub struct_name: String,
    pub fields: Vec<Field>,
}

/// Mathematical image of a `Schema`.
#[verifier::ext_equal]
pub struct SchemaV {
    pub struct_name: Seq<char>,
    pub fields: Seq<FieldV>,
}

impl View for Schema {
    type V = SchemaV;

    open spec fn view(&self) -> SchemaV {
        SchemaV { struct_name: self.struct_name@, fields: fields_view(self.fields@) }
    }
}

impl SchemaV {
    /// The field names, in declaration order.
    pub open spec fn names(self) -> Seq<Seq<char>> {
        self.fields.map_values(|f: FieldV| f.name)
    }

    /// Field names are pairwise distinct.
    pub open spec fn names_unique(self) -> bool {
        names_distinct(self.fields)
    }

    /// The index of the first field bearing the given name.
    pub open spec fn find(self, name: Seq<char>) -> Option<int> {
        find_field(self.fields, name)
    }

    /// Whether some field bears the given name.
    pub open spec fn has_field(self, name: Seq<char>) -> bool {
        self.find(name) is Some
    }

    /// The declared type of the field bearing the given name.
    pub open spec fn ty_of(self, name: Seq<char>) -> TypeDescV {
        self.fields[self.find(name).unwrap()].ty
    }
}

impl Schema {
    /// The position of the first field bearing the given name.
    pub fn find_index(&self, name: &String) -> (r: Option<usize>)
        ensures
            match r {
                Some(i) => self@.find(name@) == Some(i as int),
                None => self@.find(name@) is None,
            },
    {
        let n = self.fields.len();
        let mut i: usize = 0;
        while i < n
            invariant
                n == self.fields.len(),
                i <= n,
                forall|j: int| 0 <= j < i ==> self@.fields[j].name != name@,
            decreases n - i,
        {
            assert(self@.fields[i as int] == self.fields@[i as int]@);
            if self.fields[i].name == *name {
                proof {
                    lemma_find_field_at(self@.fields, name@, i as int);
                }
                return Some(i);
            }
            i = i + 1;
        }
        proof {
            lemma_find_field(self@.fields, name@);
        }
        None
    }
}

fn clone_fields(fs: &Vec<Field>) -> (r: Vec<Field>)
    ensures
        fields_view(r@) == fields_view(fs@),
{
    let mut r: Vec<Field> = Vec::new();
    let mut i: usize = 0;
    while i < fs.len()
        invariant
            i <= fs.len(),
            r@.len() == i,
            forall|j: int| 0 <= j < i ==> r@[j]@ == fs@[j]@,
        decreases fs.len() - i,
    {
        r.push(fs[i].clone());
        i = i + 1;
    }
    proof {
        assert(fields_view(r@) =~= fields_view(fs@));
    }
    r
}

impl Clone for Schema {
    fn clone(&self) -> (r: Self)
        ensures
            r@ == self@,
    {
        Schema { struct_name: self.struct_name.clone(), fields: clone_fields(&self.fields) }
    }
}

/// The shape a struct definition declares its fields in.
#[derive(Debug, PartialEq, Eq)]
pub enum FieldsShape {
    /// Named fields, in declaration order.
    Named(Vec<Field>),
    /// Positional fields only, given by their count.
    Unnamed(usize),
    /// No fields at all.
    Unit,
}

/// Mathematical image of a `FieldsShape`.
#[verifier::ext_equal]
pub enum FieldsShapeV {
    Named(Seq<FieldV>),
    Unnamed(usize),
    Unit,
}

impl View for FieldsShape {
    type V = FieldsShapeV;

    open spec fn view(&self) -> FieldsShapeV {
        match self {
            FieldsShape::Named(fs) => FieldsShapeV::Named(fields_view(fs@)),
            FieldsShape::Unnamed(n) => FieldsShapeV::Unnamed(*n),
            FieldsShape::Unit => FieldsShapeV::Unit,
        }
    }
}

/// A record definition, as the front end hands it over: the static shape
/// that a schema is extracted from.
#[derive(Debug, PartialEq, Eq)]
pub enum RecordDef {
    Struct { name: String, fields: FieldsShape },
    Enum { name: String },
    Union { name: String },
}

/// Mathematical image of a `RecordDef`.
#[verifier::ext_equal]
pub enum RecordDefV {
    Struct { name: Seq<char>, fields: FieldsShapeV },
    Enum { name: Seq<char> },
    Union { name: Seq<char> },
}

impl View for RecordDef {
    type V = RecordDefV;

    open spec fn view(&self) -> RecordDefV {
        match self {
            RecordDef::Struct { name, fields } => RecordDefV::Struct {
                name: name@,
                fields: fields@,
            },
            RecordDef::Enum { name } => RecordDefV::Enum { name: name@ },
            RecordDef::Union { name } => RecordDefV::Union { name: name@ },
        }
    }
}

/// The record name and named-field list of a definition, where the
/// definition is a struct of named fields.
pub open spec fn named_shape(def: RecordDefV) -> Option<SchemaV> {
    match def {
        RecordDefV::Struct { name, fields } => match fields {
            FieldsShapeV::Named(fs) => Some(SchemaV { struct_name: name, fields: fs }),
            _ => None,
        },
        _ => None,
    }
}

pub(crate) fn distinct_names(fs: &Vec<Field>) -> (r: bool)
    ensures
        r == names_distinct(fields_view(fs@)),
{
    let n = fs.len();
    let mut i: usize = 0;
    while i < n
        invariant
            n == fs.len(),
            i <= n,
            forall|p: int, q: int|
                0 <= p < q < n && p < i ==> fields_view(fs@)[p].name != fields_view(fs@)[q].name,
        decreases n - i,
    {
        let mut j: usize = i + 1;
        while j < n
            invariant
                n == fs.len(),
                i < n,
                i < j <= n,
                forall|q: int| i < q < j ==> fields_view(fs@)[i as int].name != fields_view(
                    fs@,
                )[q].name,
            decreases n - j,
        {
            assert(fields_view(fs@)[i as int] == fs@[i as int]@);
            assert(fields_view(fs@)[j as int] == fs@[j as int]@);
            if fs[i].name == fs[j].name {
                return false;
            }
            j = j + 1;
        }
        i = i + 1;
    }
    true
}

/// Turns a record definition into a schema: the ordered field list plus the
/// record name. Succeeds exactly on a struct of named, pairwise distinctly
/// named fields; every other shape is refused whole, with no partial output.
pub fn extract_schema(def: &RecordDef) -> (r: Result<Schema, GenError>)
    ensures
        match r {
            Ok(s) => named_shape(def@) == Some(s@) && s@.names_unique(),
            Err(e) => e@ == GenErrorV::UnsupportedShape && match named_shape(def@) {
                Some(s) => !s.names_unique(),
                None => true,
            },
        },
{
    match def {
        RecordDef::Struct { name, fields: FieldsShape::Named(fs) } => {
            if distinct_names(fs) {
                Ok(Schema { struct_name: name.clone(), fields: clone_fields(fs) })
            } else {
                Err(GenError::UnsupportedShape)
            }
        },
        _ => Err(GenError::UnsupportedShape),
    }
}

} // verus!
