//! Record instances and their name-dispatched field operations.

use vstd::prelude::*;
use vstd::pervasive::{unreached, VecAdditionalExecFns};
use crate::value::{Value, ValueV, TypeDesc, TypeDescV, default_of, has_default};
use crate::schema::{Schema, SchemaV, lemma_find_field};
use crate::error::{AccessError, AccessErrorV, Op, GenError, GenErrorV, result_view};
use crate::synth::{StructInfo, describe, info_of, first_missing_default};
use crate::synth::lemma_first_missing_default_at;

verus! {

/// A live instance of a record: its schema and one value per field, in
/// schema order.
#[derive(Debug, PartialEq, Eq)]
pub struct Record {
    schema: Schema,
    values: Vec<Value>,
}

/// Mathematical image of a `Record`.
#[verifier::ext_equal]
pub struct RecordV {
    pub schema: SchemaV,
    pub values: Seq<ValueV>,
}

impl View for Record {
    type V = RecordV;

    closed spec fn view(&self) -> RecordV {
        RecordV { schema: self.schema@, values: self.values@.map_values(|v: Value| v@) }
    }
}

impl RecordV {
    /// A well-formed record, as generation builds and the operations keep
    /// it: field names pairwise distinct, one value per field, each value of
    /// its field's declared type, and every declared type with a default.
    pub open spec fn wf(self) -> bool {
        &&& self.schema.names_unique()
        &&& self.values.len() == self.schema.fields.len()
        &&& forall|i: int| 0 <= i < self.values.len() ==> (#[trigger] self.values[i]).kind()
            == self.schema.fields[i].ty
        &&& forall|i: int| 0 <= i < self.schema.fields.len() ==> has_default(
            (#[trigger] self.schema.fields[i]).ty,
        )
    }

    /// Whether `name` falls in the dispatch set that the accessors of
    /// declared type `t` were generated over: it names a field, and that
    /// field's declared type is `t`.
    pub open spec fn in_group(self, name: Seq<char>, t: TypeDescV) -> bool {
        match self.schema.find(name) {
            Some(i) => self.schema.fields[i].ty == t,
            None => false,
        }
    }

    /// The value the named field holds.
    pub open spec fn value_of(self, name: Seq<char>) -> ValueV {
        self.values[self.schema.find(name).unwrap()]
    }

    /// This record with the named field's value replaced.
    pub open spec fn with_value(self, name: Seq<char>, v: ValueV) -> RecordV {
        RecordV { values: self.values.update(self.schema.find(name).unwrap(), v), ..self }
    }
}

/// What `get` returns: the named field's value, out of the dispatch set of
/// declared type `t`; any other name is not found.
pub open spec fn spec_get(r: RecordV, t: TypeDescV, name: Seq<char>) -> Result<
    ValueV,
    AccessErrorV,
> {
    if r.in_group(name, t) {
        Ok(r.value_of(name))
    } else {
        Err(AccessErrorV::NotFound(Op::Get, name))
    }
}

/// What `set` returns and leaves behind: within the dispatch set of the new
/// value's own declared type, the named field is overwritten; any other
/// name reports `NotFound`, and nothing changes.
pub open spec fn spec_set(r: RecordV, name: Seq<char>, v: ValueV) -> (Result<(), AccessErrorV>, RecordV) {
    if r.in_group(name, v.kind()) {
        (Ok(()), r.with_value(name, v))
    } else {
        (Err(AccessErrorV::NotFound(Op::Put, name)), r)
    }
}

/// What `take` returns and leaves behind: within declared type `t`'s
/// dispatch set, the named field yields its value and is reset to `t`'s
/// canonical default; any other name reports `NotFound`, and nothing
/// changes.
pub open spec fn spec_take(r: RecordV, t: TypeDescV, name: Seq<char>) -> (Result<ValueV, AccessErrorV>, RecordV) {
    if r.in_group(name, t) {
        (Ok(r.value_of(name)), r.with_value(name, default_of(t).unwrap()))
    } else {
        (Err(AccessErrorV::NotFound(Op::Take, name)), r)
    }
}

/// What `replace` returns and leaves behind: within the dispatch set of the
/// new value's own declared type, the named field yields its prior value
/// and holds the new one; any other name reports `NotFound`, and nothing
/// changes.
pub open spec fn spec_replace(r: RecordV, name: Seq<char>, v: ValueV) -> (Result<ValueV, AccessErrorV>, RecordV) {
    if r.in_group(name, v.kind()) {
        (Ok(r.value_of(name)), r.with_value(name, v))
    } else {
        (Err(AccessErrorV::NotFound(Op::Replace, name)), r)
    }
}

/// Whether two names form a swappable pair: each names a field, the two
/// fields share one declared type, and the names differ.
pub open spec fn valid_swap(r: RecordV, x: Seq<char>, y: Seq<char>) -> bool {
    &&& r.schema.has_field(x)
    &&& r.schema.has_field(y)
    &&& r.schema.ty_of(x) == r.schema.ty_of(y)
    &&& x != y
}

/// What `swap` returns and leaves behind: on a swappable pair the two
/// fields exchange their values in place and no other field moves; on any
/// other pair of strings the record is untouched and `InvalidSwap` carries
/// both strings verbatim.
pub open spec fn spec_swap(r: RecordV, x: Seq<char>, y: Seq<char>) -> (Result<(), AccessErrorV>, RecordV) {
    if valid_swap(r, x, y) {
        let i = r.schema.find(x).unwrap();
        let j = r.schema.find(y).unwrap();
        (
            Ok(()),
            RecordV { values: r.values.update(i, r.values[j]).update(j, r.values[i]), ..r },
        )
    } else {
        (Err(AccessErrorV::InvalidSwap(x, y)), r)
    }
}

/// A field's value wrapped in a variant tagged with the field's own name:
/// the single return type of heterogeneous enumeration. One variant exists
/// per field, repeated types and all.
#[derive(Debug, PartialEq, Eq)]
pub struct FieldVariant {
    pub name: String,
    pub value: Value,
}

/// Mathematical image of a `FieldVariant`.
#[verifier::ext_equal]
pub struct FieldVariantV {
    pub name: Seq<char>,
    pub value: ValueV,
}

impl View for FieldVariant {
    type V = FieldVariantV;

    open spec fn view(&self) -> FieldVariantV {
        FieldVariantV { name: self.name@, value: self.value@ }
    }
}

/// What `getenum` returns: a copy of the named field's value under the
/// field's own tag; an unknown name reports `NotFound`.
pub open spec fn spec_getenum(r: RecordV, name: Seq<char>) -> Result<FieldVariantV, AccessErrorV> {
    match r.schema.find(name) {
        Some(i) => Ok(FieldVariantV { name: r.schema.fields[i].name, value: r.values[i] }),
        None => Err(AccessErrorV::NotFound(Op::GetEnum, name)),
    }
}

impl Record {
    /// Well-formedness, as every operation requires and preserves it.
    pub open spec fn wf(&self) -> bool {
        self@.wf()
    }

    /// The schema this record was generated for.
    pub fn schema(&self) -> (r: &Schema)
        ensures
            r@ == self@.schema,
    {
        &self.schema
    }

    /// Synthesizes a record instance for a schema, every field starting at
    /// its type's canonical default value. Fails, building nothing, where
    /// the schema repeats a field name, or where a field's declared type
    /// supplies no default — the first such field, in schema order, names
    /// the type reported.
    pub fn new(schema: Schema) -> (r: Result<Record, GenError>)
        ensures
            match r {
                Ok(rec) => ({
                    &&& rec.wf()
                    &&& rec@.schema == schema@
                    &&& rec@.values.len() == schema@.fields.len()
                    &&& forall|i: int| 0 <= i < rec@.values.len() ==> Some(
                        #[trigger] rec@.values[i],
                    ) == default_of(schema@.fields[i].ty)
                }),
                Err(e) => match e@ {
                    GenErrorV::UnsupportedShape => !schema@.names_unique(),
                    GenErrorV::NoDefaultAvailable(t) => schema@.names_unique() && match
                        first_missing_default(schema@.fields) {
                        Some(k) => t == schema@.fields[k].ty,
                        None => false,
                    },
                },
            },
    {
        if !crate::schema::distinct_names(&schema.fields) {
            return Err(GenError::UnsupportedShape);
        }
        let n = schema.fields.len();
        let mut values: Vec<Value> = Vec::new();
        let mut i: usize = 0;
        while i < n
            invariant
                i <= n,
                values@.len() == i,
                forall|j: int| 0 <= j < i ==> has_default(schema@.fields[j].ty),
                forall|j: int| 0 <= j < i ==> Some((#[trigger] values@[j])@) == default_of(
                    schema@.fields[j].ty,
                ),
            decreases n - i,
        {
            proof {
                assert(schema@.fields[i as int] == schema.fields@[i as int]@);
            }
            match schema.fields[i].ty.default_value() {
                Some(v) => values.push(v),
                None => {
                    proof {
                        lemma_first_missing_default_at(schema@.fields, i as int);
                    }
                    return Err(GenError::NoDefaultAvailable(schema.fields[i].ty.clone()));
                },
            }
            i = i + 1;
        }
        let rec = Record { schema, values };
        proof {
            assert(forall|j: int| 0 <= j < rec@.values.len() ==> rec@.values[j] == (
            #[trigger] rec.values@[j])@);
        }
        Ok(rec)
    }

    /// Reads the named field, dispatching over the member names of declared
    /// type `ty`'s group: any other string — a stranger to the schema or a
    /// field of another type — reports `NotFound` with the string verbatim.
    pub fn get<'a>(&'a self, ty: &TypeDesc, name: &String) -> (r: Result<&'a Value, AccessError>)
        requires
            self.wf(),
        ensures
            result_view(r) == spec_get(self@, ty@, name@),
    {
        match self.schema.find_index(name) {
            Some(i) => {
                proof {
                    lemma_find_field(self@.schema.fields, name@);
                    assert(self@.schema.fields[i as int] == self.schema.fields@[i as int]@);
                }
                if self.schema.fields[i].ty.same_as(ty) {
                    proof {
                        assert(self@.values[i as int] == self.values@[i as int]@);
                    }
                    Ok(&self.values[i])
                } else {
                    Err(AccessError::NotFound(Op::Get, name.clone()))
                }
            },
            None => Err(AccessError::NotFound(Op::Get, name.clone())),
        }
    }

    /// Hands out exclusive access to the named field, dispatching over the
    /// member names of declared type `ty`'s group. The caller may write any
    /// value of the same declared type through the reference; a write of
    /// another type forfeits well-formedness.
    pub fn get_mut<'a>(&'a mut self, ty: &TypeDesc, name: &String) -> (r: Result<
        &'a mut Value,
        AccessError,
    >)
        requires
            old(self).wf(),
        ensures
            match r {
                Ok(v) => {
                    &&& old(self)@.in_group(name@, ty@)
                    &&& v@ == old(self)@.value_of(name@)
                    &&& final(self)@ == old(self)@.with_value(name@, final(v)@)
                },
                Err(e) => {
                    &&& !old(self)@.in_group(name@, ty@)
                    &&& e@ == AccessErrorV::NotFound(Op::GetMut, name@)
                    &&& final(self)@ == old(self)@
                },
            },
    {
        match self.schema.find_index(name) {
            Some(i) => {
                proof {
                    lemma_find_field(self@.schema.fields, name@);
                    assert(self@.schema.fields[i as int] == self.schema.fields@[i as int]@);
                }
                if self.schema.fields[i].ty.same_as(ty) {
                    proof {
                        assert(self@.values[i as int] == self.values@[i as int]@);
                    }
                    Ok(&mut self.values[i])
                } else {
                    Err(AccessError::NotFound(Op::GetMut, name.clone()))
                }
            },
            None => Err(AccessError::NotFound(Op::GetMut, name.clone())),
        }
    }

    /// Overwrites the named field unconditionally, dispatching over the
    /// member names of the group of the new value's own declared type: any
    /// other string — a stranger to the schema or a field of another type —
    /// reports `NotFound` with the string verbatim, and nothing changes.
    pub fn set(&mut self, name: &String, value: Value) -> (r: Result<(), AccessError>)
        requires
            old(self).wf(),
        ensures
            final(self).wf(),
            final(self)@ == spec_set(old(self)@, name@, value@).1,
            result_view(r) == spec_set(old(self)@, name@, value@).0,
    {
        let ty = value.kind();
        match self.schema.find_index(name) {
            Some(i) => {
                proof {
                    lemma_find_field(self@.schema.fields, name@);
                    assert(self@.schema.fields[i as int] == self.schema.fields@[i as int]@);
                }
                if self.schema.fields[i].ty.same_as(&ty) {
                    let ghost v0 = self@;
                    self.values.set(i, value);
                    proof {
                        assert(self@.values =~= v0.values.update(i as int, value@));
                        assert(self@ =~= spec_set(v0, name@, value@).1);
                    }
                    Ok(())
                } else {
                    Err(AccessError::NotFound(Op::Put, name.clone()))
                }
            },
            None => Err(AccessError::NotFound(Op::Put, name.clone())),
        }
    }

    /// Takes the named field's value out, resetting the field to its
    /// declared type's canonical default, dispatching over the member names
    /// of `ty`'s group: any other string reports `NotFound` with the string
    /// verbatim, and nothing changes.
    pub fn take(&mut self, ty: &TypeDesc, name: &String) -> (r: Result<Value, AccessError>)
        requires
            old(self).wf(),
        ensures
            final(self).wf(),
            final(self)@ == spec_take(old(self)@, ty@, name@).1,
            result_view(r) == spec_take(old(self)@, ty@, name@).0,
    {
        match self.schema.find_index(name) {
            Some(i) => {
                proof {
                    lemma_find_field(self@.schema.fields, name@);
                    assert(self@.schema.fields[i as int] == self.schema.fields@[i as int]@);
                }
                if self.schema.fields[i].ty.same_as(ty) {
                    let mut taken = match ty.default_value() {
                        Some(d) => d,
                        None => unreached(),
                    };
                    let ghost v0 = self@;
                    self.values.set_and_swap(i, &mut taken);
                    proof {
                        assert(taken@ == v0.values[i as int]);
                        assert(self@.values =~= v0.values.update(
                            i as int,
                            default_of(ty@).unwrap(),
                        ));
                        assert(self@ =~= spec_take(v0, ty@, name@).1);
                    }
                    Ok(taken)
                } else {
                    Err(AccessError::NotFound(Op::Take, name.clone()))
                }
            },
            None => Err(AccessError::NotFound(Op::Take, name.clone())),
        }
    }

    /// Overwrites the named field and hands its prior value back — no reset
    /// to any default — dispatching over the member names of the group of
    /// the new value's own declared type: any other string reports
    /// `NotFound` with the string verbatim, and nothing changes.
    pub fn replace(&mut self, name: &String, src: Value) -> (r: Result<Value, AccessError>)
        requires
            old(self).wf(),
        ensures
            final(self).wf(),
            final(self)@ == spec_replace(old(self)@, name@, src@).1,
            result_view(r) == spec_replace(old(self)@, name@, src@).0,
    {
        let ty = src.kind();
        match self.schema.find_index(name) {
            Some(i) => {
                proof {
                    lemma_find_field(self@.schema.fields, name@);
                    assert(self@.schema.fields[i as int] == self.schema.fields@[i as int]@);
                }
                if self.schema.fields[i].ty.same_as(&ty) {
                    let mut prev = src;
                    let ghost v0 = self@;
                    let ghost srcv = prev@;
                    self.values.set_and_swap(i, &mut prev);
                    proof {
                        assert(prev@ == v0.values[i as int]);
                        assert(self@.values =~= v0.values.update(i as int, srcv));
                        assert(self@ =~= spec_replace(v0, name@, srcv).1);
                    }
                    Ok(prev)
                } else {
                    Err(AccessError::NotFound(Op::Replace, name.clone()))
                }
            },
            None => Err(AccessError::NotFound(Op::Replace, name.clone())),
        }
    }

    /// Exchanges the values of two same-typed, distinctly named fields in
    /// place, touching no other field. Any other pair of strings — an
    /// unknown name, one name twice, or two fields of different declared
    /// types — reports `InvalidSwap` carrying both strings verbatim, and
    /// nothing changes.
    pub fn swap(&mut self, x: &String, y: &String) -> (r: Result<(), AccessError>)
        requires
            old(self).wf(),
        ensures
            final(self).wf(),
            final(self)@ == spec_swap(old(self)@, x@, y@).1,
            result_view(r) == spec_swap(old(self)@, x@, y@).0,
    {
        let oi = self.schema.find_index(x);
        let oj = self.schema.find_index(y);
        match oi {
            Some(i) => match oj {
                Some(j) => {
                    proof {
                        lemma_find_field(self@.schema.fields, x@);
                        lemma_find_field(self@.schema.fields, y@);
                        assert(self@.schema.fields[i as int] == self.schema.fields@[i as int]@);
                        assert(self@.schema.fields[j as int] == self.schema.fields@[j as int]@);
                    }
                    if i != j && self.schema.fields[i].ty.same_as(&self.schema.fields[j].ty) {
                        proof {
                            assert(x@ != y@);
                            assert(valid_swap(self@, x@, y@));
                        }
                        let ghost v0 = self@;
                        let a = self.values[i].clone();
                        let b = self.values[j].clone();
                        self.values.set(i, b);
                        self.values.set(j, a);
                        proof {
                            assert(self@.values =~= v0.values.update(
                                i as int,
                                v0.values[j as int],
                            ).update(j as int, v0.values[i as int]));
                            assert(self@ =~= spec_swap(v0, x@, y@).1);
                        }
                        Ok(())
                    } else {
                        proof {
                            if i == j {
                                assert(x@ == y@);
                            }
                            assert(!valid_swap(self@, x@, y@));
                        }
                        Err(AccessError::InvalidSwap(x.clone(), y.clone()))
                    }
                },
                None => Err(AccessError::InvalidSwap(x.clone(), y.clone())),
            },
            None => Err(AccessError::InvalidSwap(x.clone(), y.clone())),
        }
    }

    /// Enumerates one field uniformly: a copy of the named field's value,
    /// wrapped in the variant tagged with the field's own name. Every schema
    /// name dispatches — one variant per field, with no dedup by type — and
    /// any other string reports `NotFound` with the string verbatim.
    pub fn getenum(&self, name: &String) -> (r: Result<FieldVariant, AccessError>)
        requires
            self.wf(),
        ensures
            result_view(r) == spec_getenum(self@, name@),
    {
        match self.schema.find_index(name) {
            Some(i) => {
                proof {
                    lemma_find_field(self@.schema.fields, name@);
                    assert(self@.schema.fields[i as int] == self.schema.fields@[i as int]@);
                    assert(self@.values[i as int] == self.values@[i as int]@);
                }
                Ok(
                    FieldVariant {
                        name: self.schema.fields[i].name.clone(),
                        value: self.values[i].clone(),
                    },
                )
            },
            None => Err(AccessError::NotFound(Op::GetEnum, name.clone())),
        }
    }

    /// Builds the introspection snapshot afresh for this record's schema:
    /// field names and type display names in schema order, plus the record
    /// name. It always succeeds, and is structurally the same on every call.
    pub fn getstructinfo(&self) -> (r: StructInfo)
        ensures
            r@ == info_of(self@.schema),
    {
        describe(&self.schema)
    }
}

} // verus!
