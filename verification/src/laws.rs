//! The laws the field operations obey, stated over the operations'
//! mathematical models and proved once for every record and every input.

use vstd::prelude::*;
use crate::value::{ValueV, TypeDescV, default_of};
use crate::schema::{lemma_find_field, lemma_find_field_at};
use crate::error::{AccessErrorV, Op, op_word, message_of};
use crate::record::{
    RecordV, FieldVariantV, spec_get, spec_set, spec_take, spec_replace, spec_swap, spec_getenum,
    valid_swap,
};
use crate::synth::{members_of, lemma_members_of_contains, swap_pairs_of, SwapPairV,
    lemma_swap_pairs_contains, info_of};

verus! {

/// Round trip: for every field and every value of the field's declared
/// type, setting the field and then reading it back yields exactly that
/// value, and the record stays well formed.
pub proof fn lemma_set_then_get(r: RecordV, name: Seq<char>, v: ValueV)
    requires
        r.wf(),
        r.in_group(name, v.kind()),
    ensures
        spec_set(r, name, v).0 is Ok,
        spec_set(r, name, v).1.wf(),
        spec_get(spec_set(r, name, v).1, v.kind(), name) == Ok::<ValueV, AccessErrorV>(v),
{
    lemma_find_field(r.schema.fields, name);
    let r2 = spec_set(r, name, v).1;
    assert(r2.wf());
}

/// Take/default: taking a field returns its pre-call value and leaves the
/// field at its declared type's canonical default; taking the same field
/// again returns that default.
pub proof fn lemma_take_then_take(r: RecordV, t: TypeDescV, name: Seq<char>)
    requires
        r.wf(),
        r.in_group(name, t),
    ensures
        spec_take(r, t, name).0 == Ok::<ValueV, AccessErrorV>(r.value_of(name)),
        spec_take(r, t, name).1.wf(),
        spec_take(r, t, name).1.value_of(name) == default_of(t).unwrap(),
        spec_take(spec_take(r, t, name).1, t, name).0 == Ok::<ValueV, AccessErrorV>(
            default_of(t).unwrap(),
        ),
{
    lemma_find_field(r.schema.fields, name);
    let r2 = spec_take(r, t, name).1;
    assert(r2.wf());
}

/// Replace: replacing a field's value returns the pre-call value and leaves
/// the field holding the new one.
pub proof fn lemma_replace(r: RecordV, name: Seq<char>, v: ValueV)
    requires
        r.wf(),
        r.in_group(name, v.kind()),
    ensures
        spec_replace(r, name, v).0 == Ok::<ValueV, AccessErrorV>(r.value_of(name)),
        spec_replace(r, name, v).1.wf(),
        spec_replace(r, name, v).1.value_of(name) == v,
{
    lemma_find_field(r.schema.fields, name);
    let r2 = spec_replace(r, name, v).1;
    assert(r2.wf());
}

/// Swap involution: exchanging a swappable pair succeeds, keeps the record
/// well formed, and exchanging the same pair again restores the record
/// exactly.
pub proof fn lemma_swap_involution(r: RecordV, x: Seq<char>, y: Seq<char>)
    requires
        r.wf(),
        valid_swap(r, x, y),
    ensures
        spec_swap(r, x, y).0 is Ok,
        spec_swap(r, x, y).1.wf(),
        spec_swap(spec_swap(r, x, y).1, x, y) == (Ok::<(), AccessErrorV>(()), r),
{
    lemma_find_field(r.schema.fields, x);
    lemma_find_field(r.schema.fields, y);
    let i = r.schema.find(x).unwrap();
    let j = r.schema.find(y).unwrap();
    let r1 = spec_swap(r, x, y).1;
    assert(i != j);
    assert(r1.wf());
    assert(valid_swap(r1, x, y));
    let r2 = spec_swap(r1, x, y).1;
    assert(r2.values =~= r.values);
    assert(r2 =~= r);
}

/// Swap on anything but a swappable pair — an unknown name, one name given
/// twice, or two fields of different declared types — fails, carrying both
/// names verbatim, and mutates nothing.
pub proof fn lemma_swap_invalid(r: RecordV, x: Seq<char>, y: Seq<char>)
    requires
        r.wf(),
        !valid_swap(r, x, y),
    ensures
        spec_swap(r, x, y) == (Err::<(), AccessErrorV>(AccessErrorV::InvalidSwap(x, y)), r),
{
}

/// Variant identity: enumerating a field yields a variant tagged with the
/// field's own name, carrying exactly the value `get` returns for it.
pub proof fn lemma_variant_identity(r: RecordV, name: Seq<char>)
    requires
        r.wf(),
        r.schema.has_field(name),
    ensures
        spec_getenum(r, name) matches Ok(var) && var.name == name && spec_get(
            r,
            r.schema.ty_of(name),
            name,
        ) == Ok::<ValueV, AccessErrorV>(var.value),
{
    lemma_find_field(r.schema.fields, name);
}

/// Introspection completeness: the snapshot lists exactly the schema's
/// field names in schema order, and enumerating those names in that order
/// reproduces, field by field, the same values as reading the record
/// directly — one variant per field, with no dedup by type.
pub proof fn lemma_introspection_complete(r: RecordV)
    requires
        r.wf(),
    ensures
        info_of(r.schema).field_names == r.schema.names(),
        info_of(r.schema).field_names.len() == r.values.len(),
        forall|i: int| 0 <= i < r.schema.fields.len() ==> spec_getenum(
            r,
            info_of(r.schema).field_names[i],
        ) == Ok::<FieldVariantV, AccessErrorV>(
            (FieldVariantV { name: r.schema.fields[i].name, value: r.values[i] }),
        ),
{
    assert forall|i: int| 0 <= i < r.schema.fields.len() implies spec_getenum(
        r,
        info_of(r.schema).field_names[i],
    ) == Ok::<FieldVariantV, AccessErrorV>(
        (FieldVariantV { name: r.schema.fields[i].name, value: r.values[i] }),
    ) by {
        assert(info_of(r.schema).field_names[i] == r.schema.fields[i].name);
        lemma_find_field_at(r.schema.fields, r.schema.fields[i].name, i);
    }
}

/// Unknown-name stability: a string that names no field is reported
/// `NotFound`, with the string carried verbatim, by every one of the five
/// name-dispatched accessors, and the record stays unchanged.
pub proof fn lemma_unknown_name_stability(r: RecordV, t: TypeDescV, name: Seq<char>, v: ValueV)
    requires
        r.wf(),
        !r.schema.has_field(name),
    ensures
        spec_get(r, t, name) == Err::<ValueV, AccessErrorV>(AccessErrorV::NotFound(Op::Get, name)),
        spec_set(r, name, v) == (
            Err::<(), AccessErrorV>(AccessErrorV::NotFound(Op::Put, name)),
            r,
        ),
        spec_take(r, t, name) == (
            Err::<ValueV, AccessErrorV>(AccessErrorV::NotFound(Op::Take, name)),
            r,
        ),
        spec_replace(r, name, v) == (
            Err::<ValueV, AccessErrorV>(AccessErrorV::NotFound(Op::Replace, name)),
            r,
        ),
        spec_getenum(r, name) == Err::<FieldVariantV, AccessErrorV>(
            AccessErrorV::NotFound(Op::GetEnum, name),
        ),
{
}

/// The rendered message of a `NotFound` error embeds the offending string
/// verbatim, right after the operation's own name and an opening quote.
pub proof fn lemma_message_embeds_name(op: Op, name: Seq<char>)
    ensures
        ({
            let m = message_of(AccessErrorV::NotFound(op, name));
            let k = ("invalid field name to "@ + op_word(op) + " '"@).len() as int;
            m.subrange(k, k + name.len() as int) == name
        }),
{
    let m = message_of(AccessErrorV::NotFound(op, name));
    let a = "invalid field name to "@ + op_word(op) + " '"@;
    let k = a.len() as int;
    assert(m.subrange(k, k + name.len() as int) =~= name);
}

/// The name-dispatched accessors of declared type `t` dispatch exactly over
/// `t`'s synthesized group: a name is accepted where it is one of the
/// group's member names, and refused — `NotFound` — anywhere else.
pub proof fn lemma_dispatch_is_group_membership(r: RecordV, t: TypeDescV, name: Seq<char>)
    requires
        r.wf(),
    ensures
        r.in_group(name, t) <==> members_of(r.schema.fields, t).contains(name),
{
    let fs = r.schema.fields;
    lemma_members_of_contains(fs, t, name);
    lemma_find_field(fs, name);
    if members_of(fs, t).contains(name) {
        let i = choose|i: int| 0 <= i < fs.len() && fs[i].name == name && fs[i].ty == t;
        match r.schema.find(name) {
            Some(k) => {
                assert(k == i);
            },
            None => {
                assert(fs[i].name != name);
            },
        }
    }
}

/// The exchange operation dispatches exactly over the synthesized swap-pair
/// table: two names form a swappable pair where the table lists them, under
/// the first field's declared type, and nowhere else.
pub proof fn lemma_swap_dispatch_is_pair_membership(r: RecordV, x: Seq<char>, y: Seq<char>)
    requires
        r.wf(),
    ensures
        valid_swap(r, x, y) <==> (r.schema.has_field(x) && swap_pairs_of(
            r.schema.fields,
        ).contains((SwapPairV { first: x, second: y, ty: r.schema.ty_of(x) }))),
{
    let fs = r.schema.fields;
    lemma_find_field(fs, x);
    lemma_find_field(fs, y);
    if valid_swap(r, x, y) {
        let p = SwapPairV { first: x, second: y, ty: r.schema.ty_of(x) };
        lemma_swap_pairs_contains(fs, p);
        let i = r.schema.find(x).unwrap();
        let j = r.schema.find(y).unwrap();
        assert(0 <= i < fs.len() && 0 <= j < fs.len() && fs[i].name == p.first && fs[j].name
            == p.second && fs[i].ty == p.ty && fs[j].ty == p.ty && fs[i].name != fs[j].name);
    }
    if r.schema.has_field(x) && swap_pairs_of(fs).contains(
        (SwapPairV { first: x, second: y, ty: r.schema.ty_of(x) }),
    ) {
        let p = SwapPairV { first: x, second: y, ty: r.schema.ty_of(x) };
        lemma_swap_pairs_contains(fs, p);
        let (i, j) = choose|i: int, j: int|
            0 <= i < fs.len() && 0 <= j < fs.len() && fs[i].name == p.first && fs[j].name
                == p.second && fs[i].ty == p.ty && fs[j].ty == p.ty && fs[i].name != fs[j].name;
        assert(r.schema.has_field(y));
        let jy = r.schema.find(y).unwrap();
        assert(fs[jy].name == y);
        assert(fs[jy].name == fs[j].name);
        assert(jy == j);
        assert(r.schema.ty_of(y) == r.schema.ty_of(x));
        assert(x != y);
    }
}

} // verus!
