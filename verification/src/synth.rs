//! The generation stage: type groups, swap pairs and introspection
//! metadata, synthesized once per record definition.

use vstd::prelude::*;
use crate::value::{TypeDesc, TypeDescV, display_name_of, has_default};
use crate::schema::{Field, FieldV, Schema, SchemaV, fields_view, names_distinct};
use crate::schema::{RecordDef, RecordDefV, named_shape, extract_schema};
use crate::error::{GenError, GenErrorV};

verus! {

/// One capability group: a declared type together with the names of every
/// field of that type, in declaration order. The five name-dispatched
/// accessor operations are emitted once per group, not once per field.
#[derive(Debug, PartialEq, Eq)]
pub struct TypeGroup {
    pub ty: TypeDesc,
    pub members: Vec<String>,
}

/// Mathematical image of a `TypeGroup`.
#[verifier::ext_equal]
pub struct TypeGroupV {
    pub ty: TypeDescV,
    pub members: Seq<Seq<char>>,
}

impl View for TypeGroup {
    type V = TypeGroupV;

    open spec fn view(&self) -> TypeGroupV {
        TypeGroupV { ty: self.ty@, members: self.members@.map_values(|s: String| s@) }
    }
}

/// The names of the fields of declared type `t`, in declaration order.
pub open spec fn members_of(fs: Seq<FieldV>, t: TypeDescV) -> Seq<Seq<char>>
    decreases fs.len(),
{
    if fs.len() == 0 {
        Seq::empty()
    } else {
        let rest = members_of(fs.drop_last(), t);
        if fs.last().ty == t {
            rest.push(fs.last().name)
        } else {
            rest
        }
    }
}

/// The distinct declared types of a field list, each listed once, in the
/// order of its first occurrence.
pub open spec fn group_tys(fs: Seq<FieldV>) -> Seq<TypeDescV>
    decreases fs.len(),
{
    if fs.len() == 0 {
        Seq::empty()
    } else {
        let rest = group_tys(fs.drop_last());
        if rest.contains(fs.last().ty) {
            rest
        } else {
            rest.push(fs.last().ty)
        }
    }
}

/// The full grouping: one group per distinct declared type, in
/// first-occurrence order, each collecting all its member field names.
pub open spec fn groups_of(fs: Seq<FieldV>) -> Seq<TypeGroupV> {
    group_tys(fs).map_values(|t: TypeDescV| TypeGroupV { ty: t, members: members_of(fs, t) })
}

/// A name is listed in type `t`'s group exactly where some field bears that
/// name with declared type `t`.
pub proof fn lemma_members_of_contains(fs: Seq<FieldV>, t: TypeDescV, n: Seq<char>)
    ensures
        members_of(fs, t).contains(n) <==> exists|i: int|
            0 <= i < fs.len() && fs[i].name == n && fs[i].ty == t,
    decreases fs.len(),
{
    if fs.len() == 0 {
    } else {
        let head = fs.drop_last();
        lemma_members_of_contains(head, t, n);
        if members_of(fs, t).contains(n) {
            if fs.last().ty == t && fs.last().name == n {
                assert(fs[fs.len() - 1].name == n && fs[fs.len() - 1].ty == t);
            } else {
                if fs.last().ty == t {
                    let k = choose|k: int|
                        0 <= k < members_of(fs, t).len() && members_of(fs, t)[k] == n;
                    if k < members_of(head, t).len() {
                        assert(members_of(head, t).contains(n));
                    }
                } else {
                    assert(members_of(head, t).contains(n));
                }
                let i = choose|i: int| 0 <= i < head.len() && head[i].name == n && head[i].ty == t;
                assert(fs[i].name == n && fs[i].ty == t);
            }
        }
        if exists|i: int| 0 <= i < fs.len() && fs[i].name == n && fs[i].ty == t {
            let i = choose|i: int| 0 <= i < fs.len() && fs[i].name == n && fs[i].ty == t;
            if i == fs.len() - 1 {
                assert(members_of(fs, t).last() == n);
                assert(members_of(fs, t).contains(n));
            } else {
                assert(head[i].name == n && head[i].ty == t);
                assert(members_of(head, t).contains(n));
                let k = choose|k: int|
                    0 <= k < members_of(head, t).len() && members_of(head, t)[k] == n;
                assert(members_of(fs, t)[k] == n);
                assert(members_of(fs, t).contains(n));
            }
        }
    }
}

/// A declared type has a group exactly where some field declares it.
pub proof fn lemma_group_tys_contains(fs: Seq<FieldV>, t: TypeDescV)
    ensures
        group_tys(fs).contains(t) <==> exists|i: int| 0 <= i < fs.len() && fs[i].ty == t,
    decreases fs.len(),
{
    if fs.len() == 0 {
    } else {
        let head = fs.drop_last();
        lemma_group_tys_contains(head, t);
        if group_tys(fs).contains(t) {
            if !group_tys(head).contains(t) {
                if t == fs.last().ty {
                    assert(fs[fs.len() - 1].ty == t);
                } else {
                    let k = choose|k: int|
                        0 <= k < group_tys(fs).len() && group_tys(fs)[k] == t;
                    assert(group_tys(head).contains(t));
                }
            } else {
                let i = choose|i: int| 0 <= i < head.len() && head[i].ty == t;
                assert(fs[i].ty == t);
            }
        }
        if exists|i: int| 0 <= i < fs.len() && fs[i].ty == t {
            let i = choose|i: int| 0 <= i < fs.len() && fs[i].ty == t;
            if i == fs.len() - 1 {
                if !group_tys(head).contains(fs.last().ty) {
                    assert(group_tys(fs).last() == t);
                    assert(group_tys(fs).contains(t));
                } else {
                    let k = choose|k: int|
                        0 <= k < group_tys(head).len() && group_tys(head)[k] == t;
                    assert(group_tys(fs)[k] == t);
                    assert(group_tys(fs).contains(t));
                }
            } else {
                assert(head[i].ty == t);
                assert(group_tys(head).contains(t));
                let k = choose|k: int| 0 <= k < group_tys(head).len() && group_tys(head)[k] == t;
                assert(group_tys(fs)[k] == t);
                assert(group_tys(fs).contains(t));
            }
        }
    }
}

/// No declared type has two groups.
pub proof fn lemma_group_tys_no_repeat(fs: Seq<FieldV>)
    ensures
        forall|p: int, q: int| 0 <= p < q < group_tys(fs).len() ==> group_tys(fs)[p]
            != group_tys(fs)[q],
    decreases fs.len(),
{
    if fs.len() > 0 {
        let head = fs.drop_last();
        lemma_group_tys_no_repeat(head);
        if !group_tys(head).contains(fs.last().ty) {
            assert forall|p: int, q: int|
                0 <= p < q < group_tys(fs).len() implies group_tys(fs)[p] != group_tys(
                fs,
            )[q] by {
                if q == group_tys(fs).len() - 1 {
                    assert(group_tys(fs)[p] == group_tys(head)[p]);
                    if group_tys(head)[p] == fs.last().ty {
                        assert(group_tys(head).contains(fs.last().ty));
                    }
                }
            }
        }
    }
}

/// Every field appears in exactly one group: its name is a member of its
/// own declared type's group, of no other group, and its type is grouped.
/// A type declared by several fields therefore yields one group holding
/// them all, never one group per field.
pub proof fn lemma_groups_partition(fs: Seq<FieldV>, i: int)
    requires
        names_distinct(fs),
        0 <= i < fs.len(),
    ensures
        group_tys(fs).contains(fs[i].ty),
        members_of(fs, fs[i].ty).contains(fs[i].name),
        forall|t: TypeDescV| t != fs[i].ty ==> !members_of(fs, t).contains(fs[i].name),
{
    lemma_group_tys_contains(fs, fs[i].ty);
    lemma_members_of_contains(fs, fs[i].ty, fs[i].name);
    assert forall|t: TypeDescV| t != fs[i].ty implies !members_of(fs, t).contains(
        fs[i].name,
    ) by {
        lemma_members_of_contains(fs, t, fs[i].name);
        if members_of(fs, t).contains(fs[i].name) {
            let j = choose|j: int| 0 <= j < fs.len() && fs[j].name == fs[i].name && fs[j].ty == t;
            assert(j == i);
        }
    }
}

/// Partitions the fields by declared type: for each field in declaration
/// order, where its type has no group yet, open one and collect every field
/// of that exact type into it.
pub fn group_by_type(fields: &Vec<Field>) -> (r: Vec<TypeGroup>)
    ensures
        r@.map_values(|g: TypeGroup| g@) == groups_of(fields_view(fields@)),
{
    let ghost fs = fields_view(fields@);
    let n = fields.len();
    let mut r: Vec<TypeGroup> = Vec::new();
    let mut i: usize = 0;
    while i < n
        invariant
            i <= n,
            r@.len() == group_tys(fs.take(i as int)).len(),
            forall|m: int| 0 <= m < r@.len() ==> (#[trigger] r@[m])@.ty == group_tys(
                fs.take(i as int),
            )[m],
            forall|m: int| 0 <= m < r@.len() ==> (#[trigger] r@[m])@.members == members_of(
                fs,
                group_tys(fs.take(i as int))[m],
            ),
        decreases n - i,
    {
        let ghost prev_tys = group_tys(fs.take(i as int));
        proof {
            assert(fs[i as int] == fields@[i as int]@);
            assert(fs.take(i as int + 1).drop_last() =~= fs.take(i as int));
            assert(fs.take(i as int + 1).last() == fs[i as int]);
        }
        let mut seen = false;
        let mut j: usize = 0;
        while j < r.len()
            invariant
                0 <= j <= r.len(),
                seen == (exists|k: int| 0 <= k < j && prev_tys[k] == fs[i as int].ty),
            decreases r.len() - j,
        {
            if r[j].ty.same_as(&fields[i].ty) {
                proof {
                    assert(prev_tys[j as int] == fs[i as int].ty);
                }
                seen = true;
            }
            j = j + 1;
        }
        if !seen {
            proof {
                assert(!prev_tys.contains(fs[i as int].ty));
                assert(group_tys(fs.take(i as int + 1)) == prev_tys.push(fs[i as int].ty));
            }
            let ty = fields[i].ty.clone();
            let mut members: Vec<String> = Vec::new();
            let mut k: usize = 0;
            while k < n
                invariant
                    k <= n,
                    ty@ == fs[i as int].ty,
                    members@.map_values(|s: String| s@) == members_of(fs.take(k as int), ty@),
                decreases n - k,
            {
                proof {
                    assert(fs[k as int] == fields@[k as int]@);
                    assert(fs.take(k as int + 1).drop_last() =~= fs.take(k as int));
                    assert(fs.take(k as int + 1).last() == fs[k as int]);
                }
                if fields[k].ty.same_as(&ty) {
                    members.push(fields[k].name.clone());
                    proof {
                        assert(members@.map_values(|s: String| s@) =~= members_of(
                            fs.take(k as int + 1),
                            ty@,
                        ));
                    }
                } else {
                    proof {
                        assert(members@.map_values(|s: String| s@) =~= members_of(
                            fs.take(k as int + 1),
                            ty@,
                        ));
                    }
                }
                k = k + 1;
            }
            proof {
                assert(fs.take(n as int) =~= fs);
            }
            r.push(TypeGroup { ty, members });
        } else {
            proof {
                assert(prev_tys.contains(fs[i as int].ty));
                assert(group_tys(fs.take(i as int + 1)) == prev_tys);
            }
        }
        i = i + 1;
    }
    proof {
        assert(fs.take(n as int) =~= fs);
        assert(r@.map_values(|g: TypeGroup| g@) =~= groups_of(fs));
    }
    r
}

/// The introspection snapshot: the field names and the display names of the
/// field types, in schema order, plus the record's own name.
#[derive(Debug, PartialEq, Eq)]
pub struct StructInfo {
    pub field_names: Vec<String>,
    pub field_types: Vec<String>,
    pub struct_name: String,
}

/// Mathematical image of a `StructInfo`.
#[verifier::ext_equal]
pub struct StructInfoV {
    pub field_names: Seq<Seq<char>>,
    pub field_types: Seq<Seq<char>>,
    pub struct_name: Seq<char>,
}

impl View for StructInfo {
    type V = StructInfoV;

    open spec fn view(&self) -> StructInfoV {
        StructInfoV {
            field_names: self.field_names@.map_values(|s: String| s@),
            field_types: self.field_types@.map_values(|s: String| s@),
            struct_name: self.struct_name@,
        }
    }
}

/// What introspection reports for a schema.
pub open spec fn info_of(s: SchemaV) -> StructInfoV {
    StructInfoV {
        field_names: s.names(),
        field_types: s.fields.map_values(|f: FieldV| display_name_of(f.ty)),
        struct_name: s.struct_name,
    }
}

/// Builds the introspection snapshot afresh from a schema.
pub fn describe(schema: &Schema) -> (r: StructInfo)
    ensures
        r@ == info_of(schema@),
{
    let n = schema.fields.len();
    let mut field_names: Vec<String> = Vec::new();
    let mut field_types: Vec<String> = Vec::new();
    let mut i: usize = 0;
    while i < n
        invariant
            n == schema.fields.len(),
            i <= n,
            field_names@.len() == i,
            field_types@.len() == i,
            forall|j: int| 0 <= j < i ==> field_names@[j]@ == schema@.fields[j].name,
            forall|j: int| 0 <= j < i ==> field_types@[j]@ == display_name_of(
                schema@.fields[j].ty,
            ),
        decreases n - i,
    {
        proof {
            assert(schema@.fields[i as int] == schema.fields@[i as int]@);
        }
        field_names.push(schema.fields[i].name.clone());
        field_types.push(schema.fields[i].ty.display_name());
        i = i + 1;
    }
    let r = StructInfo { field_names, field_types, struct_name: schema.struct_name.clone() };
    proof {
        assert(r@.field_names =~= info_of(schema@).field_names);
        assert(r@.field_types =~= info_of(schema@).field_types);
    }
    r
}

/// The index of the first field whose declared type supplies no canonical
/// default value, if any.
pub open spec fn first_missing_default(fs: Seq<FieldV>) -> Option<int>
    decreases fs.len(),
{
    if fs.len() == 0 {
        None
    } else if !has_default(fs[0].ty) {
        Some(0)
    } else {
        match first_missing_default(fs.skip(1)) {
            Some(i) => Some(i + 1),
            None => None,
        }
    }
}

/// What `first_missing_default` returns: the first field whose type lacks a
/// default, or `None` where every field's type has one.
pub proof fn lemma_first_missing_default(fs: Seq<FieldV>)
    ensures
        match first_missing_default(fs) {
            Some(i) => 0 <= i < fs.len() && !has_default(fs[i].ty) && (forall|j: int|
                0 <= j < i ==> has_default(fs[j].ty)),
            None => forall|j: int| 0 <= j < fs.len() ==> has_default(fs[j].ty),
        },
    decreases fs.len(),
{
    if fs.len() == 0 {
    } else if !has_default(fs[0].ty) {
    } else {
        let rest = fs.skip(1);
        lemma_first_missing_default(rest);
        assert(forall|j: int| 0 <= j < rest.len() ==> rest[j] == fs[j + 1]);
        match first_missing_default(rest) {
            Some(i) => {
                assert forall|j: int| 0 <= j < i + 1 implies has_default(fs[j].ty) by {
                    if j >= 1 {
                        assert(rest[j - 1] == fs[j]);
                    }
                }
            },
            None => {
                assert forall|j: int| 0 <= j < fs.len() implies has_default(fs[j].ty) by {
                    if j >= 1 {
                        assert(rest[j - 1] == fs[j]);
                    }
                }
            },
        }
    }
}

/// Where the first field without a default sits at index `k`,
/// `first_missing_default` returns exactly `k`.
pub proof fn lemma_first_missing_default_at(fs: Seq<FieldV>, k: int)
    requires
        0 <= k < fs.len(),
        !has_default(fs[k].ty),
        forall|j: int| 0 <= j < k ==> has_default(fs[j].ty),
    ensures
        first_missing_default(fs) == Some(k),
    decreases fs.len(),
{
    if k == 0 {
    } else {
        assert(forall|j: int| 0 <= j < fs.skip(1).len() ==> fs.skip(1)[j] == fs[j + 1]);
        lemma_first_missing_default_at(fs.skip(1), k - 1);
    }
}

/// One dispatch arm of the exchange operation: an ordered pair of distinct
/// field names sharing one declared type.
#[derive(Debug, PartialEq, Eq)]
pub struct SwapPair {
    pub first: String,
    pub second: String,
    pub ty: TypeDesc,
}

/// Mathematical image of a `SwapPair`.
#[verifier::ext_equal]
pub struct SwapPairV {
    pub first: Seq<char>,
    pub second: Seq<char>,
    pub ty: TypeDescV,
}

impl View for SwapPair {
    type V = SwapPairV;

    open spec fn view(&self) -> SwapPairV {
        SwapPairV { first: self.first@, second: self.second@, ty: self.ty@ }
    }
}

/// The swap pairs whose first component is the field `x`, drawn from the
/// first `k` fields as second components.
pub open spec fn pairs_with(fs: Seq<FieldV>, x: FieldV, k: int) -> Seq<SwapPairV>
    decreases k,
{
    if k <= 0 {
        Seq::empty()
    } else {
        let rest = pairs_with(fs, x, k - 1);
        if fs[k - 1].ty == x.ty && fs[k - 1].name != x.name {
            rest.push(SwapPairV { first: x.name, second: fs[k - 1].name, ty: x.ty })
        } else {
            rest
        }
    }
}

/// The swap pairs whose first component is one of the first `k` fields.
pub open spec fn pairs_upto(fs: Seq<FieldV>, k: int) -> Seq<SwapPairV>
    decreases k,
{
    if k <= 0 {
        Seq::empty()
    } else {
        pairs_upto(fs, k - 1) + pairs_with(fs, fs[k - 1], fs.len() as int)
    }
}

/// Every ordered pair of distinctly named fields sharing one declared type,
/// drawn from the raw field list — not from the deduplicated groups —
/// enumerated by first component and then by second.
pub open spec fn swap_pairs_of(fs: Seq<FieldV>) -> Seq<SwapPairV> {
    pairs_upto(fs, fs.len() as int)
}

proof fn lemma_pairs_with_contains(fs: Seq<FieldV>, x: FieldV, k: int, p: SwapPairV)
    requires
        k <= fs.len(),
    ensures
        pairs_with(fs, x, k).contains(p) <==> exists|j: int|
            0 <= j < k && fs[j].ty == x.ty && fs[j].name != x.name && p == (SwapPairV {
                first: x.name,
                second: fs[j].name,
                ty: x.ty,
            }),
    decreases k,
{
    if k > 0 {
        lemma_pairs_with_contains(fs, x, k - 1, p);
        let rest = pairs_with(fs, x, k - 1);
        if fs[k - 1].ty == x.ty && fs[k - 1].name != x.name {
            let cur = pairs_with(fs, x, k);
            assert(cur == rest.push(SwapPairV { first: x.name, second: fs[k - 1].name, ty: x.ty }));
            if cur.contains(p) {
                let m = choose|m: int| 0 <= m < cur.len() && cur[m] == p;
                if m < rest.len() {
                    assert(rest.contains(p));
                }
            }
            if exists|j: int|
                0 <= j < k && fs[j].ty == x.ty && fs[j].name != x.name && p == (SwapPairV {
                    first: x.name,
                    second: fs[j].name,
                    ty: x.ty,
                }) {
                let j = choose|j: int|
                    0 <= j < k && fs[j].ty == x.ty && fs[j].name != x.name && p == (SwapPairV {
                        first: x.name,
                        second: fs[j].name,
                        ty: x.ty,
                    });
                if j == k - 1 {
                    assert(cur.last() == p);
                    assert(cur.contains(p));
                } else {
                    assert(rest.contains(p));
                    let m = choose|m: int| 0 <= m < rest.len() && rest[m] == p;
                    assert(cur[m] == p);
                    assert(cur.contains(p));
                }
            }
        } else {
            if pairs_with(fs, x, k).contains(p) {
                assert(rest.contains(p));
            }
        }
    }
}

proof fn lemma_pairs_upto_contains(fs: Seq<FieldV>, k: int, p: SwapPairV)
    requires
        k <= fs.len(),
    ensures
        pairs_upto(fs, k).contains(p) <==> exists|i: int|
            0 <= i < k && pairs_with(fs, fs[i], fs.len() as int).contains(p),
    decreases k,
{
    if k > 0 {
        lemma_pairs_upto_contains(fs, k - 1, p);
        let rest = pairs_upto(fs, k - 1);
        let row = pairs_with(fs, fs[k - 1], fs.len() as int);
        let cur = pairs_upto(fs, k);
        assert(cur == rest + row);
        if cur.contains(p) {
            let m = choose|m: int| 0 <= m < cur.len() && cur[m] == p;
            if m < rest.len() {
                assert(rest[m] == p);
                assert(rest.contains(p));
            } else {
                assert(row[m - rest.len()] == p);
                assert(row.contains(p));
            }
        }
        if exists|i: int| 0 <= i < k && pairs_with(fs, fs[i], fs.len() as int).contains(p) {
            let i = choose|i: int|
                0 <= i < k && pairs_with(fs, fs[i], fs.len() as int).contains(p);
            if i == k - 1 {
                let m = choose|m: int| 0 <= m < row.len() && row[m] == p;
                assert(cur[rest.len() + m] == p);
                assert(cur.contains(p));
            } else {
                assert(rest.contains(p));
                let m = choose|m: int| 0 <= m < rest.len() && rest[m] == p;
                assert(cur[m] == p);
                assert(cur.contains(p));
            }
        }
    }
}

/// A pair is dispatched by the exchange operation exactly where its two
/// names name two fields that share one declared type under different
/// names.
pub proof fn lemma_swap_pairs_contains(fs: Seq<FieldV>, p: SwapPairV)
    ensures
        swap_pairs_of(fs).contains(p) <==> exists|i: int, j: int|
            0 <= i < fs.len() && 0 <= j < fs.len() && fs[i].name == p.first && fs[j].name
                == p.second && fs[i].ty == p.ty && fs[j].ty == p.ty && fs[i].name != fs[j].name,
{
    lemma_pairs_upto_contains(fs, fs.len() as int, p);
    if swap_pairs_of(fs).contains(p) {
        let i = choose|i: int|
            0 <= i < fs.len() && pairs_with(fs, fs[i], fs.len() as int).contains(p);
        lemma_pairs_with_contains(fs, fs[i], fs.len() as int, p);
        let j = choose|j: int|
            0 <= j < fs.len() && fs[j].ty == fs[i].ty && fs[j].name != fs[i].name && p
                == (SwapPairV { first: fs[i].name, second: fs[j].name, ty: fs[i].ty });
        assert(0 <= i < fs.len() && 0 <= j < fs.len() && fs[i].name == p.first && fs[j].name
            == p.second && fs[i].ty == p.ty && fs[j].ty == p.ty && fs[i].name != fs[j].name);
    }
    if exists|i: int, j: int|
        0 <= i < fs.len() && 0 <= j < fs.len() && fs[i].name == p.first && fs[j].name == p.second
            && fs[i].ty == p.ty && fs[j].ty == p.ty && fs[i].name != fs[j].name {
        let (i, j) = choose|i: int, j: int|
            0 <= i < fs.len() && 0 <= j < fs.len() && fs[i].name == p.first && fs[j].name
                == p.second && fs[i].ty == p.ty && fs[j].ty == p.ty && fs[i].name != fs[j].name;
        lemma_pairs_with_contains(fs, fs[i], fs.len() as int, p);
        assert(p =~= (SwapPairV { first: fs[i].name, second: fs[j].name, ty: fs[i].ty }));
        assert(pairs_with(fs, fs[i], fs.len() as int).contains(p));
    }
}

/// Enumerates the exchange dispatch arms: for each field, every other field
/// of the same declared type, in declaration order on both sides.
pub fn swap_pairs(fields: &Vec<Field>) -> (r: Vec<SwapPair>)
    ensures
        r@.map_values(|p: SwapPair| p@) == swap_pairs_of(fields_view(fields@)),
{
    let ghost fs = fields_view(fields@);
    let n = fields.len();
    let mut r: Vec<SwapPair> = Vec::new();
    let mut i: usize = 0;
    proof {
        assert(r@.map_values(|p: SwapPair| p@) =~= pairs_upto(fs, 0));
    }
    while i < n
        invariant
            i <= n,
            r@.map_values(|p: SwapPair| p@) == pairs_upto(fs, i as int),
        decreases n - i,
    {
        let mut j: usize = 0;
        proof {
            assert(fs[i as int] == fields@[i as int]@);
            assert(r@.map_values(|p: SwapPair| p@) =~= pairs_upto(fs, i as int) + pairs_with(
                fs,
                fs[i as int],
                0,
            ));
        }
        while j < n
            invariant
                j <= n,
                r@.map_values(|p: SwapPair| p@) == pairs_upto(fs, i as int) + pairs_with(
                    fs,
                    fs[i as int],
                    j as int,
                ),
            decreases n - j,
        {
            proof {
                assert(fs[j as int] == fields@[j as int]@);
            }
            if fields[i].ty.same_as(&fields[j].ty) && !(fields[i].name == fields[j].name) {
                let pair = SwapPair {
                    first: fields[i].name.clone(),
                    second: fields[j].name.clone(),
                    ty: fields[i].ty.clone(),
                };
                proof {
                    assert(pair@ == (SwapPairV {
                        first: fs[i as int].name,
                        second: fs[j as int].name,
                        ty: fs[i as int].ty,
                    }));
                }
                let ghost r0 = r@;
                r.push(pair);
                proof {
                    r0.lemma_push_map_commute(|p: SwapPair| p@, pair);
                    assert(r@.map_values(|p: SwapPair| p@) =~= pairs_upto(fs, i as int)
                        + pairs_with(fs, fs[i as int], j as int + 1));
                }
            } else {
                proof {
                    assert(pairs_with(fs, fs[i as int], j as int + 1) == pairs_with(
                        fs,
                        fs[i as int],
                        j as int,
                    ));
                }
            }
            j = j + 1;
        }
        i = i + 1;
    }
    r
}

/// Everything generation emits for one record definition: the extracted
/// schema, the capability groups, the exchange dispatch table and the
/// introspection snapshot. The tagged-union synthesizer contributes no
/// table of its own: its variant set is the schema's field list itself, one
/// variant per field, repeated types and all.
#[derive(Debug, PartialEq, Eq)]
pub struct Generated {
    pub schema: Schema,
    pub groups: Vec<TypeGroup>,
    pub pairs: Vec<SwapPair>,
    pub info: StructInfo,
}

/// Runs the generation pipeline on a record definition: extract the schema,
/// group the fields by declared type, enumerate the exchange pairs and
/// snapshot the introspection metadata. Fails whole — with no partial
/// artifact — on a definition without named, distinctly named fields, and
/// on a field whose declared type supplies no default value, which the
/// synthesized `take` operation would need.
pub fn derive(def: &RecordDef) -> (r: Result<Generated, GenError>)
    ensures
        match r {
            Ok(g) => ({
                &&& named_shape(def@) == Some(g.schema@)
                &&& g.schema@.names_unique()
                &&& first_missing_default(g.schema@.fields) is None
                &&& g.groups@.map_values(|gr: TypeGroup| gr@) == groups_of(g.schema@.fields)
                &&& g.pairs@.map_values(|p: SwapPair| p@) == swap_pairs_of(g.schema@.fields)
                &&& g.info@ == info_of(g.schema@)
            }),
            Err(e) => match e@ {
                GenErrorV::UnsupportedShape => match named_shape(def@) {
                    Some(s) => !s.names_unique(),
                    None => true,
                },
                GenErrorV::NoDefaultAvailable(t) => match named_shape(def@) {
                    Some(s) => s.names_unique() && match first_missing_default(s.fields) {
                        Some(k) => t == s.fields[k].ty,
                        None => false,
                    },
                    None => false,
                },
            },
        },
{
    let schema = match extract_schema(def) {
        Ok(s) => s,
        Err(e) => {
            return Err(e);
        },
    };
    let n = schema.fields.len();
    let mut i: usize = 0;
    while i < n
        invariant
            i <= n,
            forall|j: int| 0 <= j < i ==> has_default(schema@.fields[j].ty),
        decreases n - i,
    {
        proof {
            assert(schema@.fields[i as int] == schema.fields@[i as int]@);
        }
        if !schema.fields[i].ty.provides_default() {
            proof {
                lemma_first_missing_default_at(schema@.fields, i as int);
            }
            return Err(GenError::NoDefaultAvailable(schema.fields[i].ty.clone()));
        }
        i = i + 1;
    }
    proof {
        lemma_first_missing_default(schema@.fields);
    }
    let groups = group_by_type(&schema.fields);
    let pairs = swap_pairs(&schema.fields);
    let info = describe(&schema);
    Ok(Generated { schema, groups, pairs, info })
}

} // verus!
