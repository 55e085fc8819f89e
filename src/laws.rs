use vstd::prelude::*;
use crate::check::{check_spec, first_failure, find_variant, le_value, is_scalar, struct_error};
use crate::error::CheckError;
use crate::layout::{Field, Prim, Registry, Shape, Variant, discriminants_unique, tag_width};

verus! {

/// An abstract value of some type of a registry: an integer, a `bool`, a
/// `char` (as its scalar value), the field values of a struct, or a variant
/// index with that variant's field values.
pub enum Value {
    Int(nat),
    Bool(bool),
    Char(u32),
    Fields(Seq<Value>),
    Tagged(nat, Seq<Value>),
}

/// The bytes at `at` hold the encoding of the primitive value `v`.
pub open spec fn prim_encodes(p: Prim, b: Seq<u8>, at: int, v: Value) -> bool {
    match p {
        Prim::Bool => v matches Value::Bool(x) && b[at] == (if x { 1u8 } else { 0u8 }),
        Prim::Char => v matches Value::Char(c) && is_scalar(c) && le_value(b, at, 4) == c,
        Prim::U8 => v matches Value::Int(n) && le_value(b, at, 1) == n,
        Prim::U16 => v matches Value::Int(n) && le_value(b, at, 2) == n,
        Prim::U32 => v matches Value::Int(n) && le_value(b, at, 4) == n,
        Prim::U64 => v matches Value::Int(n) && le_value(b, at, 8) == n,
    }
}

/// The bytes at `at` hold the encoding of `v` as a value of type `ty`:
/// the value written there in the layout the registry describes. The bytes
/// of skipped fields are unconstrained.
pub open spec fn encodes(types: Seq<Shape>, ty: nat, b: Seq<u8>, at: int, v: Value) -> bool
    decreases ty, 1nat, 0nat,
{
    if ty >= types.len() {
        false
    } else {
        match types[ty as int] {
            Shape::Prim(p) => prim_encodes(p, b, at, v),
            Shape::Struct { fields, .. } => v matches Value::Fields(vs) && vs.len() == fields@.len()
                && fields_encode(types, ty, fields@, b, at, vs, 0),
            Shape::Enum { tag, variants, .. } => v matches Value::Tagged(j, vs) && j < variants@.len()
                && le_value(b, at, tag_width(tag)) == variants@[j as int].discriminant
                && vs.len() == variants@[j as int].fields@.len()
                && fields_encode(types, ty, variants@[j as int].fields@, b, at, vs, 0),
        }
    }
}

/// Fields `k..` that are not skipped hold the encodings of their values.
pub open spec fn fields_encode(
    types: Seq<Shape>,
    owner: nat,
    fs: Seq<Field>,
    b: Seq<u8>,
    at: int,
    vs: Seq<Value>,
    k: nat,
) -> bool
    decreases owner, 0nat, fs.len() - k,
{
    if k >= fs.len() {
        true
    } else {
        let f = fs[k as int];
        &&& (!f.skip && f.ty < owner ==> encodes(types, f.ty as nat, b, at + f.offset, vs[k as int]))
        &&& fields_encode(types, owner, fs, b, at, vs, k + 1)
    }
}

proof fn lemma_find_unique(vs: Seq<Variant>, j: nat, k: nat)
    requires
        discriminants_unique(vs),
        k <= j < vs.len(),
    ensures
        find_variant(vs, vs[j as int].discriminant as nat, k) == Some(j),
    decreases j - k,
{
    if k < j {
        assert(vs[k as int].discriminant != vs[j as int].discriminant);
        lemma_find_unique(vs, j, k + 1);
    }
}

proof fn lemma_find_none(vs: Seq<Variant>, t: nat, k: nat)
    requires
        forall|i: int| 0 <= i < vs.len() ==> #[trigger] vs[i].discriminant != t,
    ensures
        find_variant(vs, t, k) is None,
    decreases vs.len() - k,
{
    if k < vs.len() {
        lemma_find_none(vs, t, k + 1);
    }
}

proof fn lemma_encoded_fields_pass(
    types: Seq<Shape>,
    owner: nat,
    fs: Seq<Field>,
    b: Seq<u8>,
    at: int,
    vs: Seq<Value>,
    k: nat,
)
    requires
        forall|i: nat| i < types.len() ==> #[trigger] crate::layout::shape_ok(types, i),
        fields_encode(types, owner, fs, b, at, vs, k),
    ensures
        first_failure(types, owner, fs, b, at, k) is None,
    decreases owner, 0nat, fs.len() - k,
{
    if k < fs.len() {
        let f = fs[k as int];
        if !f.skip && f.ty < owner {
            lemma_encoded_passes(types, f.ty as nat, b, at + f.offset, vs[k as int]);
        }
        lemma_encoded_fields_pass(types, owner, fs, b, at, vs, k + 1);
    }
}

proof fn lemma_encoded_passes(types: Seq<Shape>, ty: nat, b: Seq<u8>, at: int, v: Value)
    requires
        forall|i: nat| i < types.len() ==> #[trigger] crate::layout::shape_ok(types, i),
        encodes(types, ty, b, at, v),
    ensures
        check_spec(types, ty, b, at) is Ok,
    decreases ty, 1nat, 0nat,
{
    assert(crate::layout::shape_ok(types, ty));
    match types[ty as int] {
        Shape::Prim(p) => {},
        Shape::Struct { fields, .. } => {
            let vs = v->Fields_0;
            lemma_encoded_fields_pass(types, ty, fields@, b, at, vs, 0);
        },
        Shape::Enum { tag, variants, .. } => {
            let j = v->Tagged_0;
            let vs = v->Tagged_1;
            lemma_find_unique(variants@, j, 0);
            lemma_encoded_fields_pass(types, ty, variants@[j as int].fields@, b, at, vs, 0);
        },
    }
}

/// Round trip: bytes that hold the encoding of a value of type `ty` always
/// pass validation as `ty`. Validation only reads, so a reference formed
/// afterwards sees exactly the encoded field values.
pub proof fn law_encoded_value_is_valid(reg: Registry, ty: nat, b: Seq<u8>, at: int, v: Value)
    requires
        reg.wf(),
        encodes(reg.types@, ty, b, at, v),
    ensures
        check_spec(reg.types@, ty, b, at) is Ok,
{
    lemma_encoded_passes(reg.types@, ty, b, at, v);
}

/// Tag exclusivity: when the tag of a tagged union matches no declared
/// discriminant, validation fails with that raw tag value, and the result
/// depends on the tag bytes alone: any buffer with the same tag bytes gives
/// the same error, whatever its other bytes hold.
pub proof fn law_unknown_tag(reg: Registry, ty: nat, b1: Seq<u8>, b2: Seq<u8>, at: int)
    requires
        reg.wf(),
        ty < reg.types@.len(),
        reg.types@[ty as int] is Enum,
        forall|i: int|
            at <= i < at + tag_width(reg.types@[ty as int]->tag) ==> #[trigger] b1[i] == b2[i],
        forall|k: int|
            0 <= k < reg.types@[ty as int]->variants@.len() ==> #[trigger] reg.types@[ty as int]->variants@[k].discriminant
                != le_value(b1, at, tag_width(reg.types@[ty as int]->tag)),
    ensures
        check_spec(reg.types@, ty, b1, at) == Err::<(), CheckError>(
            CheckError::InvalidTag { value: le_value(b1, at, tag_width(reg.types@[ty as int]->tag)) as u64 },
        ),
        check_spec(reg.types@, ty, b2, at) == check_spec(reg.types@, ty, b1, at),
{
    let w = tag_width(reg.types@[ty as int]->tag);
    lemma_le_frame(b1, b2, at, w);
    lemma_find_none(reg.types@[ty as int]->variants@, le_value(b1, at, w), 0);
}

proof fn lemma_le_frame(b1: Seq<u8>, b2: Seq<u8>, at: int, n: nat)
    requires
        forall|i: int| at <= i < at + n ==> #[trigger] b1[i] == b2[i],
    ensures
        le_value(b1, at, n) == le_value(b2, at, n),
    decreases n,
{
    if n > 0 {
        assert(b1[at] == b2[at]);
        lemma_le_frame(b1, b2, at + 1, (n - 1) as nat);
    }
}

proof fn lemma_prefix_passes(
    types: Seq<Shape>,
    owner: nat,
    fs: Seq<Field>,
    b: Seq<u8>,
    at: int,
    j: nat,
    k: nat,
)
    requires
        j <= k <= fs.len(),
        forall|i: int|
            j <= i < k && !fs[i].skip && fs[i].ty < owner ==> #[trigger] check_spec(
                types,
                fs[i].ty as nat,
                b,
                at + fs[i].offset,
            ) is Ok,
    ensures
        first_failure(types, owner, fs, b, at, j) == first_failure(types, owner, fs, b, at, k),
    decreases k - j,
{
    if j < k {
        let f = fs[j as int];
        if !f.skip && f.ty < owner {
            assert(check_spec(types, fs[j as int].ty as nat, b, at + fs[j as int].offset) is Ok);
        }
        lemma_prefix_passes(types, owner, fs, b, at, j + 1, k);
    }
}

/// First failure wins: when every field of a struct before field `k` passes
/// (or is skipped) and field `k` fails with `e`, validation of the struct
/// fails naming field `k` with cause `e`, whatever the later fields hold.
pub proof fn law_first_failure_wins(reg: Registry, ty: nat, b: Seq<u8>, at: int, k: nat, e: CheckError)
    requires
        reg.wf(),
        ty < reg.types@.len(),
        reg.types@[ty as int] is Struct,
        k < reg.types@[ty as int]->fields@.len(),
        forall|i: int|
            0 <= i < k && !(#[trigger] reg.types@[ty as int]->fields@[i]).skip ==> check_spec(
                reg.types@,
                reg.types@[ty as int]->fields@[i].ty as nat,
                b,
                at + reg.types@[ty as int]->fields@[i].offset,
            ) is Ok,
        !reg.types@[ty as int]->fields@[k as int].skip,
        check_spec(
            reg.types@,
            reg.types@[ty as int]->fields@[k as int].ty as nat,
            b,
            at + reg.types@[ty as int]->fields@[k as int].offset,
        ) == Err::<(), CheckError>(e),
    ensures
        check_spec(reg.types@, ty, b, at) == Err::<(), CheckError>(
            struct_error(reg.types@[ty as int]->named, reg.types@[ty as int]->fields@, k as int, e),
        ),
{
    let fs = reg.types@[ty as int]->fields@;
    assert(crate::layout::shape_ok(reg.types@, ty));
    assert(crate::layout::field_ok(reg.types@, ty, reg.types@[ty as int]->Struct_size as nat, 0, fs[k as int]));
    assert forall|i: int|
        0 <= i < k && !fs[i].skip && fs[i].ty < ty implies #[trigger] check_spec(
            reg.types@,
            fs[i].ty as nat,
            b,
            at + fs[i].offset,
        ) is Ok by {
        assert(!fs[i].skip);
    }
    lemma_prefix_passes(reg.types@, ty, fs, b, at, 0, k);
}

/// A struct without fields is always valid, and so is a tagged union whose
/// tag selects a variant without fields.
pub proof fn law_fieldless_is_valid(reg: Registry, ty: nat, b: Seq<u8>, at: int)
    requires
        reg.wf(),
        ty < reg.types@.len(),
        match reg.types@[ty as int] {
            Shape::Prim(_) => false,
            Shape::Struct { fields, .. } => fields@.len() == 0,
            Shape::Enum { tag, variants, .. } => exists|j: int|
                0 <= j < variants@.len() && #[trigger] variants@[j].discriminant == le_value(b, at, tag_width(tag))
                    && variants@[j].fields@.len() == 0,
        },
    ensures
        check_spec(reg.types@, ty, b, at) is Ok,
{
    assert(crate::layout::shape_ok(reg.types@, ty));
    if let Shape::Enum { tag, variants, .. } = reg.types@[ty as int] {
        let j = choose|j: int|
            0 <= j < variants@.len() && #[trigger] variants@[j].discriminant == le_value(b, at, tag_width(tag))
                && variants@[j].fields@.len() == 0;
        lemma_find_unique(variants@, j as nat, 0);
    }
}

/// Determinism: validating the same type on equal bytes gives equal results,
/// down to the error path.
pub proof fn law_deterministic(reg: Registry, ty: nat, b1: Seq<u8>, b2: Seq<u8>, at: int)
    requires
        b1 == b2,
    ensures
        check_spec(reg.types@, ty, b1, at) == check_spec(reg.types@, ty, b2, at),
{
}

/// Skip escape: a struct whose fields that are not skipped all pass is valid,
/// whatever the bytes of its skipped fields hold, even bytes that are
/// invalid for the skipped fields' own types.
pub proof fn law_skipped_fields_unchecked(reg: Registry, ty: nat, b: Seq<u8>, at: int)
    requires
        reg.wf(),
        ty < reg.types@.len(),
        reg.types@[ty as int] is Struct,
        forall|i: int|
            0 <= i < reg.types@[ty as int]->fields@.len() && !(#[trigger] reg.types@[ty as int]->fields@[i]).skip
                ==> check_spec(
                reg.types@,
                reg.types@[ty as int]->fields@[i].ty as nat,
                b,
                at + reg.types@[ty as int]->fields@[i].offset,
            ) is Ok,
    ensures
        check_spec(reg.types@, ty, b, at) is Ok,
{
    let fs = reg.types@[ty as int]->fields@;
    assert forall|i: int|
        0 <= i < fs.len() && !fs[i].skip && fs[i].ty < ty implies #[trigger] check_spec(
            reg.types@,
            fs[i].ty as nat,
            b,
            at + fs[i].offset,
        ) is Ok by {
        assert(!fs[i].skip);
    }
    lemma_prefix_passes(reg.types@, ty, fs, b, at, 0, fs.len());
}

} // verus!
