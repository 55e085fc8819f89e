use vstd::prelude::*;
use crate::error::{CheckError, StructCheckError, TupleStructCheckError};
use crate::layout::{
    Field, Prim, Registry, Shape, TagRepr, Variant, field_ok, pow256, prim_size, shape_ok,
    shape_size, tag_width,
};

verus! {

/// The unsigned little-endian integer held by the `n` bytes at `at`.
pub open spec fn le_value(b: Seq<u8>, at: int, n: nat) -> nat
    decreases n,
{
    if n == 0 {
        0
    } else {
        b[at] as nat + 256 * le_value(b, at + 1, (n - 1) as nat)
    }
}

/// A Unicode scalar value: below the surrogates, or above them up to 0x10FFFF.
pub open spec fn is_scalar(v: u32) -> bool {
    v < 0xD800 || (0xE000 <= v && v <= 0x10FFFF)
}

/// Validation of a primitive leaf. Integers accept every bit pattern.
pub open spec fn check_prim(p: Prim, b: Seq<u8>, at: int) -> Result<(), CheckError> {
    match p {
        Prim::Bool => if b[at] <= 1 {
            Ok(())
        } else {
            Err(CheckError::InvalidBool { value: b[at] })
        },
        Prim::Char => {
            let v = le_value(b, at, 4) as u32;
            if is_scalar(v) {
                Ok(())
            } else {
                Err(CheckError::InvalidChar { value: v })
            }
        },
        _ => Ok(()),
    }
}

/// The index of the first variant, from `k` on, whose discriminant is `tag`.
pub open spec fn find_variant(vs: Seq<Variant>, tag: nat, k: nat) -> Option<nat>
    decreases vs.len() - k,
{
    if k >= vs.len() {
        None
    } else if vs[k as int].discriminant == tag {
        Some(k)
    } else {
        find_variant(vs, tag, k + 1)
    }
}

/// Wraps the failure of field `k` of a struct.
pub open spec fn struct_error(named: bool, fs: Seq<Field>, k: int, e: CheckError) -> CheckError {
    if named {
        CheckError::Struct(StructCheckError { field_name: fs[k].name, inner: Box::new(e) })
    } else {
        CheckError::Tuple(TupleStructCheckError { field_index: k as usize, inner: Box::new(e) })
    }
}

/// Wraps the failure of field `k` of variant `v`.
pub open spec fn variant_error(v: Variant, k: int, e: CheckError) -> CheckError {
    if v.named {
        CheckError::InvalidStruct {
            variant_name: v.name,
            inner: StructCheckError { field_name: v.fields@[k].name, inner: Box::new(e) },
        }
    } else {
        CheckError::InvalidTuple {
            variant_name: v.name,
            inner: TupleStructCheckError { field_index: k as usize, inner: Box::new(e) },
        }
    }
}

/// Whether the bytes at `at` hold a valid value of type `ty`, and if not, why.
pub open spec fn check_spec(types: Seq<Shape>, ty: nat, b: Seq<u8>, at: int) -> Result<
    (),
    CheckError,
>
    decreases ty, 1nat, 0nat,
{
    if ty >= types.len() {
        Ok(())
    } else {
        match types[ty as int] {
            Shape::Prim(p) => check_prim(p, b, at),
            Shape::Struct { named, fields, .. } => match first_failure(types, ty, fields@, b, at, 0) {
                None => Ok(()),
                Some((k, e)) => Err(struct_error(named, fields@, k, e)),
            },
            Shape::Enum { tag, variants, .. } => {
                let t = le_value(b, at, tag_width(tag));
                match find_variant(variants@, t, 0) {
                    None => Err(CheckError::InvalidTag { value: t as u64 }),
                    Some(j) => {
                        let v = variants@[j as int];
                        match first_failure(types, ty, v.fields@, b, at, 0) {
                            None => Ok(()),
                            Some((k, e)) => Err(variant_error(v, k, e)),
                        }
                    },
                }
            },
        }
    }
}

/// The first field, from `k` on, that is not skipped and fails, with its error.
/// Field types at or after `owner` are never entered.
pub open spec fn first_failure(
    types: Seq<Shape>,
    owner: nat,
    fs: Seq<Field>,
    b: Seq<u8>,
    at: int,
    k: nat,
) -> Option<(int, CheckError)>
    decreases owner, 0nat, fs.len() - k,
{
    if k >= fs.len() {
        None
    } else {
        let f = fs[k as int];
        if !f.skip && f.ty < owner {
            match check_spec(types, f.ty as nat, b, at + f.offset) {
                Err(e) => Some((k as int, e)),
                Ok(_) => first_failure(types, owner, fs, b, at, k + 1),
            }
        } else {
            first_failure(types, owner, fs, b, at, k + 1)
        }
    }
}

proof fn lemma_le_bound(b: Seq<u8>, at: int, n: nat)
    ensures
        le_value(b, at, n) < pow256(n),
    decreases n,
{
    if n > 0 {
        lemma_le_bound(b, at + 1, (n - 1) as nat);
        let r = le_value(b, at + 1, (n - 1) as nat);
        let p = pow256((n - 1) as nat);
        let x = b[at] as nat;
        assert(x + 256 * r < 256 * p) by (nonlinear_arith)
            requires
                r < p,
                x < 256,
        ;
    }
}

/// Reads the `n`-byte little-endian unsigned integer at `at`.
fn read_le(bytes: &[u8], at: usize, n: usize) -> (r: u64)
    requires
        n <= 8,
        at + n <= bytes@.len(),
    ensures
        r as nat == le_value(bytes@, at as int, n as nat),
{
    proof {
        reveal_with_fuel(pow256, 9);
    }
    let len = bytes.len();
    let mut v: u64 = 0;
    let mut i: usize = n;
    while i > 0
        invariant
            i <= n <= 8,
            at + n <= bytes@.len(),
            len == bytes@.len(),
            v as nat == le_value(bytes@, at + i, (n - i) as nat),
            pow256(7) == 0x100_0000_0000_0000,
        decreases i,
    {
        i = i - 1;
        proof {
            lemma_le_bound(bytes@, at + i + 1, (n - i - 1) as nat);
            lemma_pow256_mono((n - i - 1) as nat, 7);
        }
        let x = bytes[at + i];
        assert(x as nat + 256 * (v as nat) < 0x1_0000_0000_0000_0000) by (nonlinear_arith)
            requires
                v < pow256((n - i - 1) as nat),
                pow256((n - i - 1) as nat) <= pow256(7),
                pow256(7) == 0x100_0000_0000_0000,
                x < 256,
        ;
        v = x as u64 + 256 * v;
    }
    v
}

proof fn lemma_pow256_mono(a: nat, b: nat)
    requires
        a <= b,
    ensures
        pow256(a) <= pow256(b),
        pow256(a) >= 1,
    decreases b,
{
    if b > a {
        lemma_pow256_mono(a, (b - 1) as nat);
    } else if a > 0 {
        lemma_pow256_mono((a - 1) as nat, (a - 1) as nat);
    }
}

fn tag_bytes(t: TagRepr) -> (r: usize)
    ensures
        r as nat == tag_width(t),
        r <= 8,
{
    match t {
        TagRepr::U8 => 1,
        TagRepr::U16 => 2,
        TagRepr::U32 => 4,
        TagRepr::U64 => 8,
    }
}

/// Validates a primitive leaf at `at`.
fn check_prim_bytes(p: Prim, bytes: &[u8], at: usize) -> (r: Result<(), CheckError>)
    requires
        at + prim_size(p) <= bytes@.len(),
    ensures
        r == check_prim(p, bytes@, at as int),
{
    match p {
        Prim::Bool => {
            let x = bytes[at];
            if x <= 1 {
                Ok(())
            } else {
                Err(CheckError::InvalidBool { value: x })
            }
        },
        Prim::Char => {
            let v = read_le(bytes, at, 4) as u32;
            if v < 0xD800 || (0xE000 <= v && v <= 0x10FFFF) {
                Ok(())
            } else {
                Err(CheckError::InvalidChar { value: v })
            }
        },
        _ => Ok(()),
    }
}

/// Validates the bytes at `at` as a value of type `ty` of `reg`.
///
/// Fields are checked in declaration order at their offsets, skipped fields
/// are never entered, and the first failure is returned wrapped with the
/// field (and variant) that led to it. A tagged union reads only its tag
/// before it knows the variant; an unknown tag ends the check at once.
///
/// The region is only read. The caller provides at least the type's size in
/// bytes from `at`.
pub fn check_bytes(reg: &Registry, ty: usize, bytes: &[u8], at: usize) -> (r: Result<(), CheckError>)
    requires
        reg.wf(),
        ty < reg.types@.len(),
        at + shape_size(reg.types@[ty as int]) <= bytes@.len(),
    ensures
        r == check_spec(reg.types@, ty as nat, bytes@, at as int),
    decreases ty, 1nat,
{
    assert(shape_ok(reg.types@, ty as nat));
    match &reg.types[ty] {
        Shape::Prim(p) => {
            check_prim_bytes(*p, bytes, at)
        },
        Shape::Struct { named, fields, size } => {
            match check_fields(reg, ty, fields, *size, 0, bytes, at) {
                Ok(()) => Ok(()),
                Err((k, e)) => {
                    if *named {
                        Err(
                            CheckError::Struct(
                                StructCheckError { field_name: fields[k].name.clone(), inner: Box::new(e) },
                            ),
                        )
                    } else {
                        Err(CheckError::Tuple(TupleStructCheckError { field_index: k, inner: Box::new(e) }))
                    }
                },
            }
        },
        Shape::Enum { tag, variants, size } => {
            let w = tag_bytes(*tag);
            let t = read_le(bytes, at, w);
            let mut j: usize = 0;
            while j < variants.len() && variants[j].discriminant != t
                invariant
                    j <= variants@.len(),
                    find_variant(variants@, t as nat, 0) == find_variant(variants@, t as nat, j as nat),
                decreases variants@.len() - j,
            {
                j = j + 1;
            }
            if j == variants.len() {
                return Err(CheckError::InvalidTag { value: t });
            }
            let v = &variants[j];
            assert(crate::layout::variant_ok(reg.types@, ty as nat, *tag, *size as nat, variants@[j as int]));
            match check_fields(reg, ty, &v.fields, *size, w, bytes, at) {
                Ok(()) => Ok(()),
                Err((k, e)) => {
                    if v.named {
                        Err(
                            CheckError::InvalidStruct {
                                variant_name: v.name.clone(),
                                inner: StructCheckError { field_name: v.fields[k].name.clone(), inner: Box::new(e) },
                            },
                        )
                    } else {
                        Err(
                            CheckError::InvalidTuple {
                                variant_name: v.name.clone(),
                                inner: TupleStructCheckError { field_index: k, inner: Box::new(e) },
                            },
                        )
                    }
                },
            }
        },
    }
}

/// Validates, in order, the fields of type `owner` that are not skipped;
/// returns the index and error of the first that fails.
fn check_fields(
    reg: &Registry,
    owner: usize,
    fields: &Vec<Field>,
    size: usize,
    min_offset: usize,
    bytes: &[u8],
    at: usize,
) -> (r: Result<(), (usize, CheckError)>)
    requires
        reg.wf(),
        owner < reg.types@.len(),
        at + size <= bytes@.len(),
        crate::layout::fields_ok(reg.types@, owner as nat, size as nat, min_offset as nat, fields@),
    ensures
        r is Ok <==> first_failure(reg.types@, owner as nat, fields@, bytes@, at as int, 0) is None,
        r matches Err((k, e)) ==> k < fields@.len() && first_failure(reg.types@, owner as nat, fields@, bytes@, at as int, 0)
            == Some((k as int, e)),
    decreases owner, 0nat,
{
    let len = bytes.len();
    let mut k: usize = 0;
    while k < fields.len()
        invariant
            k <= fields@.len(),
            len == bytes@.len(),
            reg.wf(),
            owner < reg.types@.len(),
            at + size <= bytes@.len(),
            crate::layout::fields_ok(reg.types@, owner as nat, size as nat, min_offset as nat, fields@),
            first_failure(reg.types@, owner as nat, fields@, bytes@, at as int, 0)
                == first_failure(reg.types@, owner as nat, fields@, bytes@, at as int, k as nat),
        decreases fields@.len() - k,
    {
        let f = &fields[k];
        assert(field_ok(reg.types@, owner as nat, size as nat, min_offset as nat, fields@[k as int]));
        if !f.skip {
            match check_bytes(reg, f.ty, bytes, at + f.offset) {
                Err(e) => {
                    return Err((k, e));
                },
                Ok(()) => {},
            }
        }
        k = k + 1;
    }
    Ok(())
}

} // verus!
