use vstd::prelude::*;

verus! {

/// A primitive leaf type.
#[derive(Debug, Clone, Copy, PartialEq, Eq)]
pub enum Prim {
    U8,
    U16,
    U32,
    U64,
    Bool,
    Char,
}

/// The integer type that stores the tag of a tagged union (unsigned, little-endian).
#[derive(Debug, Clone, Copy, PartialEq, Eq)]
pub enum TagRepr {
    U8,
    U16,
    U32,
    U64,
}

/// One field of a struct or variant: its name (empty for positional fields),
/// the index of its type in the registry, its byte offset from the start of
/// the enclosing value, and whether its own validation is skipped.
#[derive(Debug, Clone)]
pub struct Field {
    pub name: String,
    pub ty: usize,
    pub offset: usize,
    pub skip: bool,
}

/// One variant of a tagged union. Its field offsets are those of the
/// variant's overlay: measured from the start of the union, with the tag first.
#[derive(Debug, Clone)]
pub struct Variant {
    pub name: String,
    pub discriminant: u64,
    pub named: bool,
    pub fields: Vec<Field>,
}

/// The shape of one type.
#[derive(Debug, Clone)]
pub enum Shape {
    Prim(Prim),
    /// A struct; `named` tells named fields from positional ones. With no
    /// fields it is a unit or empty struct.
    Struct { named: bool, fields: Vec<Field>, size: usize },
    /// A tagged union whose tag is stored at offset 0.
    Enum { tag: TagRepr, variants: Vec<Variant>, size: usize },
}

/// A family of type descriptions; fields refer to their types by index.
#[derive(Debug, Clone)]
pub struct Registry {
    pub types: Vec<Shape>,
}

pub open spec fn prim_size(p: Prim) -> nat {
    match p {
        Prim::U8 => 1,
        Prim::U16 => 2,
        Prim::U32 => 4,
        Prim::U64 => 8,
        Prim::Bool => 1,
        Prim::Char => 4,
    }
}

pub open spec fn tag_width(t: TagRepr) -> nat {
    match t {
        TagRepr::U8 => 1,
        TagRepr::U16 => 2,
        TagRepr::U32 => 4,
        TagRepr::U64 => 8,
    }
}

pub open spec fn pow256(n: nat) -> nat
    decreases n,
{
    if n == 0 {
        1
    } else {
        256 * pow256((n - 1) as nat)
    }
}

/// The number of bytes a value of the shape occupies.
pub open spec fn shape_size(s: Shape) -> nat {
    match s {
        Shape::Prim(p) => prim_size(p),
        Shape::Struct { size, .. } => size as nat,
        Shape::Enum { size, .. } => size as nat,
    }
}

/// A field of type `owner` is well placed: its type exists; unless it is
/// skipped, its type comes earlier in the registry (so validation recurses
/// on strictly smaller indices) and its bytes lie within `[min_offset, size)`.
pub open spec fn field_ok(types: Seq<Shape>, owner: nat, size: nat, min_offset: nat, f: Field) -> bool {
    &&& f.ty < types.len()
    &&& !f.skip ==> {
        &&& f.ty < owner
        &&& min_offset <= f.offset
        &&& f.offset + shape_size(types[f.ty as int]) <= size
    }
}

pub open spec fn fields_ok(types: Seq<Shape>, owner: nat, size: nat, min_offset: nat, fs: Seq<Field>) -> bool {
    forall|k: int| 0 <= k < fs.len() ==> field_ok(types, owner, size, min_offset, #[trigger] fs[k])
}

/// The discriminants of the variants are pairwise distinct.
pub open spec fn discriminants_unique(vs: Seq<Variant>) -> bool {
    forall|j: int, k: int|
        0 <= j < vs.len() && 0 <= k < vs.len() && j != k ==> #[trigger] vs[j].discriminant
            != #[trigger] vs[k].discriminant
}

pub open spec fn variant_ok(types: Seq<Shape>, owner: nat, tag: TagRepr, size: nat, v: Variant) -> bool {
    &&& v.discriminant < pow256(tag_width(tag))
    &&& fields_ok(types, owner, size, tag_width(tag), v.fields@)
}

/// The description of type `i` is consistent.
pub open spec fn shape_ok(types: Seq<Shape>, i: nat) -> bool {
    match types[i as int] {
        Shape::Prim(_) => true,
        Shape::Struct { fields, size, .. } => fields_ok(types, i, size as nat, 0, fields@),
        Shape::Enum { tag, variants, size } => {
            &&& tag_width(tag) <= size
            &&& discriminants_unique(variants@)
            &&& forall|k: int|
                0 <= k < variants@.len() ==> variant_ok(
                    types,
                    i,
                    tag,
                    size as nat,
                    #[trigger] variants@[k],
                )
        },
    }
}

impl Registry {
    pub open spec fn wf(&self) -> bool {
        forall|i: nat| i < self.types@.len() ==> #[trigger] shape_ok(self.types@, i)
    }
}

/// The size in bytes of a shape.
pub fn size_of(s: &Shape) -> (r: usize)
    ensures
        r as nat == shape_size(*s),
{
    match s {
        Shape::Prim(p) => match p {
            Prim::U8 | Prim::Bool => 1,
            Prim::U16 => 2,
            Prim::U32 | Prim::Char => 4,
            Prim::U64 => 8,
        },
        Shape::Struct { size, .. } => *size,
        Shape::Enum { size, .. } => *size,
    }
}

fn check_field(types: &Vec<Shape>, owner: usize, size: usize, min_offset: usize, f: &Field) -> (r: bool)
    ensures
        r == field_ok(types@, owner as nat, size as nat, min_offset as nat, *f),
{
    if f.ty >= types.len() {
        return false;
    }
    if f.skip {
        return true;
    }
    let sz = size_of(&types[f.ty]);
    f.ty < owner && min_offset <= f.offset && sz <= size && f.offset <= size - sz
}

fn check_fields(types: &Vec<Shape>, owner: usize, size: usize, min_offset: usize, fs: &Vec<Field>) -> (r: bool)
    ensures
        r == fields_ok(types@, owner as nat, size as nat, min_offset as nat, fs@),
{
    let mut k: usize = 0;
    while k < fs.len()
        invariant
            k <= fs@.len(),
            forall|i: int| 0 <= i < k ==> field_ok(types@, owner as nat, size as nat, min_offset as nat, #[trigger] fs@[i]),
        decreases fs@.len() - k,
    {
        if !check_field(types, owner, size, min_offset, &fs[k]) {
            return false;
        }
        k = k + 1;
    }
    true
}

fn fits_tag(t: TagRepr, d: u64) -> (r: bool)
    ensures
        r == (d < pow256(tag_width(t))),
{
    proof {
        reveal_with_fuel(pow256, 9);
    }
    match t {
        TagRepr::U8 => d < 0x100,
        TagRepr::U16 => d < 0x1_0000,
        TagRepr::U32 => d < 0x1_0000_0000,
        TagRepr::U64 => true,
    }
}

fn check_unique(vs: &Vec<Variant>) -> (r: bool)
    ensures
        r == discriminants_unique(vs@),
{
    let mut j: usize = 0;
    while j < vs.len()
        invariant
            j <= vs@.len(),
            forall|a: int, b: int|
                0 <= a < j && 0 <= b < vs@.len() && a != b ==> #[trigger] vs@[a].discriminant
                    != #[trigger] vs@[b].discriminant,
        decreases vs@.len() - j,
    {
        let mut k: usize = 0;
        while k < vs.len()
            invariant
                j < vs@.len(),
                k <= vs@.len(),
                forall|a: int, b: int|
                    0 <= a < j && 0 <= b < vs@.len() && a != b ==> #[trigger] vs@[a].discriminant
                        != #[trigger] vs@[b].discriminant,
                forall|b: int| 0 <= b < k && b != j ==> vs@[j as int].discriminant != #[trigger] vs@[b].discriminant,
            decreases vs@.len() - k,
        {
            if k != j && vs[k].discriminant == vs[j].discriminant {
                return false;
            }
            k = k + 1;
        }
        j = j + 1;
    }
    true
}

fn check_shape(types: &Vec<Shape>, i: usize) -> (r: bool)
    requires
        i < types@.len(),
    ensures
        r == shape_ok(types@, i as nat),
{
    match &types[i] {
        Shape::Prim(_) => true,
        Shape::Struct { fields, size, .. } => check_fields(types, i, *size, 0, fields),
        Shape::Enum { tag, variants, size } => {
            let w: usize = match tag {
                TagRepr::U8 => 1,
                TagRepr::U16 => 2,
                TagRepr::U32 => 4,
                TagRepr::U64 => 8,
            };
            if w > *size || !check_unique(variants) {
                return false;
            }
            let mut k: usize = 0;
            while k < variants.len()
                invariant
                    k <= variants@.len(),
                    w as nat == tag_width(*tag),
                    i < types@.len(),
                    types@[i as int] == (Shape::Enum { tag: *tag, variants: *variants, size: *size }),
                    forall|j: int|
                        0 <= j < k ==> variant_ok(types@, i as nat, *tag, *size as nat, #[trigger] variants@[j]),
                decreases variants@.len() - k,
            {
                let v = &variants[k];
                if !fits_tag(*tag, v.discriminant) || !check_fields(types, i, *size, w, &v.fields) {
                    assert(!variant_ok(types@, i as nat, *tag, *size as nat, variants@[k as int]));
                    return false;
                }
                k = k + 1;
            }
            true
        },
    }
}

impl Registry {
    /// Whether the descriptions are consistent: every field's type exists;
    /// every field that is validated has a type earlier in the registry and
    /// lies within its parent (after the tag, in a variant); every tagged
    /// union is at least as large as its tag, and its discriminants are
    /// distinct and fit in the tag. Only a consistent registry can be used
    /// to validate bytes.
    pub fn check_layout(&self) -> (r: bool)
        ensures
            r == self.wf(),
    {
        let mut i: usize = 0;
        while i < self.types.len()
            invariant
                i <= self.types@.len(),
                forall|j: nat| j < i ==> #[trigger] shape_ok(self.types@, j),
            decreases self.types@.len() - i,
        {
            if !check_shape(&self.types, i) {
                return false;
            }
            i = i + 1;
        }
        true
    }
}

} // verus!
