//! Reading the `check_bytes` and `repr` attributes of a type declaration and
//! deciding what validator it gets: which error type, which tag
//! representation, and which field types must themselves support validation.
use vstd::prelude::*;

verus! {

/// A literal inside an attribute.
#[derive(Debug, Clone, PartialEq, Eq)]
pub enum Lit {
    Str(String),
    Other,
}

/// One meta item inside an attribute's parentheses: `name`, `name(...)` or
/// `name = lit`.
#[derive(Debug, Clone, PartialEq, Eq)]
pub enum Meta {
    Path(String),
    List(String),
    NameValue { path: String, lit: Lit },
}

/// An entry of an attribute's list: a meta item or a bare literal.
#[derive(Debug, Clone, PartialEq, Eq)]
pub enum NestedMeta {
    Meta(Meta),
    Lit(Lit),
}

/// An attribute on the declaration: whether it is outer (`#[...]`), and, when
/// it has the form `#[path(a, b, ...)]`, its path and entries.
#[derive(Debug, Clone, PartialEq, Eq)]
pub struct Attribute {
    pub outer: bool,
    pub list: Option<(String, Vec<NestedMeta>)>,
}

/// The `repr` options found on the declaration; `int` holds the name of an
/// integer representation such as `u8`.
#[derive(Debug, Clone, PartialEq, Eq)]
pub struct Repr {
    pub rust: bool,
    pub transparent: bool,
    pub packed: bool,
    pub c: bool,
    pub int: Option<String>,
}

/// What the attributes of a declaration ask for.
#[derive(Debug, Clone, PartialEq, Eq)]
pub struct Attributes {
    pub repr: Repr,
    /// Extra where-clause predicates, as written in `bound = "..."`.
    pub bound: Option<String>,
}

/// Why a declaration gets no validator.
#[derive(Debug, Clone, Copy, PartialEq, Eq)]
pub enum DeriveError {
    /// `bound` given twice.
    BoundAlreadySpecified,
    /// `bound = ...` with a literal that is not a string.
    BoundNotString,
    /// An entry of `check_bytes(...)` other than `bound = "..."`.
    UnrecognizedArgument,
    /// A bare literal among the entries of `check_bytes(...)`.
    ParameterNotMeta,
    /// A tagged union declared `repr(Rust)`, `repr(transparent)`,
    /// `repr(packed)` or `repr(C)`.
    EnumReprNotInt,
    /// A tagged union without an integer representation.
    EnumReprMissing,
    /// A union: there is no tag to tell which field is live.
    Union,
}

pub open spec fn no_repr() -> Repr {
    Repr { rust: false, transparent: false, packed: false, c: false, int: None }
}

/// The applying of one `check_bytes` argument.
pub open spec fn apply_check_bytes_arg(attrs: Attributes, m: Meta) -> Result<Attributes, DeriveError> {
    match m {
        Meta::NameValue { path, lit } => if path@ == "bound"@ {
            match lit {
                Lit::Str(s) => if attrs.bound is None {
                    Ok(Attributes { bound: Some(s), ..attrs })
                } else {
                    Err(DeriveError::BoundAlreadySpecified)
                },
                Lit::Other => Err(DeriveError::BoundNotString),
            }
        } else {
            Err(DeriveError::UnrecognizedArgument)
        },
        _ => Err(DeriveError::UnrecognizedArgument),
    }
}

fn is_ident(path: &String, word: &str) -> (r: bool)
    ensures
        r == (path@ == word@),
{
    let w = word.to_owned();
    *path == w
}

/// Records one argument of `#[check_bytes(...)]`: only `bound = "..."` is
/// known, and only once.
pub fn parse_check_bytes_attributes(attributes: &mut Attributes, meta: &Meta) -> (r: Result<(), DeriveError>)
    ensures
        match apply_check_bytes_arg(*old(attributes), *meta) {
            Ok(a) => r is Ok && *final(attributes) == a,
            Err(e) => r == Err::<(), DeriveError>(e) && *final(attributes) == *old(attributes),
        },
{
    match meta {
        Meta::NameValue { path, lit } => {
            if is_ident(path, "bound") {
                match lit {
                    Lit::Str(s) => {
                        if attributes.bound.is_none() {
                            attributes.bound = Some(s.clone());
                            Ok(())
                        } else {
                            Err(DeriveError::BoundAlreadySpecified)
                        }
                    },
                    Lit::Other => Err(DeriveError::BoundNotString),
                }
            } else {
                Err(DeriveError::UnrecognizedArgument)
            }
        },
        _ => Err(DeriveError::UnrecognizedArgument),
    }
}

/// Applies the entries `k..` of a `check_bytes(...)` list, stopping at the
/// first error.
pub open spec fn apply_check_bytes_list(attrs: Attributes, ns: Seq<NestedMeta>, k: nat) -> Result<
    Attributes,
    DeriveError,
>
    decreases ns.len() - k,
{
    if k >= ns.len() {
        Ok(attrs)
    } else {
        match ns[k as int] {
            NestedMeta::Meta(m) => match apply_check_bytes_arg(attrs, m) {
                Ok(a) => apply_check_bytes_list(a, ns, k + 1),
                Err(e) => Err(e),
            },
            NestedMeta::Lit(_) => Err(DeriveError::ParameterNotMeta),
        }
    }
}

/// Records one path entry of `repr(...)`; any name other than `Rust`'s
/// `rust`, `transparent`, `packed` and `C` is an integer representation.
pub open spec fn apply_repr_entry(r: Repr, n: NestedMeta) -> Repr {
    match n {
        NestedMeta::Meta(Meta::Path(p)) => if p@ == "rust"@ {
            Repr { rust: true, ..r }
        } else if p@ == "transparent"@ {
            Repr { transparent: true, ..r }
        } else if p@ == "packed"@ {
            Repr { packed: true, ..r }
        } else if p@ == "C"@ {
            Repr { c: true, ..r }
        } else {
            Repr { int: Some(p), ..r }
        },
        _ => r,
    }
}

/// Applies the entries `k..` of a `repr(...)` list.
pub open spec fn apply_repr_list(r: Repr, ns: Seq<NestedMeta>, k: nat) -> Repr
    decreases ns.len() - k,
{
    if k >= ns.len() {
        r
    } else {
        apply_repr_list(apply_repr_entry(r, ns[k as int]), ns, k + 1)
    }
}

/// Applies one attribute: `#[check_bytes(...)]` and `#[repr(...)]` count,
/// when outer; everything else is ignored.
pub open spec fn apply_attribute(attrs: Attributes, a: Attribute) -> Result<Attributes, DeriveError> {
    if !a.outer {
        Ok(attrs)
    } else {
        match a.list {
            Some((path, ns)) => if path@ == "check_bytes"@ {
                apply_check_bytes_list(attrs, ns@, 0)
            } else if path@ == "repr"@ {
                Ok(Attributes { repr: apply_repr_list(attrs.repr, ns@, 0), ..attrs })
            } else {
                Ok(attrs)
            },
            None => Ok(attrs),
        }
    }
}

/// Applies the attributes `k..` in order, stopping at the first error.
pub open spec fn apply_attributes(attrs: Attributes, xs: Seq<Attribute>, k: nat) -> Result<
    Attributes,
    DeriveError,
>
    decreases xs.len() - k,
{
    if k >= xs.len() {
        Ok(attrs)
    } else {
        match apply_attribute(attrs, xs[k as int]) {
            Ok(a) => apply_attributes(a, xs, k + 1),
            Err(e) => Err(e),
        }
    }
}

/// Applies one attribute of the declaration.
fn parse_attribute(attributes: &mut Attributes, a: &Attribute) -> (r: Result<(), DeriveError>)
    ensures
        match apply_attribute(*old(attributes), *a) {
            Ok(x) => r is Ok && *final(attributes) == x,
            Err(e) => r == Err::<(), DeriveError>(e),
        },
{
    let ghost start = *attributes;
    if a.outer {
        if let Some((path, nested)) = &a.list {
            if is_ident(path, "check_bytes") {
                assert(apply_attribute(start, *a) == apply_check_bytes_list(start, nested@, 0));
                let mut j: usize = 0;
                while j < nested.len()
                    invariant
                        j <= nested@.len(),
                        start == *old(attributes),
                        apply_attribute(start, *a) == apply_check_bytes_list(start, nested@, 0),
                        apply_check_bytes_list(start, nested@, 0)
                            == apply_check_bytes_list(*attributes, nested@, j as nat),
                    decreases nested@.len() - j,
                {
                    match &nested[j] {
                        NestedMeta::Meta(m) => {
                            let r = parse_check_bytes_attributes(attributes, m);
                            if let Err(e) = r {
                                return Err(e);
                            }
                        },
                        NestedMeta::Lit(_) => {
                            return Err(DeriveError::ParameterNotMeta);
                        },
                    }
                    j = j + 1;
                }
            } else if is_ident(path, "repr") {
                assert(apply_attribute(start, *a) == Ok::<Attributes, DeriveError>(
                    Attributes { repr: apply_repr_list(start.repr, nested@, 0), ..start },
                ));
                let mut j: usize = 0;
                while j < nested.len()
                    invariant
                        j <= nested@.len(),
                        apply_attribute(start, *a) == Ok::<Attributes, DeriveError>(
                            Attributes { repr: apply_repr_list(start.repr, nested@, 0), ..start },
                        ),
                        attributes.bound == start.bound,
                        apply_repr_list(start.repr, nested@, 0) == apply_repr_list(
                            attributes.repr,
                            nested@,
                            j as nat,
                        ),
                    decreases nested@.len() - j,
                {
                    if let NestedMeta::Meta(Meta::Path(p)) = &nested[j] {
                        if is_ident(p, "rust") {
                            attributes.repr.rust = true;
                        } else if is_ident(p, "transparent") {
                            attributes.repr.transparent = true;
                        } else if is_ident(p, "packed") {
                            attributes.repr.packed = true;
                        } else if is_ident(p, "C") {
                            attributes.repr.c = true;
                        } else {
                            attributes.repr.int = Some(p.clone());
                        }
                    }
                    j = j + 1;
                }
            }
        }
    }
    Ok(())
}

/// Reads the `check_bytes` and `repr` attributes of a declaration, in order;
/// the first malformed `check_bytes` argument ends the reading with its error.
pub fn parse_attributes(xs: &Vec<Attribute>) -> (r: Result<Attributes, DeriveError>)
    ensures
        r == apply_attributes(Attributes { repr: no_repr(), bound: None }, xs@, 0),
{
    let mut result = Attributes {
        repr: Repr { rust: false, transparent: false, packed: false, c: false, int: None },
        bound: None,
    };
    let mut i: usize = 0;
    while i < xs.len()
        invariant
            i <= xs@.len(),
            apply_attributes(Attributes { repr: no_repr(), bound: None }, xs@, 0)
                == apply_attributes(result, xs@, i as nat),
        decreases xs@.len() - i,
    {
        if let Err(e) = parse_attribute(&mut result, &xs[i]) {
            return Err(e);
        }
        i = i + 1;
    }
    Ok(result)
}

/// A field as declared: its name (empty when positional), its type as
/// written, and whether it carries `#[omit_bounds]`, which exempts its type
/// from having to support validation (this is what lets a type refer to
/// itself through an indirection).
#[derive(Debug, Clone, PartialEq, Eq)]
pub struct FieldDecl {
    pub name: String,
    pub ty: String,
    pub omit_bounds: bool,
}

#[derive(Debug, Clone, PartialEq, Eq)]
pub enum FieldsDecl {
    Named(Vec<FieldDecl>),
    Unnamed(Vec<FieldDecl>),
    Unit,
}

#[derive(Debug, Clone, PartialEq, Eq)]
pub struct VariantDecl {
    pub name: String,
    pub fields: FieldsDecl,
}

#[derive(Debug, Clone, PartialEq, Eq)]
pub enum Data {
    Struct(FieldsDecl),
    Enum(Vec<VariantDecl>),
    Union,
}

/// A type declaration to derive a validator for.
#[derive(Debug, Clone, PartialEq, Eq)]
pub struct DeriveInput {
    pub attrs: Vec<Attribute>,
    pub data: Data,
}

/// The error type of the validator.
#[derive(Debug, Clone, PartialEq, Eq)]
pub enum ErrorType {
    /// Named fields: the failing field's name and cause.
    Struct,
    /// Positional fields: the failing field's index and cause.
    TupleStruct,
    /// No fields: validation cannot fail.
    Infallible,
    /// A tagged union whose tag has the named integer representation.
    Enum(String),
}

/// What the validator of a declaration is made of.
#[derive(Debug, Clone, PartialEq, Eq)]
pub struct Plan {
    pub error: ErrorType,
    /// Extra where-clause predicates given with `bound = "..."`.
    pub bound: Option<String>,
    /// The field types that must themselves support validation, in
    /// declaration order (over all variants, for a tagged union).
    pub field_bounds: Vec<String>,
}

pub open spec fn fields_of(f: FieldsDecl) -> Seq<FieldDecl> {
    match f {
        FieldsDecl::Named(v) => v@,
        FieldsDecl::Unnamed(v) => v@,
        FieldsDecl::Unit => Seq::empty(),
    }
}

/// The types of the fields without `#[omit_bounds]`, in order.
pub open spec fn bounded_types(fs: Seq<FieldDecl>) -> Seq<String>
    decreases fs.len(),
{
    if fs.len() == 0 {
        Seq::empty()
    } else {
        bounded_types(fs.drop_last()) + if fs.last().omit_bounds {
            Seq::<String>::empty()
        } else {
            seq![fs.last().ty]
        }
    }
}

/// The bounded field types of all variants, variant after variant.
pub open spec fn variant_bounded_types(vs: Seq<VariantDecl>) -> Seq<String>
    decreases vs.len(),
{
    if vs.len() == 0 {
        Seq::empty()
    } else {
        variant_bounded_types(vs.drop_last()) + bounded_types(fields_of(vs.last().fields))
    }
}

/// The plan for a declaration, or why it gets none. A tagged union needs an
/// integer representation and none of `Rust`, `transparent`, `packed` or
/// `C`, so that the tag and each variant's fields lie at fixed offsets.
pub open spec fn plan_spec(input: DeriveInput) -> Result<PlanView, DeriveError> {
    match apply_attributes(Attributes { repr: no_repr(), bound: None }, input.attrs@, 0) {
        Err(e) => Err(e),
        Ok(a) => match input.data {
            Data::Struct(f) => match f {
                FieldsDecl::Named(v) => Ok(
                    PlanView { error: ErrorType::Struct, bound: a.bound, field_bounds: bounded_types(v@) },
                ),
                FieldsDecl::Unnamed(v) => Ok(
                    PlanView { error: ErrorType::TupleStruct, bound: a.bound, field_bounds: bounded_types(v@) },
                ),
                FieldsDecl::Unit => Ok(
                    PlanView { error: ErrorType::Infallible, bound: a.bound, field_bounds: Seq::empty() },
                ),
            },
            Data::Enum(vs) => if a.repr.rust || a.repr.transparent || a.repr.packed || a.repr.c {
                Err(DeriveError::EnumReprNotInt)
            } else {
                match a.repr.int {
                    None => Err(DeriveError::EnumReprMissing),
                    Some(r) => Ok(
                        PlanView {
                            error: ErrorType::Enum(r),
                            bound: a.bound,
                            field_bounds: variant_bounded_types(vs@),
                        },
                    ),
                }
            },
            Data::Union => Err(DeriveError::Union),
        },
    }
}

/// The model of a [`Plan`].
pub struct PlanView {
    pub error: ErrorType,
    pub bound: Option<String>,
    pub field_bounds: Seq<String>,
}

impl View for Plan {
    type V = PlanView;

    open spec fn view(&self) -> PlanView {
        PlanView { error: self.error, bound: self.bound, field_bounds: self.field_bounds@ }
    }
}

/// Appends the types of the fields without `#[omit_bounds]`.
fn push_bounded_types(out: &mut Vec<String>, fs: &Vec<FieldDecl>)
    ensures
        final(out)@ == old(out)@ + bounded_types(fs@),
{
    let mut k: usize = 0;
    while k < fs.len()
        invariant
            k <= fs@.len(),
            out@ == old(out)@ + bounded_types(fs@.subrange(0, k as int)),
        decreases fs@.len() - k,
    {
        let ghost before = out@;
        assert(fs@.subrange(0, k as int + 1).drop_last() =~= fs@.subrange(0, k as int));
        if !fs[k].omit_bounds {
            out.push(fs[k].ty.clone());
        }
        k = k + 1;
        assert(out@ =~= old(out)@ + bounded_types(fs@.subrange(0, k as int)));
    }
    assert(fs@.subrange(0, fs@.len() as int) =~= fs@);
}

fn fields_vec(f: &FieldsDecl) -> (r: Option<&Vec<FieldDecl>>)
    ensures
        match r {
            Some(v) => v@ == fields_of(*f),
            None => fields_of(*f).len() == 0,
        },
{
    match f {
        FieldsDecl::Named(v) => Some(v),
        FieldsDecl::Unnamed(v) => Some(v),
        FieldsDecl::Unit => None,
    }
}

/// Decides the validator of a declaration: its error type, the extra bounds
/// asked for with `bound = "..."`, and the field types that must support
/// validation. Fails on malformed `check_bytes` arguments, on unions, and
/// on tagged unions without a fixed integer tag representation.
pub fn derive_check_bytes(input: &DeriveInput) -> (r: Result<Plan, DeriveError>)
    ensures
        match plan_spec(*input) {
            Ok(p) => r matches Ok(q) && q@ == p,
            Err(e) => r == Err::<Plan, DeriveError>(e),
        },
{
    let attributes = match parse_attributes(&input.attrs) {
        Ok(a) => a,
        Err(e) => {
            return Err(e);
        },
    };
    let mut field_bounds: Vec<String> = Vec::new();
    match &input.data {
        Data::Struct(f) => {
            let error = match f {
                FieldsDecl::Named(v) => {
                    push_bounded_types(&mut field_bounds, v);
                    ErrorType::Struct
                },
                FieldsDecl::Unnamed(v) => {
                    push_bounded_types(&mut field_bounds, v);
                    ErrorType::TupleStruct
                },
                FieldsDecl::Unit => ErrorType::Infallible,
            };
            assert(field_bounds@ =~= plan_spec(*input)->Ok_0.field_bounds);
            Ok(Plan { error, bound: attributes.bound, field_bounds })
        },
        Data::Enum(vs) => {
            if attributes.repr.rust || attributes.repr.transparent || attributes.repr.packed
                || attributes.repr.c {
                return Err(DeriveError::EnumReprNotInt);
            }
            let repr = match attributes.repr.int {
                None => {
                    return Err(DeriveError::EnumReprMissing);
                },
                Some(r) => r,
            };
            let mut j: usize = 0;
            while j < vs.len()
                invariant
                    j <= vs@.len(),
                    field_bounds@ == variant_bounded_types(vs@.subrange(0, j as int)),
                decreases vs@.len() - j,
            {
                assert(vs@.subrange(0, j as int + 1).drop_last() =~= vs@.subrange(0, j as int));
                if let Some(v) = fields_vec(&vs[j].fields) {
                    push_bounded_types(&mut field_bounds, v);
                } else {
                    assert(bounded_types(fields_of(vs@[j as int].fields)) =~= Seq::<String>::empty());
                }
                j = j + 1;
                assert(field_bounds@ =~= variant_bounded_types(vs@.subrange(0, j as int)));
            }
            assert(vs@.subrange(0, vs@.len() as int) =~= vs@);
            Ok(Plan { error: ErrorType::Enum(repr), bound: attributes.bound, field_bounds })
        },
        Data::Union => Err(DeriveError::Union),
    }
}

} // verus!
