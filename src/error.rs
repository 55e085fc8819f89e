use vstd::prelude::*;

verus! {

/// A failure in one named field of a struct (or of a struct-like variant).
#[derive(Debug, PartialEq, Eq)]
pub struct StructCheckError {
    pub field_name: String,
    pub inner: Box<CheckError>,
}

/// A failure in one positional field of a tuple struct (or tuple variant).
#[derive(Debug, PartialEq, Eq)]
pub struct TupleStructCheckError {
    pub field_index: usize,
    pub inner: Box<CheckError>,
}

/// Why a byte region does not hold a valid value of its declared type.
///
/// Every nested cause sits behind one `Box`, so the size of an error does not
/// grow with the depth at which the failure was found.
#[derive(Debug, PartialEq, Eq)]
pub enum CheckError {
    /// A `bool` byte that is neither 0 nor 1.
    InvalidBool { value: u8 },
    /// A 32-bit value that is not a Unicode scalar value.
    InvalidChar { value: u32 },
    /// A field of a struct with named fields failed.
    Struct(StructCheckError),
    /// A field of a tuple struct failed.
    Tuple(TupleStructCheckError),
    /// The tag of a tagged union matched no declared discriminant.
    InvalidTag { value: u64 },
    /// A named field of the selected variant failed.
    InvalidStruct { variant_name: String, inner: StructCheckError },
    /// A positional field of the selected variant failed.
    InvalidTuple { variant_name: String, inner: TupleStructCheckError },
}

} // verus!
