use bytecheck_derive::check::check_bytes;
use bytecheck_derive::error::{CheckError, StructCheckError, TupleStructCheckError};
use bytecheck_derive::layout::{Field, Prim, Registry, Shape, TagRepr, Variant};

const U32: usize = 0;
const BOOL: usize = 1;
const CHAR: usize = 2;
const POINT: usize = 3;
const UNION: usize = 4;
const OUTER: usize = 5;
const NODE: usize = 6;
const TRIPLE: usize = 7;
const SMALL: usize = 8;
const EMPTY: usize = 9;

fn field(name: &str, ty: usize, offset: usize) -> Field {
    Field { name: name.to_string(), ty, offset, skip: false }
}

fn registry() -> Registry {
    Registry {
        types: vec![
            Shape::Prim(Prim::U32),
            Shape::Prim(Prim::Bool),
            Shape::Prim(Prim::Char),
            Shape::Struct { named: true, fields: vec![field("x", U32, 0), field("y", U32, 4)], size: 8 },
            Shape::Enum {
                tag: TagRepr::U32,
                variants: vec![
                    Variant { name: "A".to_string(), discriminant: 0, named: true, fields: vec![field("flag", BOOL, 4)] },
                    Variant { name: "B".to_string(), discriminant: 1, named: true, fields: vec![] },
                ],
                size: 8,
            },
            Shape::Struct { named: true, fields: vec![field("a", POINT, 0), field("b", UNION, 8)], size: 16 },
            Shape::Struct {
                named: true,
                fields: vec![
                    field("value", U32, 0),
                    Field { name: "next".to_string(), ty: NODE, offset: 8, skip: true },
                ],
                size: 16,
            },
            Shape::Struct {
                named: false,
                fields: vec![field("", BOOL, 0), field("", CHAR, 4), field("", BOOL, 8)],
                size: 12,
            },
            Shape::Enum {
                tag: TagRepr::U8,
                variants: vec![Variant {
                    name: "V".to_string(),
                    discriminant: 5,
                    named: false,
                    fields: vec![field("", CHAR, 4)],
                }],
                size: 8,
            },
            Shape::Struct { named: true, fields: vec![], size: 0 },
        ],
    }
}

fn boxed(e: CheckError) -> Box<CheckError> {
    Box::new(e)
}

#[test]
fn registry_is_consistent() {
    assert!(registry().check_layout());
}

#[test]
fn tag_zero_selects_variant_a() {
    let reg = registry();
    let b = [0u8, 0, 0, 0, 1, 0, 0, 0];
    assert_eq!(check_bytes(&reg, UNION, &b, 0), Ok(()));
}

#[test]
fn unknown_tag_is_reported_with_its_value() {
    let reg = registry();
    let b = [2u8, 0, 0, 0, 0, 0, 0, 0];
    assert_eq!(check_bytes(&reg, UNION, &b, 0), Err(CheckError::InvalidTag { value: 2 }));
}

#[test]
fn unknown_tag_never_reads_payload() {
    let reg = registry();
    // The byte at offset 4 would be an invalid `bool` for variant A.
    let b = [7u8, 0, 0, 0, 9, 9, 9, 9];
    assert_eq!(check_bytes(&reg, UNION, &b, 0), Err(CheckError::InvalidTag { value: 7 }));
    let big = [0u8, 0, 0, 0x80, 9, 9, 9, 9];
    assert_eq!(check_bytes(&reg, UNION, &big, 0), Err(CheckError::InvalidTag { value: 0x8000_0000 }));
}

#[test]
fn plain_point_accepts_any_bytes() {
    let reg = registry();
    let b = [0xFFu8, 0x12, 0x00, 0x80, 0xDE, 0xAD, 0xBE, 0xEF];
    assert_eq!(check_bytes(&reg, POINT, &b, 0), Ok(()));
}

#[test]
fn nested_unknown_tag_names_the_field() {
    let reg = registry();
    let mut b = [0u8; 16];
    b[8] = 3;
    let expected = CheckError::Struct(StructCheckError {
        field_name: "b".to_string(),
        inner: boxed(CheckError::InvalidTag { value: 3 }),
    });
    assert_eq!(check_bytes(&reg, OUTER, &b, 0), Err(expected));
}

#[test]
fn skipped_self_reference_is_not_checked() {
    let reg = registry();
    let b = [1u8, 2, 3, 4, 0, 0, 0, 0, 0xFF, 0xFF, 0xFF, 0xFF, 0xFF, 0xFF, 0xFF, 0xFF];
    assert_eq!(check_bytes(&reg, NODE, &b, 0), Ok(()));
}

#[test]
fn first_failing_field_wins() {
    let reg = registry();
    // Field 1 is a surrogate, field 2 a bad bool.
    let both = [1u8, 0, 0, 0, 0x00, 0xD8, 0, 0, 2, 0, 0, 0];
    let expected = CheckError::Tuple(TupleStructCheckError {
        field_index: 1,
        inner: boxed(CheckError::InvalidChar { value: 0xD800 }),
    });
    assert_eq!(check_bytes(&reg, TRIPLE, &both, 0), Err(expected));
    let only_last = [1u8, 0, 0, 0, 0x41, 0, 0, 0, 2, 0, 0, 0];
    let expected_last = CheckError::Tuple(TupleStructCheckError {
        field_index: 2,
        inner: boxed(CheckError::InvalidBool { value: 2 }),
    });
    assert_eq!(check_bytes(&reg, TRIPLE, &only_last, 0), Err(expected_last));
    let first = [3u8, 0, 0, 0, 0x00, 0xD8, 0, 0, 2, 0, 0, 0];
    let expected_first = CheckError::Tuple(TupleStructCheckError {
        field_index: 0,
        inner: boxed(CheckError::InvalidBool { value: 3 }),
    });
    assert_eq!(check_bytes(&reg, TRIPLE, &first, 0), Err(expected_first));
}

#[test]
fn validation_is_deterministic() {
    let reg = registry();
    let b = [1u8, 0, 0, 0, 0x00, 0xD8, 0, 0, 2, 0, 0, 0];
    assert_eq!(check_bytes(&reg, TRIPLE, &b, 0), check_bytes(&reg, TRIPLE, &b, 0));
    let ok = [0u8, 0, 0, 0, 0, 0, 0, 0];
    assert_eq!(check_bytes(&reg, UNION, &ok, 0), check_bytes(&reg, UNION, &ok, 0));
}

#[test]
fn fieldless_variant_and_empty_struct_are_valid() {
    let reg = registry();
    let b = [1u8, 0, 0, 0, 0xAA, 0xBB, 0xCC, 0xDD];
    assert_eq!(check_bytes(&reg, UNION, &b, 0), Ok(()));
    let none: [u8; 0] = [];
    assert_eq!(check_bytes(&reg, EMPTY, &none, 0), Ok(()));
}

#[test]
fn invalid_field_of_named_variant() {
    let reg = registry();
    let b = [0u8, 0, 0, 0, 2, 0, 0, 0];
    let expected = CheckError::InvalidStruct {
        variant_name: "A".to_string(),
        inner: StructCheckError { field_name: "flag".to_string(), inner: boxed(CheckError::InvalidBool { value: 2 }) },
    };
    assert_eq!(check_bytes(&reg, UNION, &b, 0), Err(expected));
}

#[test]
fn invalid_field_of_tuple_variant() {
    let reg = registry();
    let b = [5u8, 0, 0, 0, 0x00, 0x00, 0x11, 0x00];
    let expected = CheckError::InvalidTuple {
        variant_name: "V".to_string(),
        inner: TupleStructCheckError { field_index: 0, inner: boxed(CheckError::InvalidChar { value: 0x11_0000 }) },
    };
    assert_eq!(check_bytes(&reg, SMALL, &b, 0), Err(expected));
    let ok = [5u8, 0xEE, 0xEE, 0xEE, 0xFF, 0xFF, 0x10, 0x00];
    assert_eq!(check_bytes(&reg, SMALL, &ok, 0), Ok(()));
}

#[test]
fn char_boundaries() {
    let reg = registry();
    let ok = [0xFFu8, 0xD7, 0, 0];
    assert_eq!(check_bytes(&reg, CHAR, &ok, 0), Ok(()));
    let ok2 = [0x00u8, 0xE0, 0, 0];
    assert_eq!(check_bytes(&reg, CHAR, &ok2, 0), Ok(()));
    let bad = [0xFFu8, 0xDF, 0, 0];
    assert_eq!(check_bytes(&reg, CHAR, &bad, 0), Err(CheckError::InvalidChar { value: 0xDFFF }));
}

#[test]
fn bool_accepts_zero_and_one_only() {
    let reg = registry();
    assert_eq!(check_bytes(&reg, BOOL, &[0u8], 0), Ok(()));
    assert_eq!(check_bytes(&reg, BOOL, &[1u8], 0), Ok(()));
    assert_eq!(check_bytes(&reg, BOOL, &[0xFFu8], 0), Err(CheckError::InvalidBool { value: 0xFF }));
}

#[test]
fn validates_at_an_offset() {
    let reg = registry();
    let b = [9u8, 9, 9, 1, 0, 0, 0, 0xAB, 0xAB, 0xAB, 0xAB];
    assert_eq!(check_bytes(&reg, UNION, &b, 3), Ok(()));
}

#[test]
fn layout_rejects_duplicate_discriminants() {
    let mut reg = registry();
    reg.types[UNION] = Shape::Enum {
        tag: TagRepr::U32,
        variants: vec![
            Variant { name: "A".to_string(), discriminant: 1, named: true, fields: vec![] },
            Variant { name: "B".to_string(), discriminant: 1, named: true, fields: vec![] },
        ],
        size: 4,
    };
    assert!(!reg.check_layout());
}

#[test]
fn layout_rejects_discriminant_wider_than_tag() {
    let mut reg = registry();
    reg.types[SMALL] = Shape::Enum {
        tag: TagRepr::U8,
        variants: vec![Variant { name: "V".to_string(), discriminant: 256, named: false, fields: vec![] }],
        size: 1,
    };
    assert!(!reg.check_layout());
}

#[test]
fn layout_rejects_unskipped_self_reference() {
    let mut reg = registry();
    reg.types[NODE] = Shape::Struct {
        named: true,
        fields: vec![field("value", U32, 0), field("next", NODE, 8)],
        size: 16,
    };
    assert!(!reg.check_layout());
}

#[test]
fn layout_rejects_field_past_the_end() {
    let mut reg = registry();
    reg.types[POINT] = Shape::Struct { named: true, fields: vec![field("x", U32, 0), field("y", U32, 6)], size: 8 };
    assert!(!reg.check_layout());
}

#[test]
fn layout_rejects_payload_over_the_tag() {
    let mut reg = registry();
    reg.types[SMALL] = Shape::Enum {
        tag: TagRepr::U32,
        variants: vec![Variant { name: "V".to_string(), discriminant: 5, named: false, fields: vec![field("", CHAR, 2)] }],
        size: 8,
    };
    assert!(!reg.check_layout());
}

#[test]
fn layout_rejects_missing_type() {
    let mut reg = registry();
    reg.types[POINT] = Shape::Struct { named: true, fields: vec![field("x", 42, 0)], size: 8 };
    assert!(!reg.check_layout());
}

#[test]
fn written_value_validates_and_reads_back() {
    let reg = registry();
    let x: u32 = 7;
    let y: u32 = 0xFFFF_FFFF;
    let mut b = Vec::new();
    b.extend_from_slice(&x.to_le_bytes());
    b.extend_from_slice(&y.to_le_bytes());
    b.extend_from_slice(&0u32.to_le_bytes());
    b.push(true as u8);
    b.extend_from_slice(&[0, 0, 0]);
    assert_eq!(check_bytes(&reg, OUTER, &b, 0), Ok(()));
    assert_eq!(u32::from_le_bytes([b[0], b[1], b[2], b[3]]), x);
    assert_eq!(u32::from_le_bytes([b[4], b[5], b[6], b[7]]), y);
    assert_eq!(b[12], 1);
}
