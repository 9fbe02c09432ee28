use ln_build::dispatch::{layer_norm_internal_type, round_multiple, ElementType};
use ln_build::errors::Error;

#[test]
fn pad_up_to_next_multiple() {
    assert_eq!(round_multiple(5, 8), 8);
}

#[test]
fn pad_keeps_exact_multiple() {
    assert_eq!(round_multiple(8, 8), 8);
}

#[test]
fn pad_crosses_multiple_boundary() {
    assert_eq!(round_multiple(9, 8), 16);
}

#[test]
fn pad_of_zero_is_zero() {
    assert_eq!(round_multiple(0, 8), 0);
}

#[test]
fn pad_with_unit_multiple_is_identity() {
    assert_eq!(round_multiple(37, 1), 37);
}

#[test]
fn internal_type_covers_the_supported_three() {
    assert_eq!(layer_norm_internal_type(ElementType::F16).unwrap(), 0);
    assert_eq!(layer_norm_internal_type(ElementType::BF16).unwrap(), 1);
    assert_eq!(layer_norm_internal_type(ElementType::F32).unwrap(), 2);
}

#[test]
fn internal_type_tags_are_pairwise_distinct() {
    let a = layer_norm_internal_type(ElementType::F16).unwrap();
    let b = layer_norm_internal_type(ElementType::BF16).unwrap();
    let c = layer_norm_internal_type(ElementType::F32).unwrap();
    assert_ne!(a, b);
    assert_ne!(a, c);
    assert_ne!(b, c);
}

#[test]
fn internal_type_fails_closed_for_double_precision() {
    match layer_norm_internal_type(ElementType::F64) {
        Err(Error::UnsupportedType(t)) => assert_eq!(t, ElementType::F64),
        other => panic!("expected an unsupported-type error, got {:?}", other),
    }
}

#[test]
fn internal_type_fails_closed_for_every_integer_type() {
    for t in [
        ElementType::U8,
        ElementType::U32,
        ElementType::I16,
        ElementType::I32,
        ElementType::I64,
    ] {
        assert!(matches!(
            layer_norm_internal_type(t),
            Err(Error::UnsupportedType(u)) if u == t
        ));
    }
}

#[test]
fn internal_type_fails_closed_for_f8() {
    assert!(matches!(
        layer_norm_internal_type(ElementType::F8E4M3),
        Err(Error::UnsupportedType(ElementType::F8E4M3))
    ));
}
