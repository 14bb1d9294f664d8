//! Byte-level value semantics: construction, matching, duplication,
//! identity and widening.

use sierra_lowering::bytes::{u64_from_le, u64_to_le};
use sierra_lowering::enums::{
    build, build_init, build_match, enum_init_value, enum_match_value, EnumInitInfo, EnumMatchInfo,
    EnumSelector, MatchOutcome,
};
use sierra_lowering::runtime::{
    composite_field, dup_value, identity_value, struct_construct_value, upcast_value,
};
use sierra_lowering::tables::TypeRegistry;
use sierra_lowering::types::{PrimType, TypeDesc};

fn u8_ty() -> TypeDesc {
    TypeDesc::Simple(PrimType::U8)
}

fn u32_ty() -> TypeDesc {
    TypeDesc::Simple(PrimType::U32)
}

fn felt_ty() -> TypeDesc {
    TypeDesc::Simple(PrimType::Felt)
}

fn felt_bytes(low: u8) -> Vec<u8> {
    let mut v = vec![0u8; 32];
    v[0] = low;
    v
}

#[test]
fn enum_init_then_match_second_variant() {
    let variants = vec![u8_ty(), u32_ty()];
    let payload = vec![7u8, 0, 0, 0];
    let value = enum_init_value(&variants, 1, &payload);
    assert_eq!(value, vec![1u8, 0, 0, 0, 7, 0, 0, 0]);
    match enum_match_value(&variants, &value) {
        MatchOutcome::Variant { index, payload: out } => {
            assert_eq!(index, 1);
            assert_eq!(out, payload);
        },
        MatchOutcome::InvalidTag => panic!("valid tag took the default path"),
    }
}

#[test]
fn enum_init_then_match_first_variant() {
    let variants = vec![u8_ty(), u32_ty()];
    let payload = vec![9u8];
    let value = enum_init_value(&variants, 0, &payload);
    assert_eq!(value, vec![0u8, 9, 0, 0, 0, 0, 0, 0]);
    match enum_match_value(&variants, &value) {
        MatchOutcome::Variant { index, payload: out } => {
            assert_eq!(index, 0);
            assert_eq!(out, payload);
        },
        MatchOutcome::InvalidTag => panic!("valid tag took the default path"),
    }
}

#[test]
fn enum_match_invalid_tag_takes_default() {
    let variants = vec![u8_ty(), u32_ty()];
    // A corrupted value whose discriminant is outside [0, 2).
    let value = vec![5u8, 0, 0, 0, 0, 0, 0, 0];
    match enum_match_value(&variants, &value) {
        MatchOutcome::Variant { .. } => panic!("invalid tag reached a variant successor"),
        MatchOutcome::InvalidTag => {},
    }
}

#[test]
fn enum_builders_branch_to_variant_successor() {
    let mut registry = TypeRegistry::new();
    assert!(registry.insert(10, TypeDesc::Variant(vec![u8_ty(), u32_ty()])));
    let init = EnumInitInfo { enum_type: 10, index: 1 };
    let payload = vec![7u8, 0, 0, 0];
    let bt = build_init(&registry, &init, &payload).unwrap();
    assert_eq!(bt.successor, 0);
    assert_eq!(bt.values.len(), 1);
    let matched = build_match(&registry, &EnumMatchInfo { enum_type: 10 }, &bt.values[0]).unwrap();
    assert_eq!(matched.successor, 1);
    assert_eq!(matched.values, vec![payload]);
}

#[test]
fn enum_build_match_default_successor_is_one_past_variants() {
    let mut registry = TypeRegistry::new();
    assert!(registry.insert(10, TypeDesc::Variant(vec![u8_ty(), u32_ty()])));
    let bad = vec![9u8, 0, 0, 0, 0, 0, 0, 0];
    let bt = build_match(&registry, &EnumMatchInfo { enum_type: 10 }, &bad).unwrap();
    assert_eq!(bt.successor, 2);
    assert!(bt.values.is_empty());
}

#[test]
fn enum_build_errors() {
    let mut registry = TypeRegistry::new();
    assert!(registry.insert(1, u8_ty()));
    let missing = build_init(&registry, &EnumInitInfo { enum_type: 99, index: 0 }, &vec![0u8]);
    assert_eq!(missing.err(), Some(sierra_lowering::error::ErrorKind::UnresolvedType));
    let not_variant = build_init(&registry, &EnumInitInfo { enum_type: 1, index: 0 }, &vec![0u8]);
    assert_eq!(not_variant.err(), Some(sierra_lowering::error::ErrorKind::InvalidGenericArgs));
    let snapshot = build(&registry, &EnumSelector::SnapshotMatch, &vec![0u8]);
    assert_eq!(snapshot.err(), Some(sierra_lowering::error::ErrorKind::Unimplemented));
}

#[test]
fn struct_construct_two_felt_fields() {
    // Packing field elements 3 and 5 keeps field 0 == 3 and field 1 == 5,
    // in that order.
    let fields = vec![felt_ty(), felt_ty()];
    let args = vec![felt_bytes(3), felt_bytes(5)];
    let value = struct_construct_value(&fields, &args);
    assert_eq!(value.len(), 64);
    assert_eq!(composite_field(&fields, &value, 0), felt_bytes(3));
    assert_eq!(composite_field(&fields, &value, 1), felt_bytes(5));
}

#[test]
fn struct_construct_pads_between_fields() {
    let fields = vec![u8_ty(), u32_ty()];
    let args = vec![vec![0xaau8], vec![1u8, 2, 3, 4]];
    let value = struct_construct_value(&fields, &args);
    assert_eq!(value, vec![0xaa, 0, 0, 0, 1, 2, 3, 4]);
    assert_eq!(composite_field(&fields, &value, 0), vec![0xaa]);
    assert_eq!(composite_field(&fields, &value, 1), vec![1, 2, 3, 4]);
}

#[test]
fn dup_returns_two_equal_values() {
    let v = vec![1u8, 2, 3];
    let (a, b) = dup_value(&v);
    assert_eq!(a, v);
    assert_eq!(b, v);
}

#[test]
fn identity_returns_argument_unchanged() {
    let v = vec![42u8, 0, 99];
    let r = identity_value(v.clone());
    assert_eq!(r, v);
}

#[test]
fn upcast_zero_extends_and_preserves_value() {
    // 7 as one byte widened to eight bytes is still 7.
    let r = upcast_value(&vec![7u8], 8);
    assert_eq!(r, vec![7u8, 0, 0, 0, 0, 0, 0, 0]);
    // Equal width is the identity.
    let same = upcast_value(&vec![7u8], 1);
    assert_eq!(same, vec![7u8]);
    // A multi-byte value keeps all its bytes low-first.
    let wide = upcast_value(&vec![0x34u8, 0x12], 4);
    assert_eq!(wide, vec![0x34, 0x12, 0, 0]);
}

#[test]
fn little_endian_encoding_round_trips() {
    let bytes = u64_to_le(0x0102030405060708, 8);
    assert_eq!(bytes, vec![8u8, 7, 6, 5, 4, 3, 2, 1]);
    assert_eq!(u64_from_le(&bytes, 0, 8), 0x0102030405060708);
    let short = u64_to_le(300, 2);
    assert_eq!(short, vec![44u8, 1]);
    assert_eq!(u64_from_le(&short, 0, 2), 300);
    assert_eq!(u64_from_le(&short, 1, 1), 1);
}
