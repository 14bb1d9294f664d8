//! Layout computation: sizes, alignments and variant layouts.

use sierra_lowering::layout::variant_layout;
use sierra_lowering::types::{align_of_exec, check_type, size_of_exec, PrimType, TypeDesc};

fn u8_ty() -> TypeDesc {
    TypeDesc::Simple(PrimType::U8)
}

fn u32_ty() -> TypeDesc {
    TypeDesc::Simple(PrimType::U32)
}

fn felt_ty() -> TypeDesc {
    TypeDesc::Simple(PrimType::Felt)
}

#[test]
fn primitive_sizes_and_alignments() {
    assert_eq!(size_of_exec(&u8_ty()), 1);
    assert_eq!(align_of_exec(&u8_ty()), 1);
    assert_eq!(size_of_exec(&TypeDesc::Simple(PrimType::U16)), 2);
    assert_eq!(size_of_exec(&u32_ty()), 4);
    assert_eq!(size_of_exec(&TypeDesc::Simple(PrimType::U64)), 8);
    assert_eq!(size_of_exec(&TypeDesc::Simple(PrimType::U128)), 16);
    assert_eq!(size_of_exec(&felt_ty()), 32);
    assert_eq!(align_of_exec(&felt_ty()), 16);
}

#[test]
fn composite_layout_with_padding() {
    // {u8, u32}: the second field starts at offset 4, total size 8.
    let c = TypeDesc::Composite(vec![u8_ty(), u32_ty()]);
    assert!(check_type(&c));
    assert_eq!(size_of_exec(&c), 8);
    assert_eq!(align_of_exec(&c), 4);
}

#[test]
fn composite_of_two_felts() {
    let c = TypeDesc::Composite(vec![felt_ty(), felt_ty()]);
    assert!(check_type(&c));
    assert_eq!(size_of_exec(&c), 64);
    assert_eq!(align_of_exec(&c), 16);
}

#[test]
fn empty_composite_is_rejected() {
    let c = TypeDesc::Composite(vec![]);
    assert!(!check_type(&c));
}

#[test]
fn variant_layout_two_variants() {
    // {u8 | u32}: one tag byte, alignment 4, size 8.
    let variants = vec![u8_ty(), u32_ty()];
    let v = TypeDesc::Variant(vec![u8_ty(), u32_ty()]);
    assert!(check_type(&v));
    let lay = variant_layout(&variants);
    assert_eq!(lay.size, 8);
    assert_eq!(lay.align, 4);
    assert_eq!(lay.tag, TypeDesc::Simple(PrimType::U8));
    assert_eq!(lay.payloads.len(), 2);
    assert_eq!(lay.payloads[0].size, 1);
    assert_eq!(lay.payloads[1].size, 4);
    // The overall size covers the discriminant plus the largest payload
    // and is a multiple of the alignment.
    assert!(lay.size >= 1 + 4);
    assert_eq!(lay.size % lay.align, 0);
}

#[test]
fn variant_layout_single_variant_still_tagged() {
    // Even a single variant carries a discriminant byte.
    let variants = vec![u8_ty()];
    let lay = variant_layout(&variants);
    assert_eq!(lay.size, 2);
    assert_eq!(lay.align, 1);
    assert_eq!(lay.tag, TypeDesc::Simple(PrimType::U8));
}

#[test]
fn variant_layout_felt_payload() {
    let variants = vec![u8_ty(), felt_ty()];
    let lay = variant_layout(&variants);
    // tag byte padded to 16, then 32 payload bytes.
    assert_eq!(lay.size, 48);
    assert_eq!(lay.align, 16);
    assert!(lay.size >= 1 + 32);
    assert_eq!(lay.size % lay.align, 0);
}

#[test]
fn nested_composite_layout() {
    let inner = TypeDesc::Composite(vec![u8_ty(), u32_ty()]);
    let outer = TypeDesc::Composite(vec![u8_ty(), inner]);
    assert!(check_type(&outer));
    // inner starts at offset 4 (alignment 4), ends at 12.
    assert_eq!(size_of_exec(&outer), 12);
    assert_eq!(align_of_exec(&outer), 4);
}
