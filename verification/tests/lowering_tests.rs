//! The dispatch pass: builders, tables and error reporting.

use sierra_lowering::error::ErrorKind;
use sierra_lowering::layout::variant_layout;
use sierra_lowering::felt::U256;
use sierra_lowering::libfuncs::{
    kind_of, BinaryOp, CallableKind, Compiler, GenericArg, LibfuncInstance, LibfuncKind, Storage,
};
use sierra_lowering::tables::TypeRegistry;
use sierra_lowering::types::{PrimType, TypeDesc};

fn u8_ty() -> TypeDesc {
    TypeDesc::Simple(PrimType::U8)
}

fn u64_ty() -> TypeDesc {
    TypeDesc::Simple(PrimType::U64)
}

fn decl(id: u64, name: &str, generic: &str, args: Vec<GenericArg>) -> LibfuncInstance {
    LibfuncInstance {
        decl_id: id,
        debug_name: name.as_bytes().to_vec(),
        generic_id: generic.as_bytes().to_vec(),
        generic_args: args,
    }
}

fn storage_with_u8_and_u64() -> Storage {
    let mut registry = TypeRegistry::new();
    assert!(registry.insert(1, u8_ty()));
    assert!(registry.insert(2, u64_ty()));
    Storage::new(registry)
}

#[test]
fn identities_are_recognized() {
    assert_eq!(kind_of(&b"felt252_add".to_vec()), LibfuncKind::FeltAdd);
    assert_eq!(kind_of(&b"dup".to_vec()), LibfuncKind::Dup);
    assert_eq!(kind_of(&b"struct_construct".to_vec()), LibfuncKind::StructConstruct);
    assert_eq!(kind_of(&b"store_temp".to_vec()), LibfuncKind::StoreTemp);
    assert_eq!(kind_of(&b"rename".to_vec()), LibfuncKind::Rename);
    assert_eq!(kind_of(&b"u128_const".to_vec()), LibfuncKind::U128Const);
    assert_eq!(kind_of(&b"drop".to_vec()), LibfuncKind::NoOp);
    assert_eq!(kind_of(&b"array_new".to_vec()), LibfuncKind::Unrecognized);
}

#[test]
fn process_registers_signatures_and_skips_unrecognized() {
    let mut storage = storage_with_u8_and_u64();
    let mut compiler = Compiler::new();
    let decls = vec![
        decl(0, "dup<u8>", "dup", vec![GenericArg::Type(1)]),
        decl(1, "store_temp<u8>", "store_temp", vec![GenericArg::Type(1)]),
        decl(2, "rename<u64>", "rename", vec![GenericArg::Type(2)]),
        decl(3, "array_new<u8>", "array_new", vec![GenericArg::Type(1)]),
        decl(4, "drop<u8>", "drop", vec![GenericArg::Type(1)]),
        decl(5, "felt252_add", "felt252_add", vec![]),
    ];
    assert!(compiler.process_libfuncs(&decls, &mut storage).is_ok());
    // dup, store_temp, rename and felt252_add register; the rest do not.
    assert_eq!(storage.functions.entries.len(), 4);
    assert_eq!(compiler.module.len(), 4);
    assert_eq!(storage.functions.entries[0].name, b"dup<u8>".to_vec());
    assert_eq!(storage.functions.entries[0].value.args, vec![u8_ty()]);
    assert_eq!(storage.functions.entries[0].value.return_types, vec![u8_ty(), u8_ty()]);
    assert_eq!(compiler.module[0].kind, CallableKind::Dup);
    assert_eq!(compiler.module[1].kind, CallableKind::Identity);
    assert_eq!(compiler.module[2].kind, CallableKind::Identity);
    assert_eq!(compiler.module[3].kind, CallableKind::FeltBinOp(BinaryOp::Add));
    assert_eq!(
        compiler.module[3].args,
        vec![TypeDesc::Simple(PrimType::Felt), TypeDesc::Simple(PrimType::Felt)]
    );
}

#[test]
fn constants_are_recorded_per_width() {
    let mut storage = storage_with_u8_and_u64();
    let mut compiler = Compiler::new();
    let decls = vec![
        decl(0, "u8_const<7>", "u8_const", vec![GenericArg::Value(U256::from_u64(7))]),
        decl(1, "felt252_const<3>", "felt252_const", vec![GenericArg::Value(U256::from_u64(3))]),
    ];
    assert!(compiler.process_libfuncs(&decls, &mut storage).is_ok());
    assert_eq!(storage.u8_consts.entries.len(), 1);
    assert_eq!(storage.u8_consts.entries[0].name, b"u8_const<7>".to_vec());
    assert_eq!(storage.u8_consts.entries[0].value, U256::from_u64(7));
    assert_eq!(storage.felt_consts.entries.len(), 1);
    assert_eq!(storage.felt_consts.entries[0].value, U256::from_u64(3));
    // No callable is emitted for a constant.
    assert!(compiler.module.is_empty());
}

#[test]
fn constant_with_wrong_argument_kind_fails() {
    let mut storage = storage_with_u8_and_u64();
    let mut compiler = Compiler::new();
    let decls = vec![decl(9, "u8_const<bad>", "u8_const", vec![GenericArg::Type(1)])];
    let err = compiler.process_libfuncs(&decls, &mut storage).unwrap_err();
    assert_eq!(err.kind, ErrorKind::InvalidGenericArgs);
    assert_eq!(err.decl_id, 9);
}

#[test]
fn unresolved_type_aborts_with_the_offending_declaration() {
    let mut storage = storage_with_u8_and_u64();
    let mut compiler = Compiler::new();
    let decls = vec![
        decl(0, "dup<u8>", "dup", vec![GenericArg::Type(1)]),
        decl(7, "dup<missing>", "dup", vec![GenericArg::Type(42)]),
    ];
    let err = compiler.process_libfuncs(&decls, &mut storage).unwrap_err();
    assert_eq!(err.kind, ErrorKind::UnresolvedType);
    assert_eq!(err.decl_id, 7);
    // The first declaration was already lowered before the abort.
    assert_eq!(storage.functions.entries.len(), 1);
}

#[test]
fn duplicate_name_is_a_signature_collision() {
    let mut storage = storage_with_u8_and_u64();
    let mut compiler = Compiler::new();
    let decls = vec![
        decl(0, "same_name", "dup", vec![GenericArg::Type(1)]),
        decl(1, "same_name", "store_temp", vec![GenericArg::Type(1)]),
    ];
    let err = compiler.process_libfuncs(&decls, &mut storage).unwrap_err();
    assert_eq!(err.kind, ErrorKind::DuplicateSignature);
    assert_eq!(err.decl_id, 1);
}

#[test]
fn felt_division_is_unimplemented() {
    let mut storage = storage_with_u8_and_u64();
    let mut compiler = Compiler::new();
    let d = decl(0, "felt252_div", "felt252_div", vec![]);
    let r = compiler.create_libfunc_felt_binary_op(&d, &mut storage, BinaryOp::Div);
    assert_eq!(r, Err(ErrorKind::Unimplemented));
    assert!(storage.functions.entries.is_empty());
    assert!(compiler.module.is_empty());
}

#[test]
fn struct_construct_registers_field_signature() {
    let mut registry = TypeRegistry::new();
    assert!(registry.insert(1, u8_ty()));
    assert!(registry.insert(3, TypeDesc::Composite(vec![u8_ty(), u64_ty()])));
    let mut storage = Storage::new(registry);
    let mut compiler = Compiler::new();
    let d = decl(0, "struct_construct<pair>", "struct_construct", vec![GenericArg::Type(3)]);
    assert!(compiler.create_libfunc_struct_construct(&d, &mut storage).is_ok());
    assert_eq!(storage.functions.entries.len(), 1);
    let def = &storage.functions.entries[0].value;
    assert_eq!(def.args, vec![u8_ty(), u64_ty()]);
    assert_eq!(def.return_types, vec![TypeDesc::Composite(vec![u8_ty(), u64_ty()])]);
    assert_eq!(compiler.module[0].kind, CallableKind::StructConstruct);
}

#[test]
fn struct_construct_over_non_composite_fails() {
    let mut storage = storage_with_u8_and_u64();
    let mut compiler = Compiler::new();
    let d = decl(0, "struct_construct<u8>", "struct_construct", vec![GenericArg::Type(1)]);
    let r = compiler.create_libfunc_struct_construct(&d, &mut storage);
    assert_eq!(r, Err(ErrorKind::InvalidGenericArgs));
}

#[test]
fn upcast_widening_emits_a_zero_extension() {
    let mut storage = storage_with_u8_and_u64();
    let mut compiler = Compiler::new();
    let d = decl(0, "upcast<u8, u64>", "upcast", vec![GenericArg::Type(1), GenericArg::Type(2)]);
    assert!(compiler.create_libfunc_upcast(&d, &mut storage).is_ok());
    assert_eq!(storage.functions.entries.len(), 1);
    let def = &storage.functions.entries[0].value;
    assert_eq!(def.args, vec![u8_ty()]);
    assert_eq!(def.return_types, vec![u64_ty()]);
    assert_eq!(compiler.module[0].kind, CallableKind::ZeroExtend);
}

#[test]
fn upcast_equal_width_is_a_silent_no_op() {
    let mut storage = storage_with_u8_and_u64();
    let mut compiler = Compiler::new();
    let d = decl(0, "upcast<u8, u8>", "upcast", vec![GenericArg::Type(1), GenericArg::Type(1)]);
    assert!(compiler.create_libfunc_upcast(&d, &mut storage).is_ok());
    assert!(storage.functions.entries.is_empty());
    assert!(compiler.module.is_empty());
}

#[test]
fn upcast_narrowing_is_fatal() {
    let mut storage = storage_with_u8_and_u64();
    let mut compiler = Compiler::new();
    let d = decl(0, "upcast<u64, u8>", "upcast", vec![GenericArg::Type(2), GenericArg::Type(1)]);
    let r = compiler.create_libfunc_upcast(&d, &mut storage);
    assert_eq!(r, Err(ErrorKind::InvalidGenericArgs));
    assert!(storage.functions.entries.is_empty());
}

#[test]
fn u8_const_then_upcast_yields_the_value_in_eight_bytes() {
    // Record the constant 7 at width 8, lower an upcast to u64, then run
    // the widening on the materialized constant.
    let mut storage = storage_with_u8_and_u64();
    let mut compiler = Compiler::new();
    let decls = vec![
        decl(0, "u8_const<7>", "u8_const", vec![GenericArg::Value(U256::from_u64(7))]),
        decl(1, "upcast<u8, u64>", "upcast", vec![GenericArg::Type(1), GenericArg::Type(2)]),
    ];
    assert!(compiler.process_libfuncs(&decls, &mut storage).is_ok());
    let recorded = storage.u8_consts.entries[0].value;
    assert_eq!(recorded, U256::from_u64(7));
    let narrow = vec![recorded.l0 as u8];
    let wide = sierra_lowering::runtime::upcast_value(&narrow, 8);
    assert_eq!(wide, vec![7u8, 0, 0, 0, 0, 0, 0, 0]);
}

#[test]
fn registry_rejects_duplicates_and_malformed_types() {
    let mut registry = TypeRegistry::new();
    assert!(registry.insert(1, u8_ty()));
    assert!(!registry.insert(1, u64_ty()));
    assert!(!registry.insert(2, TypeDesc::Composite(vec![])));
    assert!(registry.get(1).is_some());
    assert!(registry.get(2).is_none());
}

#[test]
fn error_names_the_offending_identity() {
    let mut storage = storage_with_u8_and_u64();
    let mut compiler = Compiler::new();
    let decls = vec![decl(3, "dup<missing>", "dup", vec![GenericArg::Type(42)])];
    let err = compiler.process_libfuncs(&decls, &mut storage).unwrap_err();
    assert_eq!(err.generic_id, b"dup".to_vec());
    assert_eq!(err.decl_id, 3);
}

#[test]
fn wide_variant_set_uses_a_two_byte_tag() {
    // 300 variants need a 16-bit discriminant.
    let variants: Vec<TypeDesc> = (0..300).map(|_| u8_ty()).collect();
    let lay = variant_layout(&variants);
    assert_eq!(lay.tag, TypeDesc::Simple(PrimType::U16));
    assert_eq!(lay.size, 4);
    assert_eq!(lay.align, 2);
}

#[test]
fn bookkeeping_and_unrecognized_identities_change_nothing() {
    let mut storage = storage_with_u8_and_u64();
    let mut compiler = Compiler::new();
    let decls = vec![
        decl(0, "revoke_ap_tracking", "revoke_ap_tracking", vec![]),
        decl(1, "disable_ap_tracking", "disable_ap_tracking", vec![]),
        decl(2, "drop<u8>", "drop", vec![GenericArg::Type(1)]),
        decl(3, "array_append<u8>", "array_append", vec![GenericArg::Type(1)]),
    ];
    assert!(compiler.process_libfuncs(&decls, &mut storage).is_ok());
    assert!(storage.functions.entries.is_empty());
    assert!(storage.felt_consts.entries.is_empty());
    assert!(storage.u8_consts.entries.is_empty());
    assert!(compiler.module.is_empty());
}
