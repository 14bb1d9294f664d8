//! Lowering of library-function declarations.
//!
//! Each declared instance of a generic library function is dispatched on
//! its generic identity to a builder. A builder validates the instance's
//! generic arguments against the type registry, emits a callable into
//! the module, and records the callable's signature — or a constant's
//! value — in the shared lowering state. Every error case and every
//! state change is stated exactly in the builders' contracts.

use crate::error::{ErrorKind, LoweringError};
use crate::felt::U256;
use crate::tables::{lookup_spec, Table, TypeRegistry};
use crate::types::{views_of, TdView, TypeDesc};
use vstd::prelude::*;

verus! {

/// The arithmetic operation of a field-element binary callable.
#[derive(Debug, Clone, Copy, PartialEq, Eq, Structural)]
pub enum BinaryOp {
    Add,
    Sub,
    Mul,
    Div,
}

/// One generic argument of a library-function declaration: a literal
/// value or a reference to a type, user type, user function or library
/// function by its stable identifier.
#[derive(Debug, Clone, Copy, PartialEq, Eq, Structural)]
pub enum GenericArg {
    Value(U256),
    Type(u64),
    UserType(u64),
    UserFunc(u64),
    Libfunc(u64),
}

/// One declared invocation of a generic library function.
pub struct LibfuncInstance {
    /// Unique declaration identifier.
    pub decl_id: u64,
    /// Normalized debug name; emitted callables and recorded constants
    /// are keyed by it. Assumed collision-free within one unit.
    pub debug_name: Vec<u8>,
    /// The generic identity (string tag) that is dispatched on.
    pub generic_id: Vec<u8>,
    /// Ordered generic arguments.
    pub generic_args: Vec<GenericArg>,
}

/// Argument and return types of one emitted callable.
pub struct FunctionDef {
    pub args: Vec<TypeDesc>,
    pub return_types: Vec<TypeDesc>,
}

/// Shared mutable lowering state for one compilation unit.
///
/// The type registry is populated before the pass and only read by it;
/// the signature and constant tables grow monotonically during the pass.
pub struct Storage {
    pub types: TypeRegistry,
    pub functions: Table<FunctionDef>,
    pub felt_consts: Table<U256>,
    pub u8_consts: Table<U256>,
    pub u16_consts: Table<U256>,
    pub u32_consts: Table<U256>,
    pub u64_consts: Table<U256>,
    pub u128_consts: Table<U256>,
}

impl Storage {
    /// Every type in the registry is well-formed.
    pub open spec fn inv(self) -> bool {
        self.types.inv()
    }

    /// Empty state over an existing registry.
    pub fn new(types: TypeRegistry) -> (r: Storage)
        requires
            types.inv(),
        ensures
            r.inv(),
            r.types == types,
            r.functions.entries@.len() == 0,
            r.felt_consts.entries@.len() == 0,
            r.u8_consts.entries@.len() == 0,
            r.u16_consts.entries@.len() == 0,
            r.u32_consts.entries@.len() == 0,
            r.u64_consts.entries@.len() == 0,
            r.u128_consts.entries@.len() == 0,
    {
        Storage {
            types,
            functions: Table::new(),
            felt_consts: Table::new(),
            u8_consts: Table::new(),
            u16_consts: Table::new(),
            u32_consts: Table::new(),
            u64_consts: Table::new(),
            u128_consts: Table::new(),
        }
    }
}

/// The signature table is untouched.
pub open spec fn same_functions(a: Storage, b: Storage) -> bool {
    a.functions.entries@ == b.functions.entries@
}

/// All constant tables are untouched.
pub open spec fn same_consts(a: Storage, b: Storage) -> bool {
    a.felt_consts.entries@ == b.felt_consts.entries@ && a.u8_consts.entries@
        == b.u8_consts.entries@ && a.u16_consts.entries@ == b.u16_consts.entries@
        && a.u32_consts.entries@ == b.u32_consts.entries@ && a.u64_consts.entries@
        == b.u64_consts.entries@ && a.u128_consts.entries@ == b.u128_consts.entries@
}

/// `after` is `before` with one more entry, keyed `name`, holding the
/// given value.
pub open spec fn const_recorded(
    before: Table<U256>,
    after: Table<U256>,
    name: Seq<u8>,
    value: U256,
) -> bool {
    after.entries@.len() == before.entries@.len() + 1 && (forall|j: int|
        0 <= j < before.entries@.len() ==> after.entries@[j] == before.entries@[j])
        && after.entries@.last().name@ == name && after.entries@.last().value == value
}

/// `after` is `before` with one more signature, keyed `name`, whose
/// argument and return types have the given views.
pub open spec fn fn_registered(
    before: Table<FunctionDef>,
    after: Table<FunctionDef>,
    name: Seq<u8>,
    args: Seq<TdView>,
    rets: Seq<TdView>,
) -> bool {
    after.entries@.len() == before.entries@.len() + 1 && (forall|j: int|
        0 <= j < before.entries@.len() ==> after.entries@[j] == before.entries@[j])
        && after.entries@.last().name@ == name && views_of(
        after.entries@.last().value.args@,
    ) == args && views_of(after.entries@.last().value.return_types@) == rets
}

/// The shape of one emitted callable's body.
#[derive(Debug, Clone, Copy, PartialEq, Eq, Structural)]
pub enum CallableKind {
    /// Returns its argument unchanged (value store and rename).
    Identity,
    /// Returns its argument twice.
    Dup,
    /// Packs its arguments into a composite value.
    StructConstruct,
    /// Widened field-element arithmetic with modular reduction.
    FeltBinOp(BinaryOp),
    /// Zero-extends an unsigned integer to a wider width.
    ZeroExtend,
}

/// One callable emitted into the module-level container.
pub struct Callable {
    /// The normalized name it is emitted under.
    pub name: Vec<u8>,
    /// Argument types, in order.
    pub args: Vec<TypeDesc>,
    /// Return types, in order.
    pub results: Vec<TypeDesc>,
    /// What the body does.
    pub kind: CallableKind,
}

/// `after` is `before` with one more callable of the given shape.
pub open spec fn emitted(
    before: Seq<Callable>,
    after: Seq<Callable>,
    name: Seq<u8>,
    args: Seq<TdView>,
    rets: Seq<TdView>,
    kind: CallableKind,
) -> bool {
    after.len() == before.len() + 1 && (forall|j: int|
        0 <= j < before.len() ==> after[j] == before[j]) && after.last().name@ == name && views_of(
        after.last().args@,
    ) == args && views_of(after.last().results@) == rets && after.last().kind == kind
}

/// The module under construction: emitted callables, in emission order.
pub struct Compiler {
    pub module: Vec<Callable>,
}

/// The single type-reference generic argument of a declaration, if its
/// argument list is exactly that.
pub open spec fn spec_type_arg(args: Seq<GenericArg>) -> Option<u64> {
    if args.len() == 1 {
        match args[0] {
            GenericArg::Type(id) => Some(id),
            _ => None,
        }
    } else {
        None
    }
}

/// The single literal generic argument of a declaration, if its argument
/// list is exactly that.
pub open spec fn spec_value_arg(args: Seq<GenericArg>) -> Option<U256> {
    if args.len() == 1 {
        match args[0] {
            GenericArg::Value(v) => Some(v),
            _ => None,
        }
    } else {
        None
    }
}

/// Reads the single type-reference argument.
fn type_arg(args: &Vec<GenericArg>) -> (r: Option<u64>)
    ensures
        r == spec_type_arg(args@),
{
    if args.len() != 1 {
        return None;
    }
    match args[0] {
        GenericArg::Type(id) => Some(id),
        _ => None,
    }
}

/// Reads the single literal argument.
fn value_arg(args: &Vec<GenericArg>) -> (r: Option<U256>)
    ensures
        r == spec_value_arg(args@),
{
    if args.len() != 1 {
        return None;
    }
    match args[0] {
        GenericArg::Value(v) => Some(v),
        _ => None,
    }
}

/// Records the single literal argument of a constant declaration into a
/// width-specific constant table under the declaration's name.
fn record_const(table: &mut Table<U256>, func_decl: &LibfuncInstance) -> (r: Result<
    (),
    ErrorKind,
>)
    ensures
        match spec_value_arg(func_decl.generic_args@) {
            None => r == Err::<(), ErrorKind>(ErrorKind::InvalidGenericArgs) && final(table).entries@ == old(table).entries@,
            Some(v) => {
                if old(table).spec_contains(func_decl.debug_name@) {
                    r == Err::<(), ErrorKind>(ErrorKind::DuplicateSignature) && final(table).entries@ == old(table).entries@
                } else {
                    r == Ok::<(), ErrorKind>(()) && const_recorded(
                        *old(table),
                        *final(table),
                        func_decl.debug_name@,
                        v,
                    )
                }
            },
        },
{
    let v = match value_arg(&func_decl.generic_args) {
        None => {
            return Err(ErrorKind::InvalidGenericArgs);
        },
        Some(v) => v,
    };
    let name = crate::runtime::copy_bytes(&func_decl.debug_name);
    table.insert_new(name, v)
}

impl Compiler {
    /// An empty module.
    pub fn new() -> (r: Compiler)
        ensures
            r.module@.len() == 0,
    {
        Compiler { module: Vec::new() }
    }

    /// Records a field-element constant: the declaration's one literal
    /// generic argument, keyed by the declaration's name.
    pub fn create_libfunc_felt_const(
        &self,
        func_decl: &LibfuncInstance,
        storage: &mut Storage,
    ) -> (r: Result<(), ErrorKind>)
        ensures
            final(storage).types == old(storage).types,
            final(storage).functions == old(storage).functions,
            final(storage).u8_consts == old(storage).u8_consts,
            final(storage).u16_consts == old(storage).u16_consts,
            final(storage).u32_consts == old(storage).u32_consts,
            final(storage).u64_consts == old(storage).u64_consts,
            final(storage).u128_consts == old(storage).u128_consts,
            match spec_value_arg(func_decl.generic_args@) {
                None => r == Err::<(), ErrorKind>(ErrorKind::InvalidGenericArgs) && final(storage).felt_consts.entries@ == old(storage).felt_consts.entries@,
                Some(v) => {
                    if old(storage).felt_consts.spec_contains(func_decl.debug_name@) {
                        r == Err::<(), ErrorKind>(ErrorKind::DuplicateSignature) && final(storage).felt_consts.entries@ == old(storage).felt_consts.entries@
                    } else {
                        r == Ok::<(), ErrorKind>(()) && const_recorded(
                            old(storage).felt_consts,
                            final(storage).felt_consts,
                            func_decl.debug_name@,
                            v,
                        )
                    }
                },
            },
    {
        record_const(&mut storage.felt_consts, func_decl)
    }

    /// Records an 8-bit integer constant.
    pub fn create_libfunc_u8_const(
        &self,
        func_decl: &LibfuncInstance,
        storage: &mut Storage,
    ) -> (r: Result<(), ErrorKind>)
        ensures
            final(storage).types == old(storage).types,
            final(storage).functions == old(storage).functions,
            final(storage).felt_consts == old(storage).felt_consts,
            final(storage).u16_consts == old(storage).u16_consts,
            final(storage).u32_consts == old(storage).u32_consts,
            final(storage).u64_consts == old(storage).u64_consts,
            final(storage).u128_consts == old(storage).u128_consts,
            match spec_value_arg(func_decl.generic_args@) {
                None => r == Err::<(), ErrorKind>(ErrorKind::InvalidGenericArgs) && final(storage).u8_consts.entries@ == old(storage).u8_consts.entries@,
                Some(v) => {
                    if old(storage).u8_consts.spec_contains(func_decl.debug_name@) {
                        r == Err::<(), ErrorKind>(ErrorKind::DuplicateSignature) && final(storage).u8_consts.entries@ == old(storage).u8_consts.entries@
                    } else {
                        r == Ok::<(), ErrorKind>(()) && const_recorded(
                            old(storage).u8_consts,
                            final(storage).u8_consts,
                            func_decl.debug_name@,
                            v,
                        )
                    }
                },
            },
    {
        record_const(&mut storage.u8_consts, func_decl)
    }

    /// Records a 16-bit integer constant.
    pub fn create_libfunc_u16_const(
        &self,
        func_decl: &LibfuncInstance,
        storage: &mut Storage,
    ) -> (r: Result<(), ErrorKind>)
        ensures
            final(storage).types == old(storage).types,
            final(storage).functions == old(storage).functions,
            final(storage).felt_consts == old(storage).felt_consts,
            final(storage).u8_consts == old(storage).u8_consts,
            final(storage).u32_consts == old(storage).u32_consts,
            final(storage).u64_consts == old(storage).u64_consts,
            final(storage).u128_consts == old(storage).u128_consts,
            match spec_value_arg(func_decl.generic_args@) {
                None => r == Err::<(), ErrorKind>(ErrorKind::InvalidGenericArgs) && final(storage).u16_consts.entries@ == old(storage).u16_consts.entries@,
                Some(v) => {
                    if old(storage).u16_consts.spec_contains(func_decl.debug_name@) {
                        r == Err::<(), ErrorKind>(ErrorKind::DuplicateSignature) && final(storage).u16_consts.entries@ == old(storage).u16_consts.entries@
                    } else {
                        r == Ok::<(), ErrorKind>(()) && const_recorded(
                            old(storage).u16_consts,
                            final(storage).u16_consts,
                            func_decl.debug_name@,
                            v,
                        )
                    }
                },
            },
    {
        record_const(&mut storage.u16_consts, func_decl)
    }

    /// Records a 32-bit integer constant.
    pub fn create_libfunc_u32_const(
        &self,
        func_decl: &LibfuncInstance,
        storage: &mut Storage,
    ) -> (r: Result<(), ErrorKind>)
        ensures
            final(storage).types == old(storage).types,
            final(storage).functions == old(storage).functions,
            final(storage).felt_consts == old(storage).felt_consts,
            final(storage).u8_consts == old(storage).u8_consts,
            final(storage).u16_consts == old(storage).u16_consts,
            final(storage).u64_consts == old(storage).u64_consts,
            final(storage).u128_consts == old(storage).u128_consts,
            match spec_value_arg(func_decl.generic_args@) {
                None => r == Err::<(), ErrorKind>(ErrorKind::InvalidGenericArgs) && final(storage).u32_consts.entries@ == old(storage).u32_consts.entries@,
                Some(v) => {
                    if old(storage).u32_consts.spec_contains(func_decl.debug_name@) {
                        r == Err::<(), ErrorKind>(ErrorKind::DuplicateSignature) && final(storage).u32_consts.entries@ == old(storage).u32_consts.entries@
                    } else {
                        r == Ok::<(), ErrorKind>(()) && const_recorded(
                            old(storage).u32_consts,
                            final(storage).u32_consts,
                            func_decl.debug_name@,
                            v,
                        )
                    }
                },
            },
    {
        record_const(&mut storage.u32_consts, func_decl)
    }

    /// Records a 64-bit integer constant.
    pub fn create_libfunc_u64_const(
        &self,
        func_decl: &LibfuncInstance,
        storage: &mut Storage,
    ) -> (r: Result<(), ErrorKind>)
        ensures
            final(storage).types == old(storage).types,
            final(storage).functions == old(storage).functions,
            final(storage).felt_consts == old(storage).felt_consts,
            final(storage).u8_consts == old(storage).u8_consts,
            final(storage).u16_consts == old(storage).u16_consts,
            final(storage).u32_consts == old(storage).u32_consts,
            final(storage).u128_consts == old(storage).u128_consts,
            match spec_value_arg(func_decl.generic_args@) {
                None => r == Err::<(), ErrorKind>(ErrorKind::InvalidGenericArgs) && final(storage).u64_consts.entries@ == old(storage).u64_consts.entries@,
                Some(v) => {
                    if old(storage).u64_consts.spec_contains(func_decl.debug_name@) {
                        r == Err::<(), ErrorKind>(ErrorKind::DuplicateSignature) && final(storage).u64_consts.entries@ == old(storage).u64_consts.entries@
                    } else {
                        r == Ok::<(), ErrorKind>(()) && const_recorded(
                            old(storage).u64_consts,
                            final(storage).u64_consts,
                            func_decl.debug_name@,
                            v,
                        )
                    }
                },
            },
    {
        record_const(&mut storage.u64_consts, func_decl)
    }

    /// Records a 128-bit integer constant.
    pub fn create_libfunc_u128_const(
        &self,
        func_decl: &LibfuncInstance,
        storage: &mut Storage,
    ) -> (r: Result<(), ErrorKind>)
        ensures
            final(storage).types == old(storage).types,
            final(storage).functions == old(storage).functions,
            final(storage).felt_consts == old(storage).felt_consts,
            final(storage).u8_consts == old(storage).u8_consts,
            final(storage).u16_consts == old(storage).u16_consts,
            final(storage).u32_consts == old(storage).u32_consts,
            final(storage).u64_consts == old(storage).u64_consts,
            match spec_value_arg(func_decl.generic_args@) {
                None => r == Err::<(), ErrorKind>(ErrorKind::InvalidGenericArgs) && final(storage).u128_consts.entries@ == old(storage).u128_consts.entries@,
                Some(v) => {
                    if old(storage).u128_consts.spec_contains(func_decl.debug_name@) {
                        r == Err::<(), ErrorKind>(ErrorKind::DuplicateSignature) && final(storage).u128_consts.entries@ == old(storage).u128_consts.entries@
                    } else {
                        r == Ok::<(), ErrorKind>(()) && const_recorded(
                            old(storage).u128_consts,
                            final(storage).u128_consts,
                            func_decl.debug_name@,
                            v,
                        )
                    }
                },
            },
    {
        record_const(&mut storage.u128_consts, func_decl)
    }
}


impl Compiler {
    /// Emits a duplication callable for the declaration's one type
    /// argument: one value in, the same value out twice, and registers
    /// its signature.
    pub fn create_libfunc_dup(&mut self, func_decl: &LibfuncInstance, storage: &mut Storage) -> (r:
        Result<(), ErrorKind>)
        requires
            old(storage).inv(),
        ensures
            final(storage).inv(),
            final(storage).types == old(storage).types,
            same_consts(*old(storage), *final(storage)),
            match spec_type_arg(func_decl.generic_args@) {
                None => r == Err::<(), ErrorKind>(ErrorKind::InvalidGenericArgs) && same_functions(
                    *old(storage),
                    *final(storage),
                ) && final(self).module@ == old(self).module@,
                Some(id) => match lookup_spec(old(storage).types.entries@, id) {
                    None => r == Err::<(), ErrorKind>(ErrorKind::UnresolvedType) && same_functions(
                        *old(storage),
                        *final(storage),
                    ) && final(self).module@ == old(self).module@,
                    Some(tv) => {
                        if old(storage).functions.spec_contains(func_decl.debug_name@) {
                            r == Err::<(), ErrorKind>(ErrorKind::DuplicateSignature)
                                && same_functions(*old(storage), *final(storage)) && final(self).module@ == old(self).module@
                        } else {
                            r == Ok::<(), ErrorKind>(()) && fn_registered(
                                old(storage).functions,
                                final(storage).functions,
                                func_decl.debug_name@,
                                seq![tv],
                                seq![tv, tv],
                            ) && emitted(
                                old(self).module@,
                                final(self).module@,
                                func_decl.debug_name@,
                                seq![tv],
                                seq![tv, tv],
                                CallableKind::Dup,
                            )
                        }
                    },
                },
            },
    {
        let id = match type_arg(&func_decl.generic_args) {
            None => {
                return Err(ErrorKind::InvalidGenericArgs);
            },
            Some(id) => id,
        };
        let ty = match storage.types.get(id) {
            None => {
                return Err(ErrorKind::UnresolvedType);
            },
            Some(t) => t.duplicate(),
        };
        let ghost tv = ty@;
        let def = FunctionDef {
            args: vec![ty.duplicate()],
            return_types: vec![ty.duplicate(), ty.duplicate()],
        };
        proof {
            crate::types::lemma_td_views(def.args@, 1);
            assert(views_of(def.args@) =~= seq![tv]);
            crate::types::lemma_td_views(def.return_types@, 2);
            assert(views_of(def.return_types@) =~= seq![tv, tv]);
        }
        let name = crate::runtime::copy_bytes(&func_decl.debug_name);
        match storage.functions.insert_new(name, def) {
            Err(e) => {
                return Err(e);
            },
            Ok(()) => {},
        }
        let call = Callable {
            name: crate::runtime::copy_bytes(&func_decl.debug_name),
            args: vec![ty.duplicate()],
            results: vec![ty.duplicate(), ty],
            kind: CallableKind::Dup,
        };
        proof {
            crate::types::lemma_td_views(call.args@, 1);
            assert(views_of(call.args@) =~= seq![tv]);
            crate::types::lemma_td_views(call.results@, 2);
            assert(views_of(call.results@) =~= seq![tv, tv]);
        }
        self.module.push(call);
        Ok(())
    }

    /// Emits the identity callable shared by value-store and rename
    /// declarations: one value of the declared type in, the same value
    /// out, and registers its signature.
    pub fn create_libfunc_store_temp(
        &mut self,
        func_decl: &LibfuncInstance,
        storage: &mut Storage,
    ) -> (r: Result<(), ErrorKind>)
        requires
            old(storage).inv(),
        ensures
            final(storage).inv(),
            final(storage).types == old(storage).types,
            same_consts(*old(storage), *final(storage)),
            match spec_type_arg(func_decl.generic_args@) {
                None => r == Err::<(), ErrorKind>(ErrorKind::InvalidGenericArgs) && same_functions(
                    *old(storage),
                    *final(storage),
                ) && final(self).module@ == old(self).module@,
                Some(id) => match lookup_spec(old(storage).types.entries@, id) {
                    None => r == Err::<(), ErrorKind>(ErrorKind::UnresolvedType) && same_functions(
                        *old(storage),
                        *final(storage),
                    ) && final(self).module@ == old(self).module@,
                    Some(tv) => {
                        if old(storage).functions.spec_contains(func_decl.debug_name@) {
                            r == Err::<(), ErrorKind>(ErrorKind::DuplicateSignature)
                                && same_functions(*old(storage), *final(storage)) && final(self).module@ == old(self).module@
                        } else {
                            r == Ok::<(), ErrorKind>(()) && fn_registered(
                                old(storage).functions,
                                final(storage).functions,
                                func_decl.debug_name@,
                                seq![tv],
                                seq![tv],
                            ) && emitted(
                                old(self).module@,
                                final(self).module@,
                                func_decl.debug_name@,
                                seq![tv],
                                seq![tv],
                                CallableKind::Identity,
                            )
                        }
                    },
                },
            },
    {
        let id = match type_arg(&func_decl.generic_args) {
            None => {
                return Err(ErrorKind::InvalidGenericArgs);
            },
            Some(id) => id,
        };
        let ty = match storage.types.get(id) {
            None => {
                return Err(ErrorKind::UnresolvedType);
            },
            Some(t) => t.duplicate(),
        };
        let ghost tv = ty@;
        let def = FunctionDef { args: vec![ty.duplicate()], return_types: vec![ty.duplicate()] };
        proof {
            crate::types::lemma_td_views(def.args@, 1);
            assert(views_of(def.args@) =~= seq![tv]);
            crate::types::lemma_td_views(def.return_types@, 1);
            assert(views_of(def.return_types@) =~= seq![tv]);
        }
        let name = crate::runtime::copy_bytes(&func_decl.debug_name);
        match storage.functions.insert_new(name, def) {
            Err(e) => {
                return Err(e);
            },
            Ok(()) => {},
        }
        let call = Callable {
            name: crate::runtime::copy_bytes(&func_decl.debug_name),
            args: vec![ty.duplicate()],
            results: vec![ty],
            kind: CallableKind::Identity,
        };
        proof {
            crate::types::lemma_td_views(call.args@, 1);
            assert(views_of(call.args@) =~= seq![tv]);
            crate::types::lemma_td_views(call.results@, 1);
            assert(views_of(call.results@) =~= seq![tv]);
        }
        self.module.push(call);
        Ok(())
    }
}


/// Both type-reference generic arguments of a width-cast declaration,
/// if its argument list is exactly two type references.
pub open spec fn spec_two_type_args(args: Seq<GenericArg>) -> Option<(u64, u64)> {
    if args.len() == 2 {
        match (args[0], args[1]) {
            (GenericArg::Type(src), GenericArg::Type(dst)) => Some((src, dst)),
            _ => None,
        }
    } else {
        None
    }
}

/// Reads the two type-reference arguments.
fn two_type_args(args: &Vec<GenericArg>) -> (r: Option<(u64, u64)>)
    ensures
        r == spec_two_type_args(args@),
{
    if args.len() != 2 {
        return None;
    }
    match (args[0], args[1]) {
        (GenericArg::Type(src), GenericArg::Type(dst)) => Some((src, dst)),
        _ => None,
    }
}

impl Compiler {
    /// Emits a field-element arithmetic callable: two field elements in,
    /// one out; the operands are widened, combined, reduced modulo the
    /// field prime, and narrowed back. Division is not supported.
    pub fn create_libfunc_felt_binary_op(
        &mut self,
        func_decl: &LibfuncInstance,
        storage: &mut Storage,
        binary_op: BinaryOp,
    ) -> (r: Result<(), ErrorKind>)
        requires
            old(storage).inv(),
        ensures
            final(storage).inv(),
            final(storage).types == old(storage).types,
            same_consts(*old(storage), *final(storage)),
            binary_op == BinaryOp::Div ==> r == Err::<(), ErrorKind>(ErrorKind::Unimplemented)
                && same_functions(*old(storage), *final(storage)) && final(self).module@ == old(
                self,
            ).module@,
            binary_op != BinaryOp::Div && old(storage).functions.spec_contains(
                func_decl.debug_name@,
            ) ==> r == Err::<(), ErrorKind>(ErrorKind::DuplicateSignature) && same_functions(
                *old(storage),
                *final(storage),
            ) && final(self).module@ == old(self).module@,
            binary_op != BinaryOp::Div && !old(storage).functions.spec_contains(
                func_decl.debug_name@,
            ) ==> r == Ok::<(), ErrorKind>(()) && fn_registered(
                old(storage).functions,
                final(storage).functions,
                func_decl.debug_name@,
                seq![
                    TdView::Simple(crate::types::PrimType::Felt),
                    TdView::Simple(crate::types::PrimType::Felt),
                ],
                seq![TdView::Simple(crate::types::PrimType::Felt)],
            ) && emitted(
                old(self).module@,
                final(self).module@,
                func_decl.debug_name@,
                seq![
                    TdView::Simple(crate::types::PrimType::Felt),
                    TdView::Simple(crate::types::PrimType::Felt),
                ],
                seq![TdView::Simple(crate::types::PrimType::Felt)],
                CallableKind::FeltBinOp(binary_op),
            ),
    {
        if matches!(binary_op, BinaryOp::Div) {
            return Err(ErrorKind::Unimplemented);
        }
        let felt = TypeDesc::Simple(crate::types::PrimType::Felt);
        let ghost fv = TdView::Simple(crate::types::PrimType::Felt);
        let def = FunctionDef {
            args: vec![felt.duplicate(), felt.duplicate()],
            return_types: vec![felt.duplicate()],
        };
        proof {
            crate::types::lemma_td_views(def.args@, 2);
            assert(views_of(def.args@) =~= seq![fv, fv]);
            crate::types::lemma_td_views(def.return_types@, 1);
            assert(views_of(def.return_types@) =~= seq![fv]);
        }
        let name = crate::runtime::copy_bytes(&func_decl.debug_name);
        match storage.functions.insert_new(name, def) {
            Err(e) => {
                return Err(e);
            },
            Ok(()) => {},
        }
        let call = Callable {
            name: crate::runtime::copy_bytes(&func_decl.debug_name),
            args: vec![felt.duplicate(), felt.duplicate()],
            results: vec![felt],
            kind: CallableKind::FeltBinOp(binary_op),
        };
        proof {
            crate::types::lemma_td_views(call.args@, 2);
            assert(views_of(call.args@) =~= seq![fv, fv]);
            crate::types::lemma_td_views(call.results@, 1);
            assert(views_of(call.results@) =~= seq![fv]);
        }
        self.module.push(call);
        Ok(())
    }

    /// Emits a composite-construction callable for the declaration's one
    /// type argument, which must resolve to a composite: one argument
    /// per field, in field order, one composite value out.
    pub fn create_libfunc_struct_construct(
        &mut self,
        func_decl: &LibfuncInstance,
        storage: &mut Storage,
    ) -> (r: Result<(), ErrorKind>)
        requires
            old(storage).inv(),
        ensures
            final(storage).inv(),
            final(storage).types == old(storage).types,
            same_consts(*old(storage), *final(storage)),
            match spec_type_arg(func_decl.generic_args@) {
                None => r == Err::<(), ErrorKind>(ErrorKind::InvalidGenericArgs) && same_functions(
                    *old(storage),
                    *final(storage),
                ) && final(self).module@ == old(self).module@,
                Some(id) => match lookup_spec(old(storage).types.entries@, id) {
                    None => r == Err::<(), ErrorKind>(ErrorKind::UnresolvedType) && same_functions(
                        *old(storage),
                        *final(storage),
                    ) && final(self).module@ == old(self).module@,
                    Some(tv) => match tv {
                        TdView::Composite(fvs) => {
                            if old(storage).functions.spec_contains(func_decl.debug_name@) {
                                r == Err::<(), ErrorKind>(ErrorKind::DuplicateSignature)
                                    && same_functions(*old(storage), *final(storage)) && final(self).module@ == old(self).module@
                            } else {
                                r == Ok::<(), ErrorKind>(()) && fn_registered(
                                    old(storage).functions,
                                    final(storage).functions,
                                    func_decl.debug_name@,
                                    fvs,
                                    seq![tv],
                                ) && emitted(
                                    old(self).module@,
                                    final(self).module@,
                                    func_decl.debug_name@,
                                    fvs,
                                    seq![tv],
                                    CallableKind::StructConstruct,
                                )
                            }
                        },
                        _ => r == Err::<(), ErrorKind>(ErrorKind::InvalidGenericArgs)
                            && same_functions(*old(storage), *final(storage)) && final(self).module@ == old(self).module@,
                    },
                },
            },
    {
        let id = match type_arg(&func_decl.generic_args) {
            None => {
                return Err(ErrorKind::InvalidGenericArgs);
            },
            Some(id) => id,
        };
        let (field_args, field_args2, comp) = match storage.types.get(id) {
            None => {
                return Err(ErrorKind::UnresolvedType);
            },
            Some(t) => match t {
                TypeDesc::Composite(fields) => (
                    crate::types::duplicate_vec(fields),
                    crate::types::duplicate_vec(fields),
                    t.duplicate(),
                ),
                _ => {
                    return Err(ErrorKind::InvalidGenericArgs);
                },
            },
        };
        let ghost tv = comp@;
        let ghost fvs = tv->Composite_0;
        let def = FunctionDef { args: field_args, return_types: vec![comp.duplicate()] };
        proof {
            assert(views_of(def.args@) == fvs);
            crate::types::lemma_td_views(def.return_types@, 1);
            assert(views_of(def.return_types@) =~= seq![tv]);
        }
        let name = crate::runtime::copy_bytes(&func_decl.debug_name);
        match storage.functions.insert_new(name, def) {
            Err(e) => {
                return Err(e);
            },
            Ok(()) => {},
        }
        let call = Callable {
            name: crate::runtime::copy_bytes(&func_decl.debug_name),
            args: field_args2,
            results: vec![comp],
            kind: CallableKind::StructConstruct,
        };
        proof {
            assert(views_of(call.args@) == fvs);
            crate::types::lemma_td_views(call.results@, 1);
            assert(views_of(call.results@) =~= seq![tv]);
        }
        self.module.push(call);
        Ok(())
    }

    /// Emits a width-upcast callable for the declaration's two type
    /// arguments, which must resolve to primitives. A strictly widening
    /// cast zero-extends and registers a callable; equal widths need no
    /// callable at all; a narrowing cast is invalid.
    pub fn create_libfunc_upcast(
        &mut self,
        func_decl: &LibfuncInstance,
        storage: &mut Storage,
    ) -> (r: Result<(), ErrorKind>)
        requires
            old(storage).inv(),
        ensures
            final(storage).inv(),
            final(storage).types == old(storage).types,
            same_consts(*old(storage), *final(storage)),
            match spec_two_type_args(func_decl.generic_args@) {
                None => r == Err::<(), ErrorKind>(ErrorKind::InvalidGenericArgs) && same_functions(
                    *old(storage),
                    *final(storage),
                ) && final(self).module@ == old(self).module@,
                Some((src_id, dst_id)) => match (
                    lookup_spec(old(storage).types.entries@, src_id),
                    lookup_spec(old(storage).types.entries@, dst_id),
                ) {
                    (Some(sv), Some(dv)) => match (sv, dv) {
                        (TdView::Simple(sp), TdView::Simple(dp)) => {
                            if crate::types::prim_size(sp) < crate::types::prim_size(dp) {
                                if old(storage).functions.spec_contains(func_decl.debug_name@) {
                                    r == Err::<(), ErrorKind>(ErrorKind::DuplicateSignature)
                                        && same_functions(*old(storage), *final(storage)) && final(self).module@ == old(self).module@
                                } else {
                                    r == Ok::<(), ErrorKind>(()) && fn_registered(
                                        old(storage).functions,
                                        final(storage).functions,
                                        func_decl.debug_name@,
                                        seq![sv],
                                        seq![dv],
                                    ) && emitted(
                                        old(self).module@,
                                        final(self).module@,
                                        func_decl.debug_name@,
                                        seq![sv],
                                        seq![dv],
                                        CallableKind::ZeroExtend,
                                    )
                                }
                            } else if crate::types::prim_size(sp) == crate::types::prim_size(dp) {
                                r == Ok::<(), ErrorKind>(()) && same_functions(
                                    *old(storage),
                                    *final(storage),
                                ) && final(self).module@ == old(self).module@
                            } else {
                                r == Err::<(), ErrorKind>(ErrorKind::InvalidGenericArgs)
                                    && same_functions(*old(storage), *final(storage)) && final(self).module@ == old(self).module@
                            }
                        },
                        _ => r == Err::<(), ErrorKind>(ErrorKind::InvalidGenericArgs)
                            && same_functions(*old(storage), *final(storage)) && final(self).module@ == old(self).module@,
                    },
                    _ => r == Err::<(), ErrorKind>(ErrorKind::UnresolvedType) && same_functions(
                        *old(storage),
                        *final(storage),
                    ) && final(self).module@ == old(self).module@,
                },
            },
    {
        let (src_id, dst_id) = match two_type_args(&func_decl.generic_args) {
            None => {
                return Err(ErrorKind::InvalidGenericArgs);
            },
            Some(p) => p,
        };
        let src = match storage.types.get(src_id) {
            None => {
                return Err(ErrorKind::UnresolvedType);
            },
            Some(t) => t.duplicate(),
        };
        let dst = match storage.types.get(dst_id) {
            None => {
                return Err(ErrorKind::UnresolvedType);
            },
            Some(t) => t.duplicate(),
        };
        let (sp, dp) = match (&src, &dst) {
            (TypeDesc::Simple(a), TypeDesc::Simple(b)) => (*a, *b),
            _ => {
                return Err(ErrorKind::InvalidGenericArgs);
            },
        };
        let ghost sv = src@;
        let ghost dv = dst@;
        let src_size = crate::types::size_of_exec(&src);
        let dst_size = crate::types::size_of_exec(&dst);
        if src_size < dst_size {
            let def = FunctionDef { args: vec![src.duplicate()], return_types: vec![
                dst.duplicate(),
            ] };
            proof {
                crate::types::lemma_td_views(def.args@, 1);
                assert(views_of(def.args@) =~= seq![sv]);
                crate::types::lemma_td_views(def.return_types@, 1);
                assert(views_of(def.return_types@) =~= seq![dv]);
            }
            let name = crate::runtime::copy_bytes(&func_decl.debug_name);
            match storage.functions.insert_new(name, def) {
                Err(e) => {
                    return Err(e);
                },
                Ok(()) => {},
            }
            let call = Callable {
                name: crate::runtime::copy_bytes(&func_decl.debug_name),
                args: vec![src],
                results: vec![dst],
                kind: CallableKind::ZeroExtend,
            };
            proof {
                crate::types::lemma_td_views(call.args@, 1);
                assert(views_of(call.args@) =~= seq![sv]);
                crate::types::lemma_td_views(call.results@, 1);
                assert(views_of(call.results@) =~= seq![dv]);
            }
            self.module.push(call);
            Ok(())
        } else if src_size == dst_size {
            Ok(())
        } else {
            Err(ErrorKind::InvalidGenericArgs)
        }
    }
}


/// The closed set of recognized generic identities, plus a catch-all.
#[derive(Debug, Clone, Copy, PartialEq, Eq, Structural)]
pub enum LibfuncKind {
    FeltConst,
    FeltAdd,
    FeltSub,
    FeltMul,
    Dup,
    StructConstruct,
    StoreTemp,
    Rename,
    U8Const,
    U16Const,
    U32Const,
    U64Const,
    U128Const,
    Upcast,
    /// Bookkeeping identities that lower to nothing.
    NoOp,
    /// Anything else: skipped, deliberately not an error.
    Unrecognized,
}


/// The identity string `felt252_const` as bytes.
pub open spec fn lit_felt252_const() -> Seq<u8> {
    seq![102u8, 101u8, 108u8, 116u8, 50u8, 53u8, 50u8, 95u8, 99u8, 111u8, 110u8, 115u8, 116u8]
}

/// The identity string `felt252_add` as bytes.
pub open spec fn lit_felt252_add() -> Seq<u8> {
    seq![102u8, 101u8, 108u8, 116u8, 50u8, 53u8, 50u8, 95u8, 97u8, 100u8, 100u8]
}

/// The identity string `felt252_sub` as bytes.
pub open spec fn lit_felt252_sub() -> Seq<u8> {
    seq![102u8, 101u8, 108u8, 116u8, 50u8, 53u8, 50u8, 95u8, 115u8, 117u8, 98u8]
}

/// The identity string `felt252_mul` as bytes.
pub open spec fn lit_felt252_mul() -> Seq<u8> {
    seq![102u8, 101u8, 108u8, 116u8, 50u8, 53u8, 50u8, 95u8, 109u8, 117u8, 108u8]
}

/// The identity string `dup` as bytes.
pub open spec fn lit_dup() -> Seq<u8> {
    seq![100u8, 117u8, 112u8]
}

/// The identity string `struct_construct` as bytes.
pub open spec fn lit_struct_construct() -> Seq<u8> {
    seq![115u8, 116u8, 114u8, 117u8, 99u8, 116u8, 95u8, 99u8, 111u8, 110u8, 115u8, 116u8, 114u8, 117u8, 99u8, 116u8]
}

/// The identity string `store_temp` as bytes.
pub open spec fn lit_store_temp() -> Seq<u8> {
    seq![115u8, 116u8, 111u8, 114u8, 101u8, 95u8, 116u8, 101u8, 109u8, 112u8]
}

/// The identity string `rename` as bytes.
pub open spec fn lit_rename() -> Seq<u8> {
    seq![114u8, 101u8, 110u8, 97u8, 109u8, 101u8]
}

/// The identity string `u8_const` as bytes.
pub open spec fn lit_u8_const() -> Seq<u8> {
    seq![117u8, 56u8, 95u8, 99u8, 111u8, 110u8, 115u8, 116u8]
}

/// The identity string `u16_const` as bytes.
pub open spec fn lit_u16_const() -> Seq<u8> {
    seq![117u8, 49u8, 54u8, 95u8, 99u8, 111u8, 110u8, 115u8, 116u8]
}

/// The identity string `u32_const` as bytes.
pub open spec fn lit_u32_const() -> Seq<u8> {
    seq![117u8, 51u8, 50u8, 95u8, 99u8, 111u8, 110u8, 115u8, 116u8]
}

/// The identity string `u64_const` as bytes.
pub open spec fn lit_u64_const() -> Seq<u8> {
    seq![117u8, 54u8, 52u8, 95u8, 99u8, 111u8, 110u8, 115u8, 116u8]
}

/// The identity string `u128_const` as bytes.
pub open spec fn lit_u128_const() -> Seq<u8> {
    seq![117u8, 49u8, 50u8, 56u8, 95u8, 99u8, 111u8, 110u8, 115u8, 116u8]
}

/// The identity string `upcast` as bytes.
pub open spec fn lit_upcast() -> Seq<u8> {
    seq![117u8, 112u8, 99u8, 97u8, 115u8, 116u8]
}

/// The identity string `revoke_ap_tracking` as bytes.
pub open spec fn lit_revoke_ap_tracking() -> Seq<u8> {
    seq![114u8, 101u8, 118u8, 111u8, 107u8, 101u8, 95u8, 97u8, 112u8, 95u8, 116u8, 114u8, 97u8, 99u8, 107u8, 105u8, 110u8, 103u8]
}

/// The identity string `disable_ap_tracking` as bytes.
pub open spec fn lit_disable_ap_tracking() -> Seq<u8> {
    seq![100u8, 105u8, 115u8, 97u8, 98u8, 108u8, 101u8, 95u8, 97u8, 112u8, 95u8, 116u8, 114u8, 97u8, 99u8, 107u8, 105u8, 110u8, 103u8]
}

/// The identity string `drop` as bytes.
pub open spec fn lit_drop() -> Seq<u8> {
    seq![100u8, 114u8, 111u8, 112u8]
}

/// Maps a generic identity string to its recognized kind.
pub open spec fn spec_kind_of(name: Seq<u8>) -> LibfuncKind {
    if name == lit_felt252_const() {
        LibfuncKind::FeltConst
    } else if name == lit_felt252_add() {
        LibfuncKind::FeltAdd
    } else if name == lit_felt252_sub() {
        LibfuncKind::FeltSub
    } else if name == lit_felt252_mul() {
        LibfuncKind::FeltMul
    } else if name == lit_dup() {
        LibfuncKind::Dup
    } else if name == lit_struct_construct() {
        LibfuncKind::StructConstruct
    } else if name == lit_store_temp() {
        LibfuncKind::StoreTemp
    } else if name == lit_rename() {
        LibfuncKind::Rename
    } else if name == lit_u8_const() {
        LibfuncKind::U8Const
    } else if name == lit_u16_const() {
        LibfuncKind::U16Const
    } else if name == lit_u32_const() {
        LibfuncKind::U32Const
    } else if name == lit_u64_const() {
        LibfuncKind::U64Const
    } else if name == lit_u128_const() {
        LibfuncKind::U128Const
    } else if name == lit_upcast() {
        LibfuncKind::Upcast
    } else if name == lit_revoke_ap_tracking() || name == lit_disable_ap_tracking() || name
        == lit_drop() {
        LibfuncKind::NoOp
    } else {
        LibfuncKind::Unrecognized
    }
}

/// Compares a name with a literal identity.
fn name_is<const N: usize>(name: &Vec<u8>, lit: &[u8; N]) -> (r: bool)
    ensures
        r == (name@ == lit@),
{
    if name.len() != N {
        assert(name@ != lit@);
        return false;
    }
    let mut i: usize = 0;
    while i < N
        invariant
            name@.len() == N == lit@.len(),
            i <= N,
            forall|j: int| 0 <= j < i ==> name@[j] == lit@[j],
        decreases N - i,
    {
        if name[i] != lit[i] {
            return false;
        }
        i += 1;
    }
    assert(name@ =~= lit@);
    true
}

/// Recognizes a generic identity string.
pub fn kind_of(name: &Vec<u8>) -> (k: LibfuncKind)
    ensures
        k == spec_kind_of(name@),
{
    let a_felt252_const: [u8; 13] = [102u8, 101u8, 108u8, 116u8, 50u8, 53u8, 50u8, 95u8, 99u8, 111u8, 110u8, 115u8, 116u8];
    proof {
        assert(a_felt252_const@ =~= lit_felt252_const());
    }
    if name_is(name, &a_felt252_const) {
        return LibfuncKind::FeltConst;
    }

    let a_felt252_add: [u8; 11] = [102u8, 101u8, 108u8, 116u8, 50u8, 53u8, 50u8, 95u8, 97u8, 100u8, 100u8];
    proof {
        assert(a_felt252_add@ =~= lit_felt252_add());
    }
    if name_is(name, &a_felt252_add) {
        return LibfuncKind::FeltAdd;
    }

    let a_felt252_sub: [u8; 11] = [102u8, 101u8, 108u8, 116u8, 50u8, 53u8, 50u8, 95u8, 115u8, 117u8, 98u8];
    proof {
        assert(a_felt252_sub@ =~= lit_felt252_sub());
    }
    if name_is(name, &a_felt252_sub) {
        return LibfuncKind::FeltSub;
    }

    let a_felt252_mul: [u8; 11] = [102u8, 101u8, 108u8, 116u8, 50u8, 53u8, 50u8, 95u8, 109u8, 117u8, 108u8];
    proof {
        assert(a_felt252_mul@ =~= lit_felt252_mul());
    }
    if name_is(name, &a_felt252_mul) {
        return LibfuncKind::FeltMul;
    }

    let a_dup: [u8; 3] = [100u8, 117u8, 112u8];
    proof {
        assert(a_dup@ =~= lit_dup());
    }
    if name_is(name, &a_dup) {
        return LibfuncKind::Dup;
    }

    let a_struct_construct: [u8; 16] = [115u8, 116u8, 114u8, 117u8, 99u8, 116u8, 95u8, 99u8, 111u8, 110u8, 115u8, 116u8, 114u8, 117u8, 99u8, 116u8];
    proof {
        assert(a_struct_construct@ =~= lit_struct_construct());
    }
    if name_is(name, &a_struct_construct) {
        return LibfuncKind::StructConstruct;
    }

    let a_store_temp: [u8; 10] = [115u8, 116u8, 111u8, 114u8, 101u8, 95u8, 116u8, 101u8, 109u8, 112u8];
    proof {
        assert(a_store_temp@ =~= lit_store_temp());
    }
    if name_is(name, &a_store_temp) {
        return LibfuncKind::StoreTemp;
    }

    let a_rename: [u8; 6] = [114u8, 101u8, 110u8, 97u8, 109u8, 101u8];
    proof {
        assert(a_rename@ =~= lit_rename());
    }
    if name_is(name, &a_rename) {
        return LibfuncKind::Rename;
    }

    let a_u8_const: [u8; 8] = [117u8, 56u8, 95u8, 99u8, 111u8, 110u8, 115u8, 116u8];
    proof {
        assert(a_u8_const@ =~= lit_u8_const());
    }
    if name_is(name, &a_u8_const) {
        return LibfuncKind::U8Const;
    }

    let a_u16_const: [u8; 9] = [117u8, 49u8, 54u8, 95u8, 99u8, 111u8, 110u8, 115u8, 116u8];
    proof {
        assert(a_u16_const@ =~= lit_u16_const());
    }
    if name_is(name, &a_u16_const) {
        return LibfuncKind::U16Const;
    }

    let a_u32_const: [u8; 9] = [117u8, 51u8, 50u8, 95u8, 99u8, 111u8, 110u8, 115u8, 116u8];
    proof {
        assert(a_u32_const@ =~= lit_u32_const());
    }
    if name_is(name, &a_u32_const) {
        return LibfuncKind::U32Const;
    }

    let a_u64_const: [u8; 9] = [117u8, 54u8, 52u8, 95u8, 99u8, 111u8, 110u8, 115u8, 116u8];
    proof {
        assert(a_u64_const@ =~= lit_u64_const());
    }
    if name_is(name, &a_u64_const) {
        return LibfuncKind::U64Const;
    }

    let a_u128_const: [u8; 10] = [117u8, 49u8, 50u8, 56u8, 95u8, 99u8, 111u8, 110u8, 115u8, 116u8];
    proof {
        assert(a_u128_const@ =~= lit_u128_const());
    }
    if name_is(name, &a_u128_const) {
        return LibfuncKind::U128Const;
    }

    let a_upcast: [u8; 6] = [117u8, 112u8, 99u8, 97u8, 115u8, 116u8];
    proof {
        assert(a_upcast@ =~= lit_upcast());
    }
    if name_is(name, &a_upcast) {
        return LibfuncKind::Upcast;
    }

    let a_revoke_ap_tracking: [u8; 18] = [114u8, 101u8, 118u8, 111u8, 107u8, 101u8, 95u8, 97u8, 112u8, 95u8, 116u8, 114u8, 97u8, 99u8, 107u8, 105u8, 110u8, 103u8];
    proof {
        assert(a_revoke_ap_tracking@ =~= lit_revoke_ap_tracking());
    }
    if name_is(name, &a_revoke_ap_tracking) {
        return LibfuncKind::NoOp;
    }

    let a_disable_ap_tracking: [u8; 19] = [100u8, 105u8, 115u8, 97u8, 98u8, 108u8, 101u8, 95u8, 97u8, 112u8, 95u8, 116u8, 114u8, 97u8, 99u8, 107u8, 105u8, 110u8, 103u8];
    proof {
        assert(a_disable_ap_tracking@ =~= lit_disable_ap_tracking());
    }
    if name_is(name, &a_disable_ap_tracking) {
        return LibfuncKind::NoOp;
    }

    let a_drop: [u8; 4] = [100u8, 114u8, 111u8, 112u8];
    proof {
        assert(a_drop@ =~= lit_drop());
    }
    if name_is(name, &a_drop) {
        return LibfuncKind::NoOp;
    }

    LibfuncKind::Unrecognized
}


/// The shape of one registered signature, as a mathematical value.
#[verifier::ext_equal]
pub struct SigSpec {
    pub name: Seq<u8>,
    pub args: Seq<TdView>,
    pub rets: Seq<TdView>,
}

/// One recorded constant, as a mathematical value.
#[verifier::ext_equal]
pub struct ConstSpec {
    pub name: Seq<u8>,
    pub value: U256,
}

/// The shape of one emitted callable, as a mathematical value.
#[verifier::ext_equal]
pub struct CallSpec {
    pub name: Seq<u8>,
    pub args: Seq<TdView>,
    pub rets: Seq<TdView>,
    pub kind: CallableKind,
}

/// The mathematical model of the growing lowering state: the registered
/// signatures, the six constant tables and the emitted module, all in
/// insertion order. The type registry is not part of it — the pass never
/// writes the registry.
#[verifier::ext_equal]
pub struct PassState {
    pub sigs: Seq<SigSpec>,
    pub felt_consts: Seq<ConstSpec>,
    pub u8_consts: Seq<ConstSpec>,
    pub u16_consts: Seq<ConstSpec>,
    pub u32_consts: Seq<ConstSpec>,
    pub u64_consts: Seq<ConstSpec>,
    pub u128_consts: Seq<ConstSpec>,
    pub module: Seq<CallSpec>,
}

/// The signature table as a sequence of signature shapes.
pub open spec fn sig_views(t: Table<FunctionDef>) -> Seq<SigSpec> {
    Seq::new(
        t.entries@.len(),
        |i: int|
            SigSpec {
                name: t.entries@[i].name@,
                args: views_of(t.entries@[i].value.args@),
                rets: views_of(t.entries@[i].value.return_types@),
            },
    )
}

/// A constant table as a sequence of recorded constants.
pub open spec fn const_views(t: Table<U256>) -> Seq<ConstSpec> {
    Seq::new(
        t.entries@.len(),
        |i: int| ConstSpec { name: t.entries@[i].name@, value: t.entries@[i].value },
    )
}

/// The module as a sequence of callable shapes.
pub open spec fn module_views(m: Seq<Callable>) -> Seq<CallSpec> {
    Seq::new(
        m.len(),
        |i: int|
            CallSpec {
                name: m[i].name@,
                args: views_of(m[i].args@),
                rets: views_of(m[i].results@),
                kind: m[i].kind,
            },
    )
}

/// The model of the whole mutable state of one pass.
pub open spec fn state_of(c: Compiler, s: Storage) -> PassState {
    PassState {
        sigs: sig_views(s.functions),
        felt_consts: const_views(s.felt_consts),
        u8_consts: const_views(s.u8_consts),
        u16_consts: const_views(s.u16_consts),
        u32_consts: const_views(s.u32_consts),
        u64_consts: const_views(s.u64_consts),
        u128_consts: const_views(s.u128_consts),
        module: module_views(c.module@),
    }
}

/// A signature under this name exists.
pub open spec fn sig_taken(sigs: Seq<SigSpec>, name: Seq<u8>) -> bool {
    exists|i: int| 0 <= i < sigs.len() && (#[trigger] sigs[i]).name == name
}

/// A constant under this name exists.
pub open spec fn const_taken(cs: Seq<ConstSpec>, name: Seq<u8>) -> bool {
    exists|i: int| 0 <= i < cs.len() && (#[trigger] cs[i]).name == name
}

/// Name occupancy agrees between a signature table and its model.
pub proof fn lemma_sig_taken(t: Table<FunctionDef>, name: Seq<u8>)
    ensures
        sig_taken(sig_views(t), name) == t.spec_contains(name),
{
    if t.spec_contains(name) {
        let i = choose|i: int|
            0 <= i < t.entries@.len() && (#[trigger] t.entries@[i]).name@ == name;
        assert(sig_views(t)[i].name == name);
    }
    if sig_taken(sig_views(t), name) {
        let i = choose|i: int|
            0 <= i < sig_views(t).len() && (#[trigger] sig_views(t)[i]).name == name;
        assert(t.entries@[i].name@ == name);
    }
}

/// Name occupancy agrees between a constant table and its model.
pub proof fn lemma_const_taken(t: Table<U256>, name: Seq<u8>)
    ensures
        const_taken(const_views(t), name) == t.spec_contains(name),
{
    if t.spec_contains(name) {
        let i = choose|i: int|
            0 <= i < t.entries@.len() && (#[trigger] t.entries@[i]).name@ == name;
        assert(const_views(t)[i].name == name);
    }
    if const_taken(const_views(t), name) {
        let i = choose|i: int|
            0 <= i < const_views(t).len() && (#[trigger] const_views(t)[i]).name == name;
        assert(t.entries@[i].name@ == name);
    }
}

/// Registering one signature pushes its shape onto the model.
pub proof fn lemma_sig_views_push(
    before: Table<FunctionDef>,
    after: Table<FunctionDef>,
    name: Seq<u8>,
    args: Seq<TdView>,
    rets: Seq<TdView>,
)
    requires
        fn_registered(before, after, name, args, rets),
    ensures
        sig_views(after) == sig_views(before).push(SigSpec { name, args, rets }),
{
    assert(sig_views(after) =~= sig_views(before).push(SigSpec { name, args, rets }));
}

/// Recording one constant pushes it onto the model.
pub proof fn lemma_const_views_push(
    before: Table<U256>,
    after: Table<U256>,
    name: Seq<u8>,
    value: U256,
)
    requires
        const_recorded(before, after, name, value),
    ensures
        const_views(after) == const_views(before).push(ConstSpec { name, value }),
{
    assert(const_views(after) =~= const_views(before).push(ConstSpec { name, value }));
}

/// Emitting one callable pushes its shape onto the model.
pub proof fn lemma_module_views_push(
    before: Seq<Callable>,
    after: Seq<Callable>,
    name: Seq<u8>,
    args: Seq<TdView>,
    rets: Seq<TdView>,
    kind: CallableKind,
)
    requires
        emitted(before, after, name, args, rets, kind),
    ensures
        module_views(after) == module_views(before).push(CallSpec { name, args, rets, kind }),
{
    assert(module_views(after) =~= module_views(before).push(
        CallSpec { name, args, rets, kind },
    ));
}

/// Equal entries give an equal signature model.
pub proof fn lemma_sig_views_eq(a: Table<FunctionDef>, b: Table<FunctionDef>)
    requires
        a.entries@ == b.entries@,
    ensures
        sig_views(a) == sig_views(b),
{
    assert(sig_views(a) =~= sig_views(b));
}

/// Equal entries give an equal constant model.
pub proof fn lemma_const_views_eq(a: Table<U256>, b: Table<U256>)
    requires
        a.entries@ == b.entries@,
    ensures
        const_views(a) == const_views(b),
{
    assert(const_views(a) =~= const_views(b));
}


/// One lowering step of a constant declaration over a constant table's
/// model: exactly one literal argument, a fresh name, the value recorded.
pub open spec fn const_step(cs: Seq<ConstSpec>, d: LibfuncInstance) -> Result<
    Seq<ConstSpec>,
    ErrorKind,
> {
    match spec_value_arg(d.generic_args@) {
        None => Err(ErrorKind::InvalidGenericArgs),
        Some(v) => {
            if const_taken(cs, d.debug_name@) {
                Err(ErrorKind::DuplicateSignature)
            } else {
                Ok(cs.push(ConstSpec { name: d.debug_name@, value: v }))
            }
        },
    }
}

/// One lowering step that registers a signature `args -> rets` under the
/// declaration's name and emits a callable of the given kind.
pub open spec fn register_step(
    st: PassState,
    d: LibfuncInstance,
    args: Seq<TdView>,
    rets: Seq<TdView>,
    kind: CallableKind,
) -> Result<PassState, ErrorKind> {
    if sig_taken(st.sigs, d.debug_name@) {
        Err(ErrorKind::DuplicateSignature)
    } else {
        Ok(
            PassState {
                sigs: st.sigs.push(SigSpec { name: d.debug_name@, args, rets }),
                module: st.module.push(CallSpec { name: d.debug_name@, args, rets, kind }),
                ..st
            },
        )
    }
}

/// One lowering step of a declaration whose single type argument gives
/// both the argument and the duplicated or passed-through results.
pub open spec fn unary_step(
    types: Seq<crate::tables::TypeEntry>,
    st: PassState,
    d: LibfuncInstance,
    duplicated: bool,
) -> Result<PassState, ErrorKind> {
    match spec_type_arg(d.generic_args@) {
        None => Err(ErrorKind::InvalidGenericArgs),
        Some(id) => match lookup_spec(types, id) {
            None => Err(ErrorKind::UnresolvedType),
            Some(tv) => {
                if duplicated {
                    register_step(st, d, seq![tv], seq![tv, tv], CallableKind::Dup)
                } else {
                    register_step(st, d, seq![tv], seq![tv], CallableKind::Identity)
                }
            },
        },
    }
}

/// One lowering step of a field-element arithmetic declaration.
pub open spec fn felt_op_step(st: PassState, d: LibfuncInstance, op: BinaryOp) -> Result<
    PassState,
    ErrorKind,
> {
    let felt = TdView::Simple(crate::types::PrimType::Felt);
    register_step(st, d, seq![felt, felt], seq![felt], CallableKind::FeltBinOp(op))
}

/// One lowering step of a composite-construction declaration.
pub open spec fn struct_step(
    types: Seq<crate::tables::TypeEntry>,
    st: PassState,
    d: LibfuncInstance,
) -> Result<PassState, ErrorKind> {
    match spec_type_arg(d.generic_args@) {
        None => Err(ErrorKind::InvalidGenericArgs),
        Some(id) => match lookup_spec(types, id) {
            None => Err(ErrorKind::UnresolvedType),
            Some(tv) => match tv {
                TdView::Composite(fvs) => register_step(
                    st,
                    d,
                    fvs,
                    seq![tv],
                    CallableKind::StructConstruct,
                ),
                _ => Err(ErrorKind::InvalidGenericArgs),
            },
        },
    }
}

/// One lowering step of a width-upcast declaration: extend, silently do
/// nothing, or fail, by the width comparison.
pub open spec fn upcast_step(
    types: Seq<crate::tables::TypeEntry>,
    st: PassState,
    d: LibfuncInstance,
) -> Result<PassState, ErrorKind> {
    match spec_two_type_args(d.generic_args@) {
        None => Err(ErrorKind::InvalidGenericArgs),
        Some((src_id, dst_id)) => match (lookup_spec(types, src_id), lookup_spec(types, dst_id)) {
            (Some(sv), Some(dv)) => match (sv, dv) {
                (TdView::Simple(sp), TdView::Simple(dp)) => {
                    if crate::types::prim_size(sp) < crate::types::prim_size(dp) {
                        register_step(st, d, seq![sv], seq![dv], CallableKind::ZeroExtend)
                    } else if crate::types::prim_size(sp) == crate::types::prim_size(dp) {
                        Ok(st)
                    } else {
                        Err(ErrorKind::InvalidGenericArgs)
                    }
                },
                _ => Err(ErrorKind::InvalidGenericArgs),
            },
            _ => Err(ErrorKind::UnresolvedType),
        },
    }
}

/// What lowering one declaration does to the state: the dispatch on its
/// generic identity. Bookkeeping and unrecognized identities change
/// nothing and never fail.
pub open spec fn decl_step(
    types: Seq<crate::tables::TypeEntry>,
    st: PassState,
    d: LibfuncInstance,
) -> Result<PassState, ErrorKind> {
    match spec_kind_of(d.generic_id@) {
        LibfuncKind::FeltConst => match const_step(st.felt_consts, d) {
            Err(k) => Err(k),
            Ok(cs) => Ok(PassState { felt_consts: cs, ..st }),
        },
        LibfuncKind::FeltAdd => felt_op_step(st, d, BinaryOp::Add),
        LibfuncKind::FeltSub => felt_op_step(st, d, BinaryOp::Sub),
        LibfuncKind::FeltMul => felt_op_step(st, d, BinaryOp::Mul),
        LibfuncKind::Dup => unary_step(types, st, d, true),
        LibfuncKind::StructConstruct => struct_step(types, st, d),
        LibfuncKind::StoreTemp => unary_step(types, st, d, false),
        LibfuncKind::Rename => unary_step(types, st, d, false),
        LibfuncKind::U8Const => match const_step(st.u8_consts, d) {
            Err(k) => Err(k),
            Ok(cs) => Ok(PassState { u8_consts: cs, ..st }),
        },
        LibfuncKind::U16Const => match const_step(st.u16_consts, d) {
            Err(k) => Err(k),
            Ok(cs) => Ok(PassState { u16_consts: cs, ..st }),
        },
        LibfuncKind::U32Const => match const_step(st.u32_consts, d) {
            Err(k) => Err(k),
            Ok(cs) => Ok(PassState { u32_consts: cs, ..st }),
        },
        LibfuncKind::U64Const => match const_step(st.u64_consts, d) {
            Err(k) => Err(k),
            Ok(cs) => Ok(PassState { u64_consts: cs, ..st }),
        },
        LibfuncKind::U128Const => match const_step(st.u128_consts, d) {
            Err(k) => Err(k),
            Ok(cs) => Ok(PassState { u128_consts: cs, ..st }),
        },
        LibfuncKind::Upcast => upcast_step(types, st, d),
        LibfuncKind::NoOp => Ok(st),
        LibfuncKind::Unrecognized => Ok(st),
    }
}

/// How a whole pass ends: the final state on success, or — failing
/// fast — the state reached before the first failing declaration,
/// together with that declaration's error kind, identifier and generic
/// identity. Declarations after the failing one contribute nothing.
#[verifier::ext_equal]
pub enum PassResult {
    Done(PassState),
    Failed(PassState, ErrorKind, u64, Seq<u8>),
}

/// Folds `decl_step` over the declarations in program order.
pub open spec fn run_pass(
    types: Seq<crate::tables::TypeEntry>,
    st: PassState,
    decls: Seq<LibfuncInstance>,
) -> PassResult
    decreases decls.len(),
{
    if decls.len() == 0 {
        PassResult::Done(st)
    } else {
        match decl_step(types, st, decls[0]) {
            Err(k) => PassResult::Failed(st, k, decls[0].decl_id, decls[0].generic_id@),
            Ok(st2) => run_pass(types, st2, decls.drop_first()),
        }
    }
}

/// Equal table entries and module give equal state models.
pub proof fn lemma_state_eq(c1: Compiler, s1: Storage, c2: Compiler, s2: Storage)
    requires
        s1.functions.entries@ == s2.functions.entries@,
        s1.felt_consts.entries@ == s2.felt_consts.entries@,
        s1.u8_consts.entries@ == s2.u8_consts.entries@,
        s1.u16_consts.entries@ == s2.u16_consts.entries@,
        s1.u32_consts.entries@ == s2.u32_consts.entries@,
        s1.u64_consts.entries@ == s2.u64_consts.entries@,
        s1.u128_consts.entries@ == s2.u128_consts.entries@,
        c1.module@ == c2.module@,
    ensures
        state_of(c1, s1) == state_of(c2, s2),
{
    lemma_sig_views_eq(s1.functions, s2.functions);
    lemma_const_views_eq(s1.felt_consts, s2.felt_consts);
    lemma_const_views_eq(s1.u8_consts, s2.u8_consts);
    lemma_const_views_eq(s1.u16_consts, s2.u16_consts);
    lemma_const_views_eq(s1.u32_consts, s2.u32_consts);
    lemma_const_views_eq(s1.u64_consts, s2.u64_consts);
    lemma_const_views_eq(s1.u128_consts, s2.u128_consts);
    assert(state_of(c1, s1) =~= state_of(c2, s2));
}

/// A constant builder's outcome matches `const_step` on the table model.
pub proof fn lemma_const_outcome(
    prev_t: Table<U256>,
    new_t: Table<U256>,
    d: LibfuncInstance,
    step: Result<(), ErrorKind>,
)
    requires
        match spec_value_arg(d.generic_args@) {
            None => step == Err::<(), ErrorKind>(ErrorKind::InvalidGenericArgs) && new_t.entries@
                == prev_t.entries@,
            Some(v) => {
                if prev_t.spec_contains(d.debug_name@) {
                    step == Err::<(), ErrorKind>(ErrorKind::DuplicateSignature) && new_t.entries@
                        == prev_t.entries@
                } else {
                    step == Ok::<(), ErrorKind>(()) && const_recorded(
                        prev_t,
                        new_t,
                        d.debug_name@,
                        v,
                    )
                }
            },
        },
    ensures
        match step {
            Ok(()) => const_step(const_views(prev_t), d) == Ok::<Seq<ConstSpec>, ErrorKind>(
                const_views(new_t),
            ),
            Err(e) => const_step(const_views(prev_t), d) == Err::<Seq<ConstSpec>, ErrorKind>(e)
                && const_views(new_t) == const_views(prev_t),
        },
{
    lemma_const_taken(prev_t, d.debug_name@);
    match spec_value_arg(d.generic_args@) {
        None => {
            lemma_const_views_eq(prev_t, new_t);
        },
        Some(v) => {
            if prev_t.spec_contains(d.debug_name@) {
                lemma_const_views_eq(prev_t, new_t);
            } else {
                lemma_const_views_push(prev_t, new_t, d.debug_name@, v);
            }
        },
    }
}

/// A builder's register-or-collide outcome matches `register_step` on
/// the state model, provided the constant tables were untouched.
pub proof fn lemma_register_outcome(
    prev_c: Compiler,
    prev_s: Storage,
    c: Compiler,
    s: Storage,
    d: LibfuncInstance,
    step: Result<(), ErrorKind>,
    args: Seq<TdView>,
    rets: Seq<TdView>,
    kind: CallableKind,
)
    requires
        same_consts(prev_s, s),
        if prev_s.functions.spec_contains(d.debug_name@) {
            step == Err::<(), ErrorKind>(ErrorKind::DuplicateSignature) && same_functions(
                prev_s,
                s,
            ) && c.module@ == prev_c.module@
        } else {
            step == Ok::<(), ErrorKind>(()) && fn_registered(
                prev_s.functions,
                s.functions,
                d.debug_name@,
                args,
                rets,
            ) && emitted(prev_c.module@, c.module@, d.debug_name@, args, rets, kind)
        },
    ensures
        match step {
            Ok(()) => register_step(state_of(prev_c, prev_s), d, args, rets, kind) == Ok::<
                PassState,
                ErrorKind,
            >(state_of(c, s)),
            Err(e) => register_step(state_of(prev_c, prev_s), d, args, rets, kind) == Err::<
                PassState,
                ErrorKind,
            >(e) && state_of(c, s) == state_of(prev_c, prev_s),
        },
{
    lemma_sig_taken(prev_s.functions, d.debug_name@);
    if prev_s.functions.spec_contains(d.debug_name@) {
        lemma_state_eq(prev_c, prev_s, c, s);
    } else {
        lemma_sig_views_push(prev_s.functions, s.functions, d.debug_name@, args, rets);
        lemma_module_views_push(prev_c.module@, c.module@, d.debug_name@, args, rets, kind);
        lemma_const_views_eq(prev_s.felt_consts, s.felt_consts);
        lemma_const_views_eq(prev_s.u8_consts, s.u8_consts);
        lemma_const_views_eq(prev_s.u16_consts, s.u16_consts);
        lemma_const_views_eq(prev_s.u32_consts, s.u32_consts);
        lemma_const_views_eq(prev_s.u64_consts, s.u64_consts);
        lemma_const_views_eq(prev_s.u128_consts, s.u128_consts);
        assert(state_of(c, s) =~= (PassState {
            sigs: state_of(prev_c, prev_s).sigs.push(SigSpec { name: d.debug_name@, args, rets }),
            module: state_of(prev_c, prev_s).module.push(
                CallSpec { name: d.debug_name@, args, rets, kind },
            ),
            ..state_of(prev_c, prev_s)
        }));
    }
}

impl Compiler {
    /// Drives the whole lowering pass: dispatches every declaration in
    /// program order on its generic identity to the matching builder.
    /// The result is pinned to [`run_pass`], the mathematical fold of
    /// [`decl_step`] over the declarations: success happens exactly when
    /// every declaration lowers, with the final tables and module equal
    /// to the fold's state; the first failing declaration aborts the
    /// pass with its error kind, identifier and identity, the state
    /// holding the effects of the declarations before it and nothing of
    /// it or of any later one. Bookkeeping and unrecognized identities
    /// change nothing and never fail.
    pub fn process_libfuncs(
        &mut self,
        decls: &Vec<LibfuncInstance>,
        storage: &mut Storage,
    ) -> (r: Result<(), LoweringError>)
        requires
            old(storage).inv(),
        ensures
            final(storage).inv(),
            final(storage).types == old(storage).types,
            ({
                let outcome = run_pass(
                    old(storage).types.entries@,
                    state_of(*old(self), *old(storage)),
                    decls@,
                );
                match r {
                    Ok(()) => outcome == PassResult::Done(
                        state_of(*final(self), *final(storage)),
                    ),
                    Err(e) => outcome == PassResult::Failed(
                        state_of(*final(self), *final(storage)),
                        e.kind,
                        e.decl_id,
                        e.generic_id@,
                    ),
                }
            }),
    {
        let ghost types0 = old(storage).types.entries@;
        let ghost st0 = state_of(*old(self), *old(storage));
        let n = decls.len();
        let mut i: usize = 0;
        proof {
            assert(decls@.skip(0) =~= decls@);
        }
        while i < n
            invariant
                n == decls@.len(),
                i <= n,
                storage.inv(),
                storage.types == old(storage).types,
                types0 == old(storage).types.entries@,
                st0 == state_of(*old(self), *old(storage)),
                run_pass(types0, st0, decls@) == run_pass(
                    types0,
                    state_of(*self, *storage),
                    decls@.skip(i as int),
                ),
            decreases n - i,
        {
            let decl = &decls[i];
            let ghost d = decls@[i as int];
            let ghost prev_c = *self;
            let ghost prev_s = *storage;
            let ghost pre = state_of(prev_c, prev_s);
            let k0 = kind_of(&decl.generic_id);
            let step: Result<(), ErrorKind> = match k0 {
                LibfuncKind::FeltConst => self.create_libfunc_felt_const(decl, storage),
                LibfuncKind::FeltAdd => self.create_libfunc_felt_binary_op(
                    decl,
                    storage,
                    BinaryOp::Add,
                ),
                LibfuncKind::FeltSub => self.create_libfunc_felt_binary_op(
                    decl,
                    storage,
                    BinaryOp::Sub,
                ),
                LibfuncKind::FeltMul => self.create_libfunc_felt_binary_op(
                    decl,
                    storage,
                    BinaryOp::Mul,
                ),
                LibfuncKind::Dup => self.create_libfunc_dup(decl, storage),
                LibfuncKind::StructConstruct => self.create_libfunc_struct_construct(
                    decl,
                    storage,
                ),
                LibfuncKind::StoreTemp => self.create_libfunc_store_temp(decl, storage),
                LibfuncKind::Rename => self.create_libfunc_store_temp(decl, storage),
                LibfuncKind::U8Const => self.create_libfunc_u8_const(decl, storage),
                LibfuncKind::U16Const => self.create_libfunc_u16_const(decl, storage),
                LibfuncKind::U32Const => self.create_libfunc_u32_const(decl, storage),
                LibfuncKind::U64Const => self.create_libfunc_u64_const(decl, storage),
                LibfuncKind::U128Const => self.create_libfunc_u128_const(decl, storage),
                LibfuncKind::Upcast => self.create_libfunc_upcast(decl, storage),
                LibfuncKind::NoOp => Ok(()),
                LibfuncKind::Unrecognized => Ok(()),
            };
            proof {
                let felt = TdView::Simple(crate::types::PrimType::Felt);
                match k0 {
                    LibfuncKind::FeltConst => {
                        lemma_const_outcome(prev_s.felt_consts, storage.felt_consts, d, step);
                        if step is Ok {
                            assert(state_of(*self, *storage) =~= (PassState {
                                felt_consts: const_views(storage.felt_consts),
                                ..pre
                            }));
                        } else {
                            lemma_state_eq(prev_c, prev_s, *self, *storage);
                        }
                    },
                    LibfuncKind::U8Const => {
                        lemma_const_outcome(prev_s.u8_consts, storage.u8_consts, d, step);
                        if step is Ok {
                            assert(state_of(*self, *storage) =~= (PassState {
                                u8_consts: const_views(storage.u8_consts),
                                ..pre
                            }));
                        } else {
                            lemma_state_eq(prev_c, prev_s, *self, *storage);
                        }
                    },
                    LibfuncKind::U16Const => {
                        lemma_const_outcome(prev_s.u16_consts, storage.u16_consts, d, step);
                        if step is Ok {
                            assert(state_of(*self, *storage) =~= (PassState {
                                u16_consts: const_views(storage.u16_consts),
                                ..pre
                            }));
                        } else {
                            lemma_state_eq(prev_c, prev_s, *self, *storage);
                        }
                    },
                    LibfuncKind::U32Const => {
                        lemma_const_outcome(prev_s.u32_consts, storage.u32_consts, d, step);
                        if step is Ok {
                            assert(state_of(*self, *storage) =~= (PassState {
                                u32_consts: const_views(storage.u32_consts),
                                ..pre
                            }));
                        } else {
                            lemma_state_eq(prev_c, prev_s, *self, *storage);
                        }
                    },
                    LibfuncKind::U64Const => {
                        lemma_const_outcome(prev_s.u64_consts, storage.u64_consts, d, step);
                        if step is Ok {
                            assert(state_of(*self, *storage) =~= (PassState {
                                u64_consts: const_views(storage.u64_consts),
                                ..pre
                            }));
                        } else {
                            lemma_state_eq(prev_c, prev_s, *self, *storage);
                        }
                    },
                    LibfuncKind::U128Const => {
                        lemma_const_outcome(prev_s.u128_consts, storage.u128_consts, d, step);
                        if step is Ok {
                            assert(state_of(*self, *storage) =~= (PassState {
                                u128_consts: const_views(storage.u128_consts),
                                ..pre
                            }));
                        } else {
                            lemma_state_eq(prev_c, prev_s, *self, *storage);
                        }
                    },
                    LibfuncKind::FeltAdd => {
                        lemma_register_outcome(
                            prev_c,
                            prev_s,
                            *self,
                            *storage,
                            d,
                            step,
                            seq![felt, felt],
                            seq![felt],
                            CallableKind::FeltBinOp(BinaryOp::Add),
                        );
                    },
                    LibfuncKind::FeltSub => {
                        lemma_register_outcome(
                            prev_c,
                            prev_s,
                            *self,
                            *storage,
                            d,
                            step,
                            seq![felt, felt],
                            seq![felt],
                            CallableKind::FeltBinOp(BinaryOp::Sub),
                        );
                    },
                    LibfuncKind::FeltMul => {
                        lemma_register_outcome(
                            prev_c,
                            prev_s,
                            *self,
                            *storage,
                            d,
                            step,
                            seq![felt, felt],
                            seq![felt],
                            CallableKind::FeltBinOp(BinaryOp::Mul),
                        );
                    },
                    LibfuncKind::Dup => {
                        match spec_type_arg(d.generic_args@) {
                            None => {
                                lemma_state_eq(prev_c, prev_s, *self, *storage);
                            },
                            Some(id) => match lookup_spec(types0, id) {
                                None => {
                                    lemma_state_eq(prev_c, prev_s, *self, *storage);
                                },
                                Some(tv) => {
                                    lemma_register_outcome(
                                        prev_c,
                                        prev_s,
                                        *self,
                                        *storage,
                                        d,
                                        step,
                                        seq![tv],
                                        seq![tv, tv],
                                        CallableKind::Dup,
                                    );
                                },
                            },
                        }
                    },
                    LibfuncKind::StoreTemp | LibfuncKind::Rename => {
                        match spec_type_arg(d.generic_args@) {
                            None => {
                                lemma_state_eq(prev_c, prev_s, *self, *storage);
                            },
                            Some(id) => match lookup_spec(types0, id) {
                                None => {
                                    lemma_state_eq(prev_c, prev_s, *self, *storage);
                                },
                                Some(tv) => {
                                    lemma_register_outcome(
                                        prev_c,
                                        prev_s,
                                        *self,
                                        *storage,
                                        d,
                                        step,
                                        seq![tv],
                                        seq![tv],
                                        CallableKind::Identity,
                                    );
                                },
                            },
                        }
                    },
                    LibfuncKind::StructConstruct => {
                        match spec_type_arg(d.generic_args@) {
                            None => {
                                lemma_state_eq(prev_c, prev_s, *self, *storage);
                            },
                            Some(id) => match lookup_spec(types0, id) {
                                None => {
                                    lemma_state_eq(prev_c, prev_s, *self, *storage);
                                },
                                Some(tv) => match tv {
                                    TdView::Composite(fvs) => {
                                        lemma_register_outcome(
                                            prev_c,
                                            prev_s,
                                            *self,
                                            *storage,
                                            d,
                                            step,
                                            fvs,
                                            seq![tv],
                                            CallableKind::StructConstruct,
                                        );
                                    },
                                    _ => {
                                        lemma_state_eq(prev_c, prev_s, *self, *storage);
                                    },
                                },
                            },
                        }
                    },
                    LibfuncKind::Upcast => {
                        match spec_two_type_args(d.generic_args@) {
                            None => {
                                lemma_state_eq(prev_c, prev_s, *self, *storage);
                            },
                            Some((src_id, dst_id)) => match (
                                lookup_spec(types0, src_id),
                                lookup_spec(types0, dst_id),
                            ) {
                                (Some(sv), Some(dv)) => match (sv, dv) {
                                    (TdView::Simple(sp), TdView::Simple(dp)) => {
                                        if crate::types::prim_size(sp) < crate::types::prim_size(
                                            dp,
                                        ) {
                                            lemma_register_outcome(
                                                prev_c,
                                                prev_s,
                                                *self,
                                                *storage,
                                                d,
                                                step,
                                                seq![sv],
                                                seq![dv],
                                                CallableKind::ZeroExtend,
                                            );
                                        } else {
                                            lemma_state_eq(prev_c, prev_s, *self, *storage);
                                        }
                                    },
                                    _ => {
                                        lemma_state_eq(prev_c, prev_s, *self, *storage);
                                    },
                                },
                                _ => {
                                    lemma_state_eq(prev_c, prev_s, *self, *storage);
                                },
                            },
                        }
                    },
                    LibfuncKind::NoOp | LibfuncKind::Unrecognized => {
                        lemma_state_eq(prev_c, prev_s, *self, *storage);
                    },
                }
                assert(match step {
                    Ok(()) => decl_step(types0, pre, d) == Ok::<PassState, ErrorKind>(
                        state_of(*self, *storage),
                    ),
                    Err(e) => decl_step(types0, pre, d) == Err::<PassState, ErrorKind>(e)
                        && state_of(*self, *storage) == pre,
                });
                assert(decls@.skip(i as int)[0] == d);
                assert(decls@.skip(i as int).drop_first() =~= decls@.skip(i as int + 1));
            }
            match step {
                Err(e) => {
                    proof {
                        assert(run_pass(types0, pre, decls@.skip(i as int))
                            == PassResult::Failed(pre, e, d.decl_id, d.generic_id@));
                    }
                    return Err(
                        LoweringError {
                            kind: e,
                            decl_id: decl.decl_id,
                            generic_id: crate::runtime::copy_bytes(&decl.generic_id),
                        },
                    );
                },
                Ok(()) => {
                    proof {
                        assert(run_pass(types0, pre, decls@.skip(i as int)) == run_pass(
                            types0,
                            state_of(*self, *storage),
                            decls@.skip(i as int + 1),
                        ));
                    }
                },
            }
            i += 1;
        }
        proof {
            assert(decls@.skip(n as int).len() == 0);
        }
        Ok(())
    }
}

} // verus!
