//! Boundary lowering: the mapping from one type descriptor to the ordered
//! list of ABI-level parameters it expands to.
//!
//! The same rules drive both renderers, so the producer-side shims and the
//! consumer-side declarations always agree: slices and strings expand to a
//! `(data, len)` pair, callbacks to a function pointer followed by one
//! opaque context pointer, and everything else passes through unchanged.

use vstd::prelude::*;
use crate::model::{FnInputs, Mutability, Ownership, SliceElem, TypeDescriptor};

verus! {

/// The raw ABI-level type of one expanded parameter.
pub enum LoweredTy {
    /// The data pointer of a slice or string expansion.
    DataPtr(Mutability, SliceElem),
    /// The element count of a slice or string expansion.
    SliceLen,
    /// The opaque context pointer that accompanies a callback.
    CtxPtr,
    /// A raw function pointer: expanded input types (context pointer
    /// first), and the output type.
    FnPtr(Box<LoweredTys>, Box<TypeDescriptor>),
    /// Any other type crosses the boundary unchanged.
    Direct(TypeDescriptor),
}

/// An ordered list of raw ABI-level types.
pub enum LoweredTys {
    Nil,
    Cons(LoweredTy, Box<LoweredTys>),
}

/// One expanded ABI parameter: its raw type and its synthetic name.
pub struct AbiParam {
    pub lowered: LoweredTy,
    pub name: String,
}

/// Whether the data pointer of a slice expansion is mutable: owned data
/// always is (the callee reclaims it), borrowed primitive slices follow
/// their borrow, borrowed text is always read through a const pointer.
pub open spec fn spec_data_ptr_mut(own: Ownership, elem: SliceElem) -> Mutability {
    match elem {
        SliceElem::Primitive(_) => match own {
            Ownership::Borrowed(m) => m,
            Ownership::Owned => Mutability::Mutable,
        },
        SliceElem::Utf8 => match own {
            Ownership::Borrowed(_) => Mutability::Immutable,
            Ownership::Owned => Mutability::Mutable,
        },
        SliceElem::Utf16 => match own {
            Ownership::Borrowed(_) => Mutability::Immutable,
            Ownership::Owned => Mutability::Mutable,
        },
        SliceElem::Str8View => Mutability::Immutable,
        SliceElem::Str16View => Mutability::Immutable,
    }
}

pub fn data_ptr_mut(own: Ownership, elem: SliceElem) -> (r: Mutability)
    ensures
        r == spec_data_ptr_mut(own, elem),
{
    match elem {
        SliceElem::Primitive(_) => match own {
            Ownership::Borrowed(m) => m,
            Ownership::Owned => Mutability::Mutable,
        },
        SliceElem::Utf8 | SliceElem::Utf16 => match own {
            Ownership::Borrowed(_) => Mutability::Immutable,
            Ownership::Owned => Mutability::Mutable,
        },
        SliceElem::Str8View | SliceElem::Str16View => Mutability::Immutable,
    }
}

/// How many ABI parameters one declared parameter expands to.
pub open spec fn spec_boundary_len(ty: TypeDescriptor) -> int {
    match ty {
        TypeDescriptor::Slice(_, _, _) => 2,
        TypeDescriptor::Function(_, _) => 2,
        _ => 1,
    }
}

/// How many ABI parameters the generic (non-callback) expansion yields.
pub open spec fn spec_aux_len(ty: TypeDescriptor) -> int {
    match ty {
        TypeDescriptor::Slice(_, _, _) => 2,
        _ => 1,
    }
}

/// The raw input types of a lowered callback, one input at a time; a
/// slice-like input contributes its `(data, len)` pair, every other input
/// contributes itself. Callback-typed inputs of a callback are not
/// re-expanded: they pass through the generic path, so the expansion never
/// recurses more than one level deep.
pub open spec fn spec_fnptr_input_tys(inputs: FnInputs) -> LoweredTys
    decreases inputs,
{
    match inputs {
        FnInputs::Nil => LoweredTys::Nil,
        FnInputs::Cons(head, tail) => match head.ty {
            TypeDescriptor::Slice(own, elem, _) => LoweredTys::Cons(
                LoweredTy::DataPtr(spec_data_ptr_mut(own, elem), elem),
                Box::new(
                    LoweredTys::Cons(LoweredTy::SliceLen, Box::new(spec_fnptr_input_tys(*tail))),
                ),
            ),
            _ => LoweredTys::Cons(
                LoweredTy::Direct(head.ty),
                Box::new(spec_fnptr_input_tys(*tail)),
            ),
        },
    }
}

/// What the expansion of a non-callback parameter must look like.
pub open spec fn aux_params_ok(ty: TypeDescriptor, name: Seq<char>, r: Seq<AbiParam>) -> bool {
    match ty {
        TypeDescriptor::Slice(own, elem, _) => {
            &&& r.len() == 2
            &&& r[0].lowered == LoweredTy::DataPtr(spec_data_ptr_mut(own, elem), elem)
            &&& r[0].name@ == name + "_diplomat_data"@
            &&& r[1].lowered == LoweredTy::SliceLen
            &&& r[1].name@ == name + "_diplomat_len"@
        },
        _ => {
            &&& r.len() == 1
            &&& r[0].lowered == LoweredTy::Direct(ty)
            &&& r[0].name@ == name
        },
    }
}

/// What the expansion of any parameter must look like: a callback becomes
/// a function pointer (whose raw inputs start with the context pointer)
/// followed by the context-pointer parameter itself; everything else
/// follows the generic rules.
pub open spec fn boundary_params_ok(ty: TypeDescriptor, name: Seq<char>, r: Seq<AbiParam>) -> bool {
    match ty {
        TypeDescriptor::Function(inputs, out) => {
            &&& r.len() == 2
            &&& r[0].lowered == LoweredTy::FnPtr(
                Box::new(
                    LoweredTys::Cons(LoweredTy::CtxPtr, Box::new(spec_fnptr_input_tys(*inputs))),
                ),
                out,
            )
            &&& r[0].name@ == name
            &&& r[1].lowered == LoweredTy::CtxPtr
            &&& r[1].name@ == "_ctx"@
        },
        _ => aux_params_ok(ty, name, r),
    }
}

/// Expand the inputs of a callback into their raw ABI types.
fn lower_fnptr_inputs(inputs: &FnInputs) -> (r: LoweredTys)
    ensures
        r == spec_fnptr_input_tys(*inputs),
    decreases *inputs,
{
    match inputs {
        FnInputs::Nil => LoweredTys::Nil,
        FnInputs::Cons(head, tail) => {
            let rest = lower_fnptr_inputs(&**tail);
            match &head.ty {
                TypeDescriptor::Slice(own, elem, _) => {
                    let m = data_ptr_mut(*own, *elem);
                    LoweredTys::Cons(
                        LoweredTy::DataPtr(m, *elem),
                        Box::new(LoweredTys::Cons(LoweredTy::SliceLen, Box::new(rest))),
                    )
                },
                _ => LoweredTys::Cons(LoweredTy::Direct(head.ty.dup()), Box::new(rest)),
            }
        },
    }
}

/// Expand one non-callback parameter, appending to `all_params`.
fn lower_aux(ty: &TypeDescriptor, name: &str, all_params: &mut Vec<AbiParam>)
    ensures
        final(all_params)@.len() == old(all_params)@.len() + spec_aux_len(*ty),
        final(all_params)@.subrange(0, old(all_params)@.len() as int) == old(all_params)@,
        aux_params_ok(
            *ty,
            name@,
            final(all_params)@.skip(old(all_params)@.len() as int),
        ),
{
    match ty {
        TypeDescriptor::Slice(own, elem, _) => {
            let m = data_ptr_mut(*own, *elem);
            let mut data_name = crate::fmt::fmt_param_name(name);
            data_name.append("_diplomat_data");
            all_params.push(AbiParam { lowered: LoweredTy::DataPtr(m, *elem), name: data_name });
            let mut len_name = crate::fmt::fmt_param_name(name);
            len_name.append("_diplomat_len");
            all_params.push(AbiParam { lowered: LoweredTy::SliceLen, name: len_name });
            proof {
                let n = old(all_params)@.len() as int;
                assert(all_params@.len() == n + 2);
                assert(all_params@.subrange(0, n) =~= old(all_params)@);
                assert(all_params@.skip(n) =~= seq![
                    all_params@[n],
                    all_params@[n + 1],
                ]);
            }
        },
        _ => {
            all_params.push(
                AbiParam { lowered: LoweredTy::Direct(ty.dup()), name: crate::fmt::fmt_param_name(name) },
            );
            proof {
                let n = old(all_params)@.len() as int;
                assert(all_params@.len() == n + 1);
                assert(all_params@.subrange(0, n) =~= old(all_params)@);
                assert(all_params@.skip(n) =~= seq![all_params@[n]]);
            }
        },
    }
}

/// Expand one declared parameter into the ABI parameters it contributes,
/// appending them to `all_params` in order.
pub fn gen_params_at_boundary(ty: &TypeDescriptor, name: &str, all_params: &mut Vec<AbiParam>)
    ensures
        final(all_params)@.len() == old(all_params)@.len() + spec_boundary_len(*ty),
        final(all_params)@.subrange(0, old(all_params)@.len() as int) == old(all_params)@,
        boundary_params_ok(
            *ty,
            name@,
            final(all_params)@.skip(old(all_params)@.len() as int),
        ),
{
    match ty {
        TypeDescriptor::Function(inputs, out) => {
            let lowered_inputs = lower_fnptr_inputs(&**inputs);
            let fnp = LoweredTy::FnPtr(
                Box::new(LoweredTys::Cons(LoweredTy::CtxPtr, Box::new(lowered_inputs))),
                Box::new((&**out).dup()),
            );
            all_params.push(AbiParam { lowered: fnp, name: crate::fmt::fmt_param_name(name) });
            all_params.push(AbiParam { lowered: LoweredTy::CtxPtr, name: "_ctx".to_owned() });
            proof {
                let n = old(all_params)@.len() as int;
                assert(all_params@.subrange(0, n) =~= old(all_params)@);
                assert(all_params@.skip(n) =~= seq![
                    all_params@[n],
                    all_params@[n + 1],
                ]);
            }
        },
        _ => {
            lower_aux(ty, name, all_params);
        },
    }
}

/// Every slice or string parameter expands to exactly two ABI parameters:
/// the data pointer first, then the length, under the `_diplomat_data` and
/// `_diplomat_len` synthetic names.
pub proof fn lemma_slice_lowering_shape(ty: TypeDescriptor, name: Seq<char>, r: Seq<AbiParam>)
    requires
        ty.is_slice_like(),
        boundary_params_ok(ty, name, r),
    ensures
        r.len() == 2,
        r[0].lowered matches LoweredTy::DataPtr(_, _),
        r[0].name@ == name + "_diplomat_data"@,
        r[1].lowered == LoweredTy::SliceLen,
        r[1].name@ == name + "_diplomat_len"@,
{
}

} // verus!
