//! The producer-side shim generator: renders the source of the functions
//! that decode raw ABI parameters, invoke the real operation and
//! re-encode the result, one exported symbol per method, one destructor
//! per opaque type, and — in API-table mode — the table types and the
//! single entrypoint.
//!
//! The rendered text carries the marker `CAbi` where the writer that owns
//! target syntax inserts the platform's C-linkage phrase, and calls named
//! runtime helpers for the raw reconstructions, so the marshalling
//! decisions stay in one verified place.

use vstd::prelude::*;
use crate::cgen::{is_exposed, spec_api_ty_names, spec_exposed};
use crate::lowering::{AbiParam, LoweredTy, LoweredTys};
use crate::marshal::{ArgExpr, ForwardedAtom, TrampolinePlan};
use crate::model::{
    Mutability, Ownership, PrimKind, SliceElem, TypeDescriptor, TypeModel,
};
use crate::text::spec_join;

verus! {

pub open spec fn spec_prim_rust(p: PrimKind) -> Seq<char> {
    match p {
        PrimKind::Bool => "bool"@,
        PrimKind::Char => "char"@,
        PrimKind::U8 => "u8"@,
        PrimKind::I8 => "i8"@,
        PrimKind::U16 => "u16"@,
        PrimKind::I16 => "i16"@,
        PrimKind::U32 => "u32"@,
        PrimKind::I32 => "i32"@,
        PrimKind::U64 => "u64"@,
        PrimKind::I64 => "i64"@,
        PrimKind::Usize => "usize"@,
        PrimKind::Isize => "isize"@,
        PrimKind::F32 => "f32"@,
        PrimKind::F64 => "f64"@,
    }
}

/// The host-language spelling of a primitive kind.
pub fn prim_rust(p: PrimKind) -> (r: &'static str)
    ensures
        r@ == spec_prim_rust(p),
{
    match p {
        PrimKind::Bool => "bool",
        PrimKind::Char => "char",
        PrimKind::U8 => "u8",
        PrimKind::I8 => "i8",
        PrimKind::U16 => "u16",
        PrimKind::I16 => "i16",
        PrimKind::U32 => "u32",
        PrimKind::I32 => "i32",
        PrimKind::U64 => "u64",
        PrimKind::I64 => "i64",
        PrimKind::Usize => "usize",
        PrimKind::Isize => "isize",
        PrimKind::F32 => "f32",
        PrimKind::F64 => "f64",
    }
}

/// The element spelling inside a slice type.
pub open spec fn spec_slice_elem_rust(elem: SliceElem) -> Seq<char> {
    match elem {
        SliceElem::Primitive(p) => spec_prim_rust(p),
        SliceElem::Utf8 => "u8"@,
        SliceElem::Utf16 => "u16"@,
        SliceElem::Str8View => "&[u8]"@,
        SliceElem::Str16View => "&[u16]"@,
    }
}

pub fn slice_elem_rust(elem: SliceElem) -> (r: &'static str)
    ensures
        r@ == spec_slice_elem_rust(elem),
{
    match elem {
        SliceElem::Primitive(p) => prim_rust(p),
        SliceElem::Utf8 => "u8",
        SliceElem::Utf16 => "u16",
        SliceElem::Str8View => "&[u8]",
        SliceElem::Str16View => "&[u16]",
    }
}

/// The host-language spelling of a slice or string type.
pub open spec fn spec_slice_rust(own: Ownership, elem: SliceElem, validated: bool) -> Seq<char> {
    match elem {
        SliceElem::Utf8 => if validated {
            match own {
                Ownership::Owned => "Box<str>"@,
                Ownership::Borrowed(_) => "&str"@,
            }
        } else {
            match own {
                Ownership::Owned => "Box<[u8]>"@,
                Ownership::Borrowed(_) => "&[u8]"@,
            }
        },
        SliceElem::Utf16 => match own {
            Ownership::Owned => "Box<[u16]>"@,
            Ownership::Borrowed(_) => "&[u16]"@,
        },
        SliceElem::Str8View => "&[&[u8]]"@,
        SliceElem::Str16View => "&[&[u16]]"@,
        SliceElem::Primitive(p) => match own {
            Ownership::Owned => "Box<["@ + spec_prim_rust(p) + "]>"@,
            Ownership::Borrowed(Mutability::Mutable) => "&mut ["@ + spec_prim_rust(p) + "]"@,
            Ownership::Borrowed(Mutability::Immutable) => "&["@ + spec_prim_rust(p) + "]"@,
        },
    }
}

/// The host-language spelling of a rich type, as the real operation
/// takes or returns it. Callback types never reach this rendering: they
/// lower to a raw pair first.
pub open spec fn spec_rust_ty(m: TypeModel, ty: TypeDescriptor) -> Seq<char>
    decreases ty,
{
    match ty {
        TypeDescriptor::Unit => "()"@,
        TypeDescriptor::Primitive(p) => spec_prim_rust(p),
        TypeDescriptor::Opaque(id, own) => {
            let name = if id < m.types@.len() {
                m.types@[id as int].name@
            } else {
                Seq::empty()
            };
            match own {
                Ownership::Owned => "Box<"@ + name + ">"@,
                Ownership::Borrowed(Mutability::Immutable) => "&"@ + name,
                Ownership::Borrowed(Mutability::Mutable) => "&mut "@ + name,
            }
        },
        TypeDescriptor::Struct(id) => if id < m.types@.len() {
            m.types@[id as int].name@
        } else {
            Seq::empty()
        },
        TypeDescriptor::Enum(id) => if id < m.types@.len() {
            m.types@[id as int].name@
        } else {
            Seq::empty()
        },
        TypeDescriptor::Slice(own, elem, validated) => spec_slice_rust(own, elem, validated),
        TypeDescriptor::OptionOf(inner) => "Option<"@ + spec_rust_ty(m, *inner) + ">"@,
        TypeDescriptor::ResultOf(ok, err, flatten) => {
            let ok_t = match ok {
                Some(t) => spec_rust_ty(m, *t),
                None => "()"@,
            };
            let err_t = match err {
                Some(t) => spec_rust_ty(m, *t),
                None => "()"@,
            };
            if flatten {
                "DiplomatResult<"@ + ok_t + ", "@ + err_t + ">"@
            } else {
                "Result<"@ + ok_t + ", "@ + err_t + ">"@
            }
        },
        TypeDescriptor::Function(_, _) => "()"@,
        TypeDescriptor::Reference(Mutability::Immutable, inner) => "&"@ + spec_rust_ty(m, *inner),
        TypeDescriptor::Reference(Mutability::Mutable, inner) => "&mut "@ + spec_rust_ty(
            m,
            *inner,
        ),
        TypeDescriptor::Writeable => "&mut DiplomatWriteable"@,
        TypeDescriptor::Ordering => "i8"@,
    }
}

/// Render the host-language spelling of a rich type.
pub fn rust_ty_text(m: &TypeModel, ty: &TypeDescriptor) -> (r: String)
    ensures
        r@ == spec_rust_ty(*m, *ty),
    decreases *ty,
{
    match ty {
        TypeDescriptor::Unit => "()".to_owned(),
        TypeDescriptor::Primitive(p) => prim_rust(*p).to_owned(),
        TypeDescriptor::Opaque(id, own) => {
            let name: String = if *id < m.types.len() {
                m.types[*id].name.clone()
            } else {
                String::new()
            };
            match own {
                Ownership::Owned => {
                    let mut s = "Box<".to_owned();
                    s.append(name.as_str());
                    s.append(">");
                    s
                },
                Ownership::Borrowed(Mutability::Immutable) => {
                    let mut s = "&".to_owned();
                    s.append(name.as_str());
                    s
                },
                Ownership::Borrowed(Mutability::Mutable) => {
                    let mut s = "&mut ".to_owned();
                    s.append(name.as_str());
                    s
                },
            }
        },
        TypeDescriptor::Struct(id) => {
            if *id < m.types.len() {
                m.types[*id].name.clone()
            } else {
                String::new()
            }
        },
        TypeDescriptor::Enum(id) => {
            if *id < m.types.len() {
                m.types[*id].name.clone()
            } else {
                String::new()
            }
        },
        TypeDescriptor::Slice(own, elem, validated) => {
            match elem {
                SliceElem::Utf8 => {
                    if *validated {
                        match own {
                            Ownership::Owned => "Box<str>".to_owned(),
                            Ownership::Borrowed(_) => "&str".to_owned(),
                        }
                    } else {
                        match own {
                            Ownership::Owned => "Box<[u8]>".to_owned(),
                            Ownership::Borrowed(_) => "&[u8]".to_owned(),
                        }
                    }
                },
                SliceElem::Utf16 => match own {
                    Ownership::Owned => "Box<[u16]>".to_owned(),
                    Ownership::Borrowed(_) => "&[u16]".to_owned(),
                },
                SliceElem::Str8View => "&[&[u8]]".to_owned(),
                SliceElem::Str16View => "&[&[u16]]".to_owned(),
                SliceElem::Primitive(p) => match own {
                    Ownership::Owned => {
                        let mut s = "Box<[".to_owned();
                        s.append(prim_rust(*p));
                        s.append("]>");
                        s
                    },
                    Ownership::Borrowed(Mutability::Mutable) => {
                        let mut s = "&mut [".to_owned();
                        s.append(prim_rust(*p));
                        s.append("]");
                        s
                    },
                    Ownership::Borrowed(Mutability::Immutable) => {
                        let mut s = "&[".to_owned();
                        s.append(prim_rust(*p));
                        s.append("]");
                        s
                    },
                },
            }
        },
        TypeDescriptor::OptionOf(inner) => {
            let mut s = "Option<".to_owned();
            let it = rust_ty_text(m, &**inner);
            s.append(it.as_str());
            s.append(">");
            s
        },
        TypeDescriptor::ResultOf(ok, err, flatten) => {
            let ok_t: String = match ok {
                Some(t) => rust_ty_text(m, &**t),
                None => "()".to_owned(),
            };
            let err_t: String = match err {
                Some(t) => rust_ty_text(m, &**t),
                None => "()".to_owned(),
            };
            let mut s: String = if *flatten {
                "DiplomatResult<".to_owned()
            } else {
                "Result<".to_owned()
            };
            s.append(ok_t.as_str());
            s.append(", ");
            s.append(err_t.as_str());
            s.append(">");
            s
        },
        TypeDescriptor::Function(_, _) => "()".to_owned(),
        TypeDescriptor::Reference(Mutability::Immutable, inner) => {
            let mut s = "&".to_owned();
            let it = rust_ty_text(m, &**inner);
            s.append(it.as_str());
            s
        },
        TypeDescriptor::Reference(Mutability::Mutable, inner) => {
            let mut s = "&mut ".to_owned();
            let it = rust_ty_text(m, &**inner);
            s.append(it.as_str());
            s
        },
        TypeDescriptor::Writeable => "&mut DiplomatWriteable".to_owned(),
        TypeDescriptor::Ordering => "i8".to_owned(),
    }
}

/// The raw spelling of one lowered ABI type. The `CAbi` marker stands
/// for the C-linkage phrase the writer supplies.
pub open spec fn spec_lowered_ty(m: TypeModel, lt: LoweredTy) -> Seq<char>
    decreases lt, 1int,
{
    match lt {
        LoweredTy::DataPtr(Mutability::Immutable, elem) => "*const "@ + spec_slice_elem_rust(elem),
        LoweredTy::DataPtr(Mutability::Mutable, elem) => "*mut "@ + spec_slice_elem_rust(elem),
        LoweredTy::SliceLen => "usize"@,
        LoweredTy::CtxPtr => "*mut c_void"@,
        LoweredTy::FnPtr(inputs, out) => "CAbi fn("@ + spec_join(
            spec_lowered_list(m, *inputs),
            ", "@,
        ) + ")"@ + (match *out {
            TypeDescriptor::Unit => Seq::<char>::empty(),
            _ => " -> "@ + spec_rust_ty(m, *out),
        }),
        LoweredTy::Direct(t) => spec_rust_ty(m, t),
    }
}

pub open spec fn spec_lowered_list(m: TypeModel, l: LoweredTys) -> Seq<Seq<char>>
    decreases l, 0int,
{
    match l {
        LoweredTys::Nil => Seq::empty(),
        LoweredTys::Cons(head, tail) => seq![spec_lowered_ty(m, head)] + spec_lowered_list(
            m,
            *tail,
        ),
    }
}

/// Render the raw spelling of one lowered ABI type.
pub fn lowered_ty_text(m: &TypeModel, lt: &LoweredTy) -> (r: String)
    ensures
        r@ == spec_lowered_ty(*m, *lt),
    decreases *lt, 1int,
{
    match lt {
        LoweredTy::DataPtr(mu, elem) => {
            let mut s: String = match mu {
                Mutability::Immutable => "*const ".to_owned(),
                Mutability::Mutable => "*mut ".to_owned(),
            };
            s.append(slice_elem_rust(*elem));
            s
        },
        LoweredTy::SliceLen => "usize".to_owned(),
        LoweredTy::CtxPtr => "*mut c_void".to_owned(),
        LoweredTy::FnPtr(inputs, out) => {
            let mut parts: Vec<String> = Vec::new();
            lowered_list_text(m, &**inputs, &mut parts);
            proof {
                assert(parts@.map_values(|s: String| s@) =~= spec_lowered_list(*m, **inputs));
            }
            let joined = crate::text::join_strings(&parts, ", ");
            let mut s = "CAbi fn(".to_owned();
            s.append(joined.as_str());
            s.append(")");
            match &**out {
                TypeDescriptor::Unit => {},
                o => {
                    s.append(" -> ");
                    let ot = rust_ty_text(m, o);
                    s.append(ot.as_str());
                },
            }
            s
        },
        LoweredTy::Direct(t) => rust_ty_text(m, t),
    }
}

fn lowered_list_text(m: &TypeModel, l: &LoweredTys, acc: &mut Vec<String>)
    ensures
        final(acc)@.map_values(|s: String| s@) == old(acc)@.map_values(|s: String| s@)
            + spec_lowered_list(*m, *l),
    decreases *l, 0int,
{
    match l {
        LoweredTys::Nil => {
            proof {
                assert(acc@.map_values(|s: String| s@) =~= old(acc)@.map_values(|s: String| s@)
                    + spec_lowered_list(*m, *l));
            }
        },
        LoweredTys::Cons(head, tail) => {
            let t = lowered_ty_text(m, head);
            acc.push(t);
            let ghost mid = acc@.map_values(|s: String| s@);
            proof {
                assert(mid =~= old(acc)@.map_values(|s: String| s@) + seq![
                    spec_lowered_ty(*m, *head),
                ]);
            }
            lowered_list_text(m, &**tail, acc);
            proof {
                assert(acc@.map_values(|s: String| s@) =~= old(acc)@.map_values(|s: String| s@)
                    + spec_lowered_list(*m, *l));
            }
        },
    }
}

/// The text of one forwarded trampoline argument.
pub open spec fn spec_shape_text(a: crate::marshal::AtomShape) -> Seq<char> {
    match a {
        crate::marshal::AtomShape::CtxShape => "_ctx"@,
        crate::marshal::AtomShape::WholeShape(b) => b,
        crate::marshal::AtomShape::DataPtrShape(b) => b + ".as_ptr()"@,
        crate::marshal::AtomShape::LenShape(b) => b + ".len()"@,
    }
}

pub open spec fn spec_atom_text(a: ForwardedAtom) -> Seq<char> {
    spec_shape_text(crate::marshal::atom_shape(a))
}

/// The runtime helper that rebuilds a slice-like value from its raw
/// pair. Owned data is taken over as one allocation; borrowed data is
/// viewed; validated text is rebuilt as text.
pub open spec fn spec_slice_helper(own: Ownership, elem: SliceElem, validated: bool) -> Seq<char> {
    match elem {
        SliceElem::Primitive(_) => match own {
            Ownership::Borrowed(Mutability::Immutable) => "diplomat_runtime::slice_from_raw"@,
            Ownership::Borrowed(Mutability::Mutable) => "diplomat_runtime::slice_from_raw_mut"@,
            Ownership::Owned => "diplomat_runtime::boxed_slice_from_raw"@,
        },
        SliceElem::Utf8 => if validated {
            match own {
                Ownership::Owned => "diplomat_runtime::boxed_str_from_raw"@,
                Ownership::Borrowed(_) => "diplomat_runtime::str_from_raw"@,
            }
        } else {
            match own {
                Ownership::Owned => "diplomat_runtime::boxed_slice_from_raw"@,
                Ownership::Borrowed(_) => "diplomat_runtime::slice_from_raw"@,
            }
        },
        SliceElem::Utf16 => match own {
            Ownership::Owned => "diplomat_runtime::boxed_slice_from_raw"@,
            Ownership::Borrowed(_) => "diplomat_runtime::slice_from_raw"@,
        },
        SliceElem::Str8View => "diplomat_runtime::strs_from_raw"@,
        SliceElem::Str16View => "diplomat_runtime::strs_from_raw"@,
    }
}

pub fn slice_helper_text(own: Ownership, elem: SliceElem, validated: bool) -> (r: &'static str)
    ensures
        r@ == spec_slice_helper(own, elem, validated),
{
    match elem {
        SliceElem::Primitive(_) => match own {
            Ownership::Borrowed(Mutability::Immutable) => "diplomat_runtime::slice_from_raw",
            Ownership::Borrowed(Mutability::Mutable) => "diplomat_runtime::slice_from_raw_mut",
            Ownership::Owned => "diplomat_runtime::boxed_slice_from_raw",
        },
        SliceElem::Utf8 => {
            if validated {
                match own {
                    Ownership::Owned => "diplomat_runtime::boxed_str_from_raw",
                    Ownership::Borrowed(_) => "diplomat_runtime::str_from_raw",
                }
            } else {
                match own {
                    Ownership::Owned => "diplomat_runtime::boxed_slice_from_raw",
                    Ownership::Borrowed(_) => "diplomat_runtime::slice_from_raw",
                }
            }
        },
        SliceElem::Utf16 => match own {
            Ownership::Owned => "diplomat_runtime::boxed_slice_from_raw",
            Ownership::Borrowed(_) => "diplomat_runtime::slice_from_raw",
        },
        SliceElem::Str8View => "diplomat_runtime::strs_from_raw",
        SliceElem::Str16View => "diplomat_runtime::strs_from_raw",
    }
}

/// What the shim passes to the real operation for one declared
/// parameter, as text: pass-through, guarded reconstruction (a zero
/// length yields the canonical empty value and never touches the data
/// pointer), explicit conversion, or a trampoline closure performing
/// exactly one call of the raw callback with the context first.
pub open spec fn spec_param_arg_text(p: crate::model::ParamDescriptor) -> Seq<char> {
    match p.ty {
        TypeDescriptor::Function(inputs, _) => "move |"@ + spec_join(
            crate::marshal::spec_binder_views(*inputs, 0),
            ", "@,
        ) + "| "@ + p.name@ + "("@ + spec_join(
            (seq![crate::marshal::AtomShape::CtxShape] + crate::marshal::spec_tramp_atoms(
                *inputs,
                0,
            )).map_values(|a: crate::marshal::AtomShape| spec_shape_text(a)),
            ", "@,
        ) + ")"@,
        TypeDescriptor::Slice(own, elem, validated) => "if "@ + p.name@
            + "_diplomat_len == 0 { Default::default() } else { "@ + spec_slice_helper(
            own,
            elem,
            validated,
        ) + "("@ + p.name@ + "_diplomat_data, "@ + p.name@ + "_diplomat_len) }"@,
        TypeDescriptor::ResultOf(_, _, _) => p.name@ + ".into()"@,
        _ => p.name@,
    }
}

/// Render one computed shim argument.
pub fn arg_expr_text(a: &ArgExpr) -> (r: String)
    ensures
        forall|p: crate::model::ParamDescriptor| crate::marshal::invocation_arg_ok(p, *a)
            ==> r@ == spec_param_arg_text(p),
{
    match a {
        ArgExpr::Name(n) => n.clone(),
        ArgExpr::IntoConverted(n) => {
            let mut s = n.clone();
            s.append(".into()");
            s
        },
        ArgExpr::SliceFromRaw(n, own, elem, validated) => {
            let mut s = "if ".to_owned();
            s.append(n.as_str());
            s.append("_diplomat_len == 0 { Default::default() } else { ");
            s.append(slice_helper_text(*own, *elem, *validated));
            s.append("(");
            s.append(n.as_str());
            s.append("_diplomat_data, ");
            s.append(n.as_str());
            s.append("_diplomat_len) }");
            s
        },
        ArgExpr::Trampoline(plan) => {
            let binders = crate::text::join_strings(&plan.binders, ", ");
            let mut atom_texts: Vec<String> = Vec::new();
            let mut i: usize = 0;
            while i < plan.forwarded.len()
                invariant
                    i <= plan.forwarded@.len(),
                    atom_texts@.len() == i,
                    forall|k2: int| 0 <= k2 < i ==> (#[trigger] atom_texts@[k2])@
                        == spec_atom_text(plan.forwarded@[k2]),
                decreases plan.forwarded@.len() - i,
            {
                let t: String = match &plan.forwarded[i] {
                    ForwardedAtom::Ctx => "_ctx".to_owned(),
                    ForwardedAtom::Whole(b) => b.clone(),
                    ForwardedAtom::DataPtrOf(b) => {
                        let mut s = b.clone();
                        s.append(".as_ptr()");
                        s
                    },
                    ForwardedAtom::LenOf(b) => {
                        let mut s = b.clone();
                        s.append(".len()");
                        s
                    },
                };
                proof {
                    assert(t@ == spec_atom_text(plan.forwarded@[i as int]));
                }
                atom_texts.push(t);
                i += 1;
            }
            proof {
                assert(atom_texts@.map_values(|s: String| s@) =~= plan.forwarded@.map_values(
                    |x: ForwardedAtom| spec_atom_text(x),
                ));
            }
            let atoms = crate::text::join_strings(&atom_texts, ", ");
            let mut s = "move |".to_owned();
            s.append(binders.as_str());
            s.append("| ");
            s.append(plan.callback.as_str());
            s.append("(");
            s.append(atoms.as_str());
            s.append(")");
            proof {
                assert forall|p: crate::model::ParamDescriptor| crate::marshal::invocation_arg_ok(
                    p,
                    ArgExpr::Trampoline(*plan),
                ) implies s@ == spec_param_arg_text(p) by {
                    match p.ty {
                        TypeDescriptor::Function(inputs, _) => {
                            assert(plan.binders@.map_values(|b: String| b@)
                                == crate::marshal::spec_binder_views(*inputs, 0));
                            let shapes = plan.forwarded@.map_values(
                                |x: ForwardedAtom| crate::marshal::atom_shape(x),
                            );
                            assert(shapes == seq![crate::marshal::AtomShape::CtxShape]
                                + crate::marshal::spec_tramp_atoms(*inputs, 0));
                            assert(atom_texts@.map_values(|t: String| t@) =~= shapes.map_values(
                                |a: crate::marshal::AtomShape| spec_shape_text(a),
                            ));
                            assert(s@ =~= spec_param_arg_text(p));
                        },
                        _ => {},
                    }
                }
            }
            s
        },
    }
}

/// One lowered parameter as `name: type` text.
pub open spec fn spec_abi_param_text(m: TypeModel, p: AbiParam) -> Seq<char> {
    p.name@ + ": "@ + spec_lowered_ty(m, p.lowered)
}

/// The `name: type` texts one declared parameter contributes to the
/// shim signature, stated directly over the lowering rules.
pub open spec fn spec_param_sig_texts(m: TypeModel, p: crate::model::ParamDescriptor) -> Seq<
    Seq<char>,
> {
    match p.ty {
        TypeDescriptor::Slice(own, elem, _) => seq![
            (p.name@ + "_diplomat_data"@) + ": "@ + spec_lowered_ty(
                m,
                LoweredTy::DataPtr(crate::lowering::spec_data_ptr_mut(own, elem), elem),
            ),
            (p.name@ + "_diplomat_len"@) + ": "@ + "usize"@,
        ],
        TypeDescriptor::Function(inputs, out) => seq![
            p.name@ + ": "@ + spec_lowered_ty(
                m,
                LoweredTy::FnPtr(
                    Box::new(
                        LoweredTys::Cons(
                            LoweredTy::CtxPtr,
                            Box::new(crate::lowering::spec_fnptr_input_tys(*inputs)),
                        ),
                    ),
                    out,
                ),
            ),
            "_ctx"@ + ": "@ + "*mut c_void"@,
        ],
        _ => seq![p.name@ + ": "@ + spec_rust_ty(m, p.ty)],
    }
}

pub open spec fn spec_params_sig_from(
    m: TypeModel,
    params: Seq<crate::model::ParamDescriptor>,
    j: int,
) -> Seq<Seq<char>>
    decreases params.len() - j,
{
    if j < 0 || j >= params.len() {
        Seq::empty()
    } else {
        spec_param_sig_texts(m, params[j]) + spec_params_sig_from(m, params, j + 1)
    }
}

/// The full `name: type` list of a shim's signature.
pub open spec fn spec_method_sig_texts(m: TypeModel, mth: crate::model::MethodDescriptor) -> Seq<
    Seq<char>,
> {
    (match mth.self_param {
        Some(st) => seq!["this"@ + ": "@ + spec_rust_ty(m, st)],
        None => Seq::<Seq<char>>::empty(),
    }) + spec_params_sig_from(m, mth.params@, 0)
}

/// The structured lowering and the rendered signature agree: mapping
/// the lowered parameters to text gives exactly the per-parameter
/// signature texts.
pub proof fn lemma_params_sig_texts(
    m: TypeModel,
    params: Seq<crate::model::ParamDescriptor>,
    j: int,
    r: Seq<AbiParam>,
)
    requires
        crate::marshal::params_ok_from(params, j, r),
        0 <= j,
    ensures
        r.map_values(|p: AbiParam| spec_abi_param_text(m, p)) == spec_params_sig_from(
            m,
            params,
            j,
        ),
    decreases params.len() - j,
{
    if j >= params.len() {
        assert(r.map_values(|p: AbiParam| spec_abi_param_text(m, p)) =~= spec_params_sig_from(
            m,
            params,
            j,
        ));
    } else {
        let w = crate::lowering::spec_boundary_len(params[j].ty);
        lemma_params_sig_texts(m, params, j + 1, r.skip(w));
        let lhs = r.map_values(|p: AbiParam| spec_abi_param_text(m, p));
        let head = spec_param_sig_texts(m, params[j]);
        let tail = spec_params_sig_from(m, params, j + 1);
        assert(lhs.len() == head.len() + tail.len());
        assert forall|k: int| 0 <= k < lhs.len() implies lhs[k] == (head + tail)[k] by {
            if k < w {
                assert(crate::lowering::boundary_params_ok(
                    params[j].ty,
                    params[j].name@,
                    r.take(w),
                ));
                assert(r.take(w)[k] == r[k]);
                match params[j].ty {
                    TypeDescriptor::Slice(own, elem, _) => {
                        if k == 0 {
                            assert(lhs[0] =~= head[0]);
                        } else {
                            assert(r[1].lowered == LoweredTy::SliceLen);
                            assert(lhs[1] =~= head[1]);
                        }
                    },
                    TypeDescriptor::Function(inputs, out) => {
                        if k == 0 {
                            assert(lhs[0] =~= head[0]);
                        } else {
                            assert(r[1].lowered == LoweredTy::CtxPtr);
                            assert(lhs[1] =~= head[1]);
                        }
                    },
                    _ => {
                        assert(r[0].lowered == LoweredTy::Direct(params[j].ty));
                        assert(lhs[0] =~= head[0]);
                    },
                }
            } else {
                assert(r.skip(w).map_values(|p: AbiParam| spec_abi_param_text(m, p))[k - w]
                    == lhs[k]) by {
                    assert(r.skip(w)[k - w] == r[k]);
                }
                assert((head + tail)[k] == tail[k - w]);
            }
        }
        assert(lhs =~= head + tail);
    }
}

/// The shim's return type text and the conversion applied to the real
/// operation's result.
pub open spec fn spec_shim_ret(m: TypeModel, mth: crate::model::MethodDescriptor) -> Seq<char> {
    match mth.output {
        crate::model::ReturnDescriptor::Infallible(crate::model::SuccessKind::Unit) => Seq::empty(),
        crate::model::ReturnDescriptor::Infallible(
            crate::model::SuccessKind::Writeable,
        ) => Seq::empty(),
        crate::model::ReturnDescriptor::Infallible(
            crate::model::SuccessKind::OutType(o),
        ) => " -> "@ + spec_rust_ty(m, o),
        crate::model::ReturnDescriptor::Fallible(s, e) => {
            let ok_t = match s {
                crate::model::SuccessKind::OutType(o) => spec_rust_ty(m, o),
                _ => "()"@,
            };
            let err_t = match e {
                Some(t) => spec_rust_ty(m, t),
                None => "()"@,
            };
            " -> DiplomatResult<"@ + ok_t + ", "@ + err_t + ">"@
        },
        crate::model::ReturnDescriptor::Nullable(s) => match s {
            crate::model::SuccessKind::OutType(o) => if o.is_pointer_representable() {
                " -> Option<"@ + spec_rust_ty(m, o) + ">"@
            } else {
                " -> DiplomatResult<"@ + spec_rust_ty(m, o) + ", ()>"@
            },
            crate::model::SuccessKind::Unit => " -> DiplomatResult<(), ()>"@,
            crate::model::SuccessKind::Writeable => Seq::empty(),
        },
    }
}

pub open spec fn spec_shim_conv(mth: crate::model::MethodDescriptor) -> Seq<char> {
    match mth.output {
        crate::model::ReturnDescriptor::Infallible(
            crate::model::SuccessKind::OutType(TypeDescriptor::Ordering),
        ) => " as i8"@,
        crate::model::ReturnDescriptor::Fallible(_, _) => ".into()"@,
        crate::model::ReturnDescriptor::Nullable(s) => match s {
            crate::model::SuccessKind::OutType(o) => if o.is_pointer_representable() {
                Seq::<char>::empty()
            } else {
                ".ok_or(()).into()"@
            },
            crate::model::SuccessKind::Unit => ".ok_or(()).into()"@,
            crate::model::SuccessKind::Writeable => Seq::<char>::empty(),
        },
        _ => Seq::empty(),
    }
}

/// The flush statements for out-buffer parameters.
pub open spec fn spec_flush_lines(params: Seq<crate::model::ParamDescriptor>) -> Seq<char>
    decreases params.len(),
{
    if params.len() == 0 {
        Seq::empty()
    } else {
        spec_flush_lines(params.drop_last()) + (
        if params.last().ty is Writeable {
            "    "@ + params.last().name@ + ".flush();\n"@
        } else {
            Seq::<char>::empty()
        })
    }
}

pub open spec fn spec_has_flush(params: Seq<crate::model::ParamDescriptor>) -> bool {
    exists|i: int| 0 <= i < params.len() && (#[trigger] params[i]).ty is Writeable
}

pub open spec fn spec_args_texts(params: Seq<crate::model::ParamDescriptor>) -> Seq<Seq<char>> {
    params.map_values(|p: crate::model::ParamDescriptor| spec_param_arg_text(p))
}

/// The body of one shim: decode every parameter, perform the one real
/// call, flush any out-buffers, and re-encode the result.
pub open spec fn spec_shim_body(
    m: TypeModel,
    ty_name: Seq<char>,
    mth: crate::model::MethodDescriptor,
) -> Seq<char> {
    let target = match mth.self_param {
        Some(_) => "this."@ + mth.name@,
        None => ty_name + "::"@ + mth.name@,
    };
    let call = target + "("@ + spec_join(spec_args_texts(mth.params@), ", "@) + ")"@;
    if !spec_has_flush(mth.params@) {
        "    "@ + call + spec_shim_conv(mth) + "\n"@
    } else {
        "    let ret = "@ + call + ";\n"@ + spec_flush_lines(mth.params@) + "    ret"@
            + spec_shim_conv(mth) + "\n"@
    }
}

pub open spec fn spec_cfg_lines(cs: Seq<Seq<char>>) -> Seq<char>
    decreases cs.len(),
{
    if cs.len() == 0 {
        Seq::empty()
    } else {
        spec_cfg_lines(cs.drop_last()) + "#["@ + cs.last() + "]\n"@
    }
}

/// Render carried conditional-compilation attributes, one line each.
pub fn cfg_lines_text(cfgs: &Vec<String>) -> (r: String)
    ensures
        r@ == spec_cfg_lines(cfgs@.map_values(|x: String| x@)),
{
    let mut text = String::new();
    let mut c: usize = 0;
    while c < cfgs.len()
        invariant
            c <= cfgs@.len(),
            text@ == spec_cfg_lines(cfgs@.take(c as int).map_values(|x: String| x@)),
        decreases cfgs@.len() - c,
    {
        text.append("#[");
        text.append(cfgs[c].as_str());
        text.append("]\n");
        proof {
            let mv = cfgs@.take(c as int + 1).map_values(|x: String| x@);
            assert(mv =~= cfgs@.take(c as int).map_values(|x: String| x@).push(
                cfgs@[c as int]@,
            ));
            assert(mv.drop_last() =~= cfgs@.take(c as int).map_values(|x: String| x@));
            assert(mv.last() == cfgs@[c as int]@);
            assert(text@ =~= spec_cfg_lines(mv));
        }
        c += 1;
    }
    proof {
        assert(cfgs@.take(cfgs@.len() as int) =~= cfgs@);
    }
    text
}

/// The whole producer-side shim of one method, as source text: the
/// carried conditional-compilation attributes, the C-linkage marker, the
/// exported symbol, the lowered signature, and the marshalling body.
pub open spec fn spec_shim_text(
    m: TypeModel,
    ty_name: Seq<char>,
    mth: crate::model::MethodDescriptor,
) -> Seq<char> {
    spec_cfg_lines(mth.cfgs@.map_values(|c: String| c@)) + "CAbi fn "@ + mth.full_path_name@
        + "("@ + spec_join(spec_method_sig_texts(m, mth), ", "@) + ")"@ + spec_shim_ret(m, mth)
        + " {\n"@ + spec_shim_body(m, ty_name, mth) + "}\n\n"@
}

/// Every callback parameter's input list fits the binder counter.
pub open spec fn spec_tramp_reqs_ok(params: Seq<crate::model::ParamDescriptor>) -> bool {
    forall|i: int| 0 <= i < params.len() ==> ((#[trigger] params[i]).ty matches
        TypeDescriptor::Function(inputs, _) ==> inputs.to_seq().len() <= usize::MAX as int)
}

/// Render the producer-side shim of one method.
#[verifier::rlimit(100)]
pub fn gen_custom_type_method(
    m: &TypeModel,
    ty_name: &str,
    method: &crate::model::MethodDescriptor,
) -> (r: String)
    requires
        spec_tramp_reqs_ok(method.params@),
    ensures
        r@ == spec_shim_text(*m, ty_name@, *method),
{
    let mut text = cfg_lines_text(&method.cfgs);
    text.append("CAbi fn ");
    text.append(method.full_path_name.as_str());
    text.append("(");
    let all_params = crate::marshal::gen_custom_type_all_params(method);
    let mut sig_texts: Vec<String> = Vec::new();
    let mut k: usize = 0;
    while k < all_params.len()
        invariant
            k <= all_params@.len(),
            sig_texts@.len() == k,
            forall|k2: int| 0 <= k2 < k ==> (#[trigger] sig_texts@[k2])@ == spec_abi_param_text(
                *m,
                all_params@[k2],
            ),
        decreases all_params@.len() - k,
    {
        let mut t = all_params[k].name.clone();
        t.append(": ");
        let lt = lowered_ty_text(m, &all_params[k].lowered);
        t.append(lt.as_str());
        sig_texts.push(t);
        k += 1;
    }
    proof {
        let base: int = if method.self_param is Some {
            1int
        } else {
            0int
        };
        lemma_params_sig_texts(*m, method.params@, 0, all_params@.skip(base));
        assert(sig_texts@.map_values(|s: String| s@) =~= all_params@.map_values(
            |p: AbiParam| spec_abi_param_text(*m, p),
        ));
        if method.self_param is Some {
            assert(all_params@.skip(base).map_values(|p: AbiParam| spec_abi_param_text(*m, p))
                =~= all_params@.map_values(|p: AbiParam| spec_abi_param_text(*m, p)).skip(base));
            assert(all_params@.map_values(|p: AbiParam| spec_abi_param_text(*m, p))[0]
                =~= spec_method_sig_texts(*m, *method)[0]);
            assert(sig_texts@.map_values(|s: String| s@) =~= spec_method_sig_texts(*m, *method));
        } else {
            assert(all_params@.skip(0) =~= all_params@);
            assert(sig_texts@.map_values(|s: String| s@) =~= spec_method_sig_texts(*m, *method));
        }
    }
    let sig = crate::text::join_strings(&sig_texts, ", ");
    text.append(sig.as_str());
    text.append(")");
    let ret_text = shim_ret_text(m, method);
    text.append(ret_text.as_str());
    text.append(" {\n");
    let mut args: Vec<ArgExpr> = Vec::new();
    let mut j: usize = 0;
    while j < method.params.len()
        invariant
            j <= method.params@.len(),
            args@.len() == j,
            spec_tramp_reqs_ok(method.params@),
            forall|j2: int| 0 <= j2 < j ==> crate::marshal::invocation_arg_ok(
                (#[trigger] method.params@[j2]),
                args@[j2],
            ),
        decreases method.params@.len() - j,
    {
        let ghost pre = args@;
        crate::marshal::gen_params_invocation(&method.params[j], &mut args);
        proof {
            assert forall|j2: int| 0 <= j2 < j + 1 implies crate::marshal::invocation_arg_ok(
                (#[trigger] method.params@[j2]),
                args@[j2],
            ) by {
                if j2 < j {
                    assert(args@.subrange(0, pre.len() as int)[j2] == args@[j2]);
                } else {
                    assert(args@.last() == args@[j2]);
                }
            }
        }
        j += 1;
    }
    let mut arg_texts: Vec<String> = Vec::new();
    let mut a: usize = 0;
    while a < args.len()
        invariant
            a <= args@.len(),
            args@.len() == method.params@.len(),
            arg_texts@.len() == a,
            forall|j2: int| 0 <= j2 < args@.len() ==> crate::marshal::invocation_arg_ok(
                (#[trigger] method.params@[j2]),
                args@[j2],
            ),
            forall|k2: int| 0 <= k2 < a ==> (#[trigger] arg_texts@[k2])@ == spec_param_arg_text(
                method.params@[k2],
            ),
        decreases args@.len() - a,
    {
        let t = arg_expr_text(&args[a]);
        proof {
            assert(crate::marshal::invocation_arg_ok(method.params@[a as int], args@[a as int]));
        }
        arg_texts.push(t);
        a += 1;
    }
    proof {
        assert(arg_texts@.map_values(|s: String| s@) =~= spec_args_texts(method.params@));
    }
    let args_joined = crate::text::join_strings(&arg_texts, ", ");
    let mut call: String = match &method.self_param {
        Some(_) => {
            let mut s = "this.".to_owned();
            s.append(method.name.as_str());
            s
        },
        None => {
            let mut s = ty_name.to_owned();
            s.append("::");
            s.append(method.name.as_str());
            s
        },
    };
    call.append("(");
    call.append(args_joined.as_str());
    call.append(")");
    let mut flushes = String::new();
    let mut has_flush = false;
    let mut f: usize = 0;
    while f < method.params.len()
        invariant
            f <= method.params@.len(),
            flushes@ == spec_flush_lines(method.params@.take(f as int)),
            has_flush == spec_has_flush(method.params@.take(f as int)),
        decreases method.params@.len() - f,
    {
        let is_w = match &method.params[f].ty {
            TypeDescriptor::Writeable => true,
            _ => false,
        };
        if is_w {
            flushes.append("    ");
            flushes.append(method.params[f].name.as_str());
            flushes.append(".flush();\n");
            has_flush = true;
        }
        proof {
            assert(method.params@.take(f as int + 1).drop_last() =~= method.params@.take(f as int));
            assert(method.params@.take(f as int + 1).last() == method.params@[f as int]);
            if is_w {
                assert(spec_has_flush(method.params@.take(f as int + 1)));
            } else {
                assert(spec_has_flush(method.params@.take(f as int + 1)) == spec_has_flush(
                    method.params@.take(f as int),
                )) by {
                    if spec_has_flush(method.params@.take(f as int + 1)) {
                        let w = choose|w: int|
                            0 <= w < method.params@.take(f as int + 1).len() && (
                            #[trigger] method.params@.take(f as int + 1)[w]).ty is Writeable;
                        if w < f {
                            assert(method.params@.take(f as int)[w].ty is Writeable);
                        }
                    }
                    if spec_has_flush(method.params@.take(f as int)) {
                        let w = choose|w: int|
                            0 <= w < method.params@.take(f as int).len() && (
                            #[trigger] method.params@.take(f as int)[w]).ty is Writeable;
                        assert(method.params@.take(f as int + 1)[w].ty is Writeable);
                    }
                }
            }
        }
        f += 1;
    }
    proof {
        assert(method.params@.take(method.params@.len() as int) =~= method.params@);
    }
    let conv = shim_conv_text(method);
    if !has_flush {
        text.append("    ");
        text.append(call.as_str());
        text.append(conv.as_str());
        text.append("\n");
    } else {
        text.append("    let ret = ");
        text.append(call.as_str());
        text.append(";\n");
        text.append(flushes.as_str());
        text.append("    ret");
        text.append(conv.as_str());
        text.append("\n");
    }
    text.append("}\n\n");
    proof {
        assert(text@ =~= spec_shim_text(*m, ty_name@, *method));
    }
    text
}

/// Render the shim's return type text.
pub fn shim_ret_text(m: &TypeModel, method: &crate::model::MethodDescriptor) -> (r: String)
    ensures
        r@ == spec_shim_ret(*m, *method),
{
    match &method.output {
        crate::model::ReturnDescriptor::Infallible(crate::model::SuccessKind::Unit) => {
            String::new()
        },
        crate::model::ReturnDescriptor::Infallible(crate::model::SuccessKind::Writeable) => {
            String::new()
        },
        crate::model::ReturnDescriptor::Infallible(crate::model::SuccessKind::OutType(o)) => {
            let mut s = " -> ".to_owned();
            let t = rust_ty_text(m, o);
            s.append(t.as_str());
            s
        },
        crate::model::ReturnDescriptor::Fallible(sk, e) => {
            let ok_t: String = match sk {
                crate::model::SuccessKind::OutType(o) => rust_ty_text(m, o),
                _ => "()".to_owned(),
            };
            let err_t: String = match e {
                Some(t) => rust_ty_text(m, t),
                None => "()".to_owned(),
            };
            let mut s = " -> DiplomatResult<".to_owned();
            s.append(ok_t.as_str());
            s.append(", ");
            s.append(err_t.as_str());
            s.append(">");
            s
        },
        crate::model::ReturnDescriptor::Nullable(sk) => match sk {
            crate::model::SuccessKind::OutType(o) => {
                let ptr_repr = match o {
                    TypeDescriptor::Opaque(_, _) => true,
                    TypeDescriptor::Reference(_, _) => true,
                    _ => false,
                };
                if ptr_repr {
                    let mut s = " -> Option<".to_owned();
                    let t = rust_ty_text(m, o);
                    s.append(t.as_str());
                    s.append(">");
                    s
                } else {
                    let mut s = " -> DiplomatResult<".to_owned();
                    let t = rust_ty_text(m, o);
                    s.append(t.as_str());
                    s.append(", ()>");
                    s
                }
            },
            crate::model::SuccessKind::Unit => " -> DiplomatResult<(), ()>".to_owned(),
            crate::model::SuccessKind::Writeable => String::new(),
        },
    }
}

/// Render the conversion appended to the real call's result.
pub fn shim_conv_text(method: &crate::model::MethodDescriptor) -> (r: String)
    ensures
        r@ == spec_shim_conv(*method),
{
    match &method.output {
        crate::model::ReturnDescriptor::Infallible(
            crate::model::SuccessKind::OutType(TypeDescriptor::Ordering),
        ) => " as i8".to_owned(),
        crate::model::ReturnDescriptor::Fallible(_, _) => ".into()".to_owned(),
        crate::model::ReturnDescriptor::Nullable(sk) => match sk {
            crate::model::SuccessKind::OutType(o) => {
                let ptr_repr = match o {
                    TypeDescriptor::Opaque(_, _) => true,
                    TypeDescriptor::Reference(_, _) => true,
                    _ => false,
                };
                if ptr_repr {
                    String::new()
                } else {
                    ".ok_or(()).into()".to_owned()
                }
            },
            crate::model::SuccessKind::Unit => ".ok_or(()).into()".to_owned(),
            crate::model::SuccessKind::Writeable => String::new(),
        },
        _ => String::new(),
    }
}

/// The function-pointer type of one method's API-table field: the same
/// lowered signature as the shim, as a raw function type.
pub open spec fn spec_field_text(m: TypeModel, mth: crate::model::MethodDescriptor) -> Seq<char> {
    "CAbi fn("@ + spec_join(spec_method_sig_texts(m, mth), ", "@) + ")"@ + spec_shim_ret(m, mth)
}

/// Render the function-pointer type of one method's API-table field.
pub fn gen_custom_type_field(m: &TypeModel, method: &crate::model::MethodDescriptor) -> (r: String)
    ensures
        r@ == spec_field_text(*m, *method),
{
    let all_params = crate::marshal::gen_custom_type_all_params(method);
    let mut sig_texts: Vec<String> = Vec::new();
    let mut k: usize = 0;
    while k < all_params.len()
        invariant
            k <= all_params@.len(),
            sig_texts@.len() == k,
            forall|k2: int| 0 <= k2 < k ==> (#[trigger] sig_texts@[k2])@ == spec_abi_param_text(
                *m,
                all_params@[k2],
            ),
        decreases all_params@.len() - k,
    {
        let mut t = all_params[k].name.clone();
        t.append(": ");
        let lt = lowered_ty_text(m, &all_params[k].lowered);
        t.append(lt.as_str());
        sig_texts.push(t);
        k += 1;
    }
    proof {
        let base: int = if method.self_param is Some {
            1int
        } else {
            0int
        };
        lemma_params_sig_texts(*m, method.params@, 0, all_params@.skip(base));
        assert(sig_texts@.map_values(|s: String| s@) =~= all_params@.map_values(
            |p: AbiParam| spec_abi_param_text(*m, p),
        ));
        if method.self_param is Some {
            assert(all_params@.skip(base).map_values(|p: AbiParam| spec_abi_param_text(*m, p))
                =~= all_params@.map_values(|p: AbiParam| spec_abi_param_text(*m, p)).skip(base));
            assert(all_params@.map_values(|p: AbiParam| spec_abi_param_text(*m, p))[0]
                =~= spec_method_sig_texts(*m, *method)[0]);
            assert(sig_texts@.map_values(|s: String| s@) =~= spec_method_sig_texts(*m, *method));
        } else {
            assert(all_params@.skip(0) =~= all_params@);
            assert(sig_texts@.map_values(|s: String| s@) =~= spec_method_sig_texts(*m, *method));
        }
    }
    let sig = crate::text::join_strings(&sig_texts, ", ");
    let mut s = "CAbi fn(".to_owned();
    s.append(sig.as_str());
    s.append(")");
    let ret_text = shim_ret_text(m, method);
    s.append(ret_text.as_str());
    s
}

/// One generated producer-side item, tagged with what it is.
#[derive(Clone, Copy, PartialEq, Eq, Structural, Debug)]
pub enum BridgeItemKind {
    /// The runtime import at the head of the generated module.
    RuntimeImport,
    /// The decorated definition of declared type `i`; opaque
    /// definitions pass through the host unmodified and get no item.
    TypeDecl(usize),
    /// The shim of method `j` of declared type `i`.
    MethodShim(usize, usize),
    /// The destructor of declared type `i`.
    Dtor(usize),
    /// The function-pointer table type of declared type `i`.
    ApiStruct(usize),
    /// The constructor of declared type `i`'s table.
    ApiGetter(usize),
    /// The fixed core sub-table and its generic free slot.
    CoreApi,
    /// The aggregate table holding every type's table by value.
    RootStruct,
    /// The single entrypoint returning the aggregate by value.
    Entrypoint,
}

pub struct BridgeItem {
    pub kind: BridgeItemKind,
    pub text: String,
}

pub open spec fn item_views(items: Seq<BridgeItem>) -> Seq<(BridgeItemKind, Seq<char>)> {
    items.map_values(|it: BridgeItem| (it.kind, it.text@))
}

/// The destructor shim of one type: the type's conditional-compilation
/// attributes, then a function that takes the handle by value — so
/// dropping it is the single deallocation — and whose body does nothing
/// else.
pub open spec fn spec_dtor_item_text(cfgs: Seq<Seq<char>>, name: Seq<char>) -> Seq<char> {
    spec_cfg_lines(cfgs) + "CAbi fn "@ + crate::fmt::spec_dtor_name(name) + "(this: Box<"@ + name
        + ">) {}\n\n"@
}

/// The decoration attribute lines one host item gains.
pub open spec fn spec_decoration_lines(d: crate::attrs::Decoration) -> Seq<char> {
    (if d.add_repr_c {
        "#[repr(C)]\n"@
    } else {
        Seq::<char>::empty()
    }) + (if d.add_value_derives {
        "#[derive(Clone, Copy)]\n"@
    } else {
        Seq::<char>::empty()
    })
}

/// The marker flags of one declared type, as the decoration decision
/// reads them.
pub open spec fn spec_host_info(m: TypeModel, i: int) -> crate::attrs::AttributeInfo {
    crate::attrs::AttributeInfo {
        repr: m.types@[i].has_repr,
        opaque: m.types@[i].kind is Opaque,
        is_out: m.types@[i].kind is OutStruct,
    }
}

pub open spec fn spec_struct_fields_rust(
    m: TypeModel,
    fields: Seq<crate::model::FieldDescriptor>,
) -> Seq<char>
    decreases fields.len(),
{
    if fields.len() == 0 {
        Seq::empty()
    } else {
        spec_struct_fields_rust(m, fields.drop_last()) + "  pub "@ + fields.last().name@ + ": "@
            + spec_rust_ty(m, fields.last().ty) + ",\n"@
    }
}

pub open spec fn spec_enum_variants_rust(vs: Seq<crate::model::EnumVariant>) -> Seq<char>
    decreases vs.len(),
{
    if vs.len() == 0 {
        Seq::empty()
    } else {
        spec_enum_variants_rust(vs.drop_last()) + "  "@ + vs.last().name@ + " = "@
            + crate::text::spec_dec_int(vs.last().discriminant as int) + ",\n"@
    }
}

/// The decorated definition of one declared type, as the producer side
/// re-emits it: the carried conditional-compilation attributes, the
/// decoration the decision function assigns (layout pinned, value
/// derives, out-structs exempt), then the definition itself. Opaque
/// definitions pass through the host unmodified, so they render
/// nothing here.
pub open spec fn spec_type_decl_text(m: TypeModel, i: int) -> Seq<char> {
    let cfg = spec_cfg_lines(m.types@[i].cfgs@.map_values(|c: String| c@));
    let name = m.types@[i].name@;
    match m.types@[i].kind {
        crate::model::TypeDefKind::Opaque => Seq::empty(),
        crate::model::TypeDefKind::Struct(fields) => cfg + (match crate::attrs::spec_decoration(
            crate::attrs::HostItemKind::StructItem,
            spec_host_info(m, i),
        ) {
            Ok(d) => spec_decoration_lines(d),
            Err(_) => Seq::<char>::empty(),
        }) + "pub struct "@ + name + " {\n"@ + spec_struct_fields_rust(m, fields@) + "}\n\n"@,
        crate::model::TypeDefKind::OutStruct(fields) => cfg + (
        match crate::attrs::spec_decoration(
            crate::attrs::HostItemKind::StructItem,
            spec_host_info(m, i),
        ) {
            Ok(d) => spec_decoration_lines(d),
            Err(_) => Seq::<char>::empty(),
        }) + "pub struct "@ + name + " {\n"@ + spec_struct_fields_rust(m, fields@) + "}\n\n"@,
        crate::model::TypeDefKind::Enum(vs) => cfg + (match crate::attrs::spec_decoration(
            crate::attrs::HostItemKind::EnumItem,
            spec_host_info(m, i),
        ) {
            Ok(d) => spec_decoration_lines(d),
            Err(_) => Seq::<char>::empty(),
        }) + "pub enum "@ + name + " {\n"@ + spec_enum_variants_rust(vs@) + "}\n\n"@,
    }
}

/// The definition item one type contributes: none for opaque types.
pub open spec fn spec_type_decl_part(m: TypeModel, i: int) -> Seq<(BridgeItemKind, Seq<char>)> {
    match m.types@[i].kind {
        crate::model::TypeDefKind::Opaque => Seq::empty(),
        _ => seq![(BridgeItemKind::TypeDecl(i as usize), spec_type_decl_text(m, i))],
    }
}

pub open spec fn spec_type_shim_items(m: TypeModel, i: int, j: int) -> Seq<
    (BridgeItemKind, Seq<char>),
>
    decreases m.types@[i].methods@.len() - j,
{
    if j < 0 || j >= m.types@[i].methods@.len() {
        Seq::empty()
    } else {
        seq![
            (
                BridgeItemKind::MethodShim(i as usize, j as usize),
                spec_shim_text(m, m.types@[i].name@, m.types@[i].methods@[j]),
            ),
        ] + spec_type_shim_items(m, i, j + 1)
    }
}

/// All items one declared type contributes: its decorated definition
/// (unless opaque), each method's shim in declaration order, then
/// exactly one destructor carrying the type's conditional-compilation
/// attributes.
pub open spec fn spec_type_items(m: TypeModel, i: int) -> Seq<(BridgeItemKind, Seq<char>)> {
    spec_type_decl_part(m, i) + spec_type_shim_items(m, i, 0) + seq![
        (
            BridgeItemKind::Dtor(i as usize),
            spec_dtor_item_text(
                m.types@[i].cfgs@.map_values(|c: String| c@),
                m.types@[i].name@,
            ),
        ),
    ]
}

pub open spec fn spec_types_items(m: TypeModel, i: int) -> Seq<(BridgeItemKind, Seq<char>)>
    decreases i,
{
    if i <= 0 {
        Seq::empty()
    } else {
        spec_types_items(m, i - 1) + spec_type_items(m, i - 1)
    }
}

/// One function-pointer field per enabled method, matching the members
/// the consumer-side table declares.
pub open spec fn spec_api_field_lines(m: TypeModel, i: int, j: int) -> Seq<char>
    decreases m.types@[i].methods@.len() - j,
{
    if j < 0 || j >= m.types@[i].methods@.len() {
        Seq::empty()
    } else {
        (if m.types@[i].methods@[j].disabled {
            Seq::<char>::empty()
        } else {
            "  pub "@ + m.types@[i].methods@[j].name@ + ": "@ + spec_field_text(
                m,
                m.types@[i].methods@[j],
            ) + ",\n"@
        }) + spec_api_field_lines(m, i, j + 1)
    }
}

pub open spec fn spec_api_struct_text(m: TypeModel, i: int) -> Seq<char> {
    let name = m.types@[i].name@;
    "#[repr(C)]\npub struct __"@ + name + "_API__ {\n"@ + spec_api_field_lines(m, i, 0)
        + "  pub "@ + crate::fmt::spec_dtor_name(name) + ": CAbi fn(this: Box<"@ + name
        + ">),\n"@ + "}\n\n"@
}

pub open spec fn spec_api_getter_lines(m: TypeModel, i: int, j: int) -> Seq<char>
    decreases m.types@[i].methods@.len() - j,
{
    if j < 0 || j >= m.types@[i].methods@.len() {
        Seq::empty()
    } else {
        (if m.types@[i].methods@[j].disabled {
            Seq::<char>::empty()
        } else {
            "    "@ + m.types@[i].methods@[j].name@ + ": "@
                + m.types@[i].methods@[j].full_path_name@ + ",\n"@
        }) + spec_api_getter_lines(m, i, j + 1)
    }
}

pub open spec fn spec_api_getter_text(m: TypeModel, i: int) -> Seq<char> {
    let name = m.types@[i].name@;
    "fn __get_"@ + name + "_api__() -> __"@ + name + "_API__ {\n  __"@ + name + "_API__ {\n"@
        + spec_api_getter_lines(m, i, 0) + "    "@ + crate::fmt::spec_dtor_name(name) + ": "@
        + crate::fmt::spec_dtor_name(name) + ",\n  }\n}\n\n"@
}

/// A table type and its constructor for every exposed type — the same
/// predicate the aggregate C header's member list uses.
pub open spec fn spec_api_type_items(m: TypeModel, i: int) -> Seq<(BridgeItemKind, Seq<char>)>
    decreases i,
{
    if i <= 0 {
        Seq::empty()
    } else {
        spec_api_type_items(m, i - 1) + (if spec_exposed(m, i - 1) {
            seq![
                (BridgeItemKind::ApiStruct((i - 1) as usize), spec_api_struct_text(m, i - 1)),
                (BridgeItemKind::ApiGetter((i - 1) as usize), spec_api_getter_text(m, i - 1)),
            ]
        } else {
            Seq::<(BridgeItemKind, Seq<char>)>::empty()
        })
    }
}

pub open spec fn spec_core_api_text() -> Seq<char> {
    "pub mod __core__ {\n  #[repr(C)]\n  pub struct __Core_API__ {\n    pub free: CAbi fn(ptr: *mut c_void),\n  }\n\n  #[no_mangle]\n  pub CAbi fn free(ptr: *mut c_void) {\n    diplomat_runtime::free_ptr(ptr);\n  }\n\n  pub fn api_get_core() -> __Core_API__ {\n    __Core_API__ { free: free }\n  }\n}\n\n"@
}

/// One member per exposed type, drawn from the same name list as the
/// aggregate C header, so the two layouts always agree.
pub open spec fn spec_root_fields(names: Seq<Seq<char>>) -> Seq<char>
    decreases names.len(),
{
    if names.len() == 0 {
        Seq::empty()
    } else {
        spec_root_fields(names.drop_last()) + "  pub "@ + names.last() + ": __"@ + names.last()
            + "_API__,\n"@
    }
}

pub open spec fn spec_root_struct_text(m: TypeModel, apiname: Seq<char>) -> Seq<char> {
    "#[repr(C)]\npub struct "@ + apiname + " {\n  pub core: __core__::__Core_API__,\n"@
        + spec_root_fields(spec_api_ty_names(m, m.types@.len() as int)) + "}\n\n"@
}

pub open spec fn spec_entry_fields(names: Seq<Seq<char>>) -> Seq<char>
    decreases names.len(),
{
    if names.len() == 0 {
        Seq::empty()
    } else {
        spec_entry_fields(names.drop_last()) + "    "@ + names.last() + ": __get_"@
            + names.last() + "_api__(),\n"@
    }
}

pub open spec fn spec_entrypoint_text(m: TypeModel, apiname: Seq<char>, ep: Seq<char>) -> Seq<
    char,
> {
    "#[no_mangle]\npub CAbi fn "@ + ep + "() -> "@ + apiname + " {\n  "@ + apiname
        + " {\n    core: __core__::api_get_core(),\n"@ + spec_entry_fields(
        spec_api_ty_names(m, m.types@.len() as int),
    ) + "  }\n}\n"@
}

/// All API-table items: every exposed type's table type and
/// constructor, the core sub-table, the aggregate, and the entrypoint.
pub open spec fn spec_api_items(m: TypeModel, apiname: Seq<char>, ep: Seq<char>) -> Seq<
    (BridgeItemKind, Seq<char>),
> {
    spec_api_type_items(m, m.types@.len() as int) + seq![
        (BridgeItemKind::CoreApi, spec_core_api_text()),
        (BridgeItemKind::RootStruct, spec_root_struct_text(m, apiname)),
        (BridgeItemKind::Entrypoint, spec_entrypoint_text(m, apiname, ep)),
    ]
}

/// The whole producer-side output: the runtime import, every type's
/// decorated definition, shims and destructor, and — in API-table mode
/// — the table items.
pub open spec fn spec_bridge_items(
    m: TypeModel,
    api: Option<(Seq<char>, Seq<char>)>,
) -> Seq<(BridgeItemKind, Seq<char>)> {
    seq![(BridgeItemKind::RuntimeImport, "use diplomat_runtime::*;\n"@)] + spec_types_items(
        m,
        m.types@.len() as int,
    ) + (match api {
        Some((apiname, ep)) => spec_api_items(m, apiname, ep),
        None => Seq::<(BridgeItemKind, Seq<char>)>::empty(),
    })
}

/// Every callback input list in the model fits the binder counter.
pub open spec fn bridge_reqs_ok(m: TypeModel) -> bool {
    forall|i: int, j: int|
        0 <= i < m.types@.len() && 0 <= j < m.types@[i].methods@.len() ==> spec_tramp_reqs_ok(
            (#[trigger] m.types@[i].methods@[j]).params@,
        )
}

/// Item views distribute over appending one item.
pub proof fn lemma_item_views_push(s: Seq<BridgeItem>, it: BridgeItem)
    ensures
        item_views(s.push(it)) == item_views(s).push((it.kind, it.text@)),
{
    assert(item_views(s.push(it)) =~= item_views(s).push((it.kind, it.text@)));
}

/// Generate the whole producer-side module: the runtime import, each
/// declared type's decorated definition, one shim per method, one
/// destructor per declared type under the type's
/// conditional-compilation attributes, and the API-table items when an
/// aggregate name and entrypoint are supplied.
pub fn gen_bridge(m: &TypeModel, api: Option<(&str, &str)>) -> (r: Vec<BridgeItem>)
    requires
        bridge_reqs_ok(*m),
    ensures
        item_views(r@) == spec_bridge_items(
            *m,
            match api {
                Some((a, e)) => Some((a@, e@)),
                None => None,
            },
        ),
{
    let mut items: Vec<BridgeItem> = Vec::new();
    let ghost iv0 = items@;
    items.push(
        BridgeItem {
            kind: BridgeItemKind::RuntimeImport,
            text: "use diplomat_runtime::*;\n".to_owned(),
        },
    );
    proof {
        lemma_item_views_push(iv0, items@.last());
    }
    let ghost head = item_views(items@);
    proof {
        assert(head =~= seq![
            (BridgeItemKind::RuntimeImport, "use diplomat_runtime::*;\n"@),
        ]);
    }
    let mut i: usize = 0;
    while i < m.types.len()
        invariant
            i <= m.types@.len(),
            bridge_reqs_ok(*m),
            head == seq![(BridgeItemKind::RuntimeImport, "use diplomat_runtime::*;\n"@)],
            item_views(items@) == head + spec_types_items(*m, i as int),
        decreases m.types@.len() - i,
    {
        let td = m.resolve_type(i);
        let ghost pre0 = item_views(items@);
        let is_opaque_ty = match &td.kind {
            crate::model::TypeDefKind::Opaque => true,
            _ => false,
        };
        if !is_opaque_ty {
            let tdt = type_decl_text(m, i);
            let ghost ivd = items@;
            items.push(BridgeItem { kind: BridgeItemKind::TypeDecl(i), text: tdt });
            proof {
                lemma_item_views_push(ivd, items@.last());
            }
        }
        let ghost pre = item_views(items@);
        proof {
            assert(pre =~= pre0 + spec_type_decl_part(*m, i as int));
        }
        let mut j: usize = 0;
        while j < td.methods.len()
            invariant
                j <= td.methods@.len(),
                i < m.types@.len(),
                bridge_reqs_ok(*m),
                *td == m.types@[i as int],
                pre == item_views(items@).take(pre.len() as int),
                item_views(items@) == pre + spec_type_shim_items(*m, i as int, 0).take(j as int),
            decreases td.methods@.len() - j,
        {
            proof {
                assert(spec_tramp_reqs_ok(m.types@[i as int].methods@[j as int].params@));
            }
            let text = gen_custom_type_method(m, td.name.as_str(), &td.methods[j]);
            let ghost iv_pre = items@;
            items.push(BridgeItem { kind: BridgeItemKind::MethodShim(i, j), text });
            proof {
                lemma_item_views_push(iv_pre, items@.last());
                lemma_type_shim_items_index(*m, i as int, j as int);
                assert(item_views(items@) =~= pre + spec_type_shim_items(*m, i as int, 0).take(
                    j as int + 1,
                ));
                assert(pre =~= item_views(items@).take(pre.len() as int));
            }
            j += 1;
        }
        let dtor_text = dtor_item_text(&td.cfgs, td.name.as_str());
        let ghost iv_pre2 = items@;
        items.push(
            BridgeItem { kind: BridgeItemKind::Dtor(i), text: dtor_text },
        );
        proof {
            lemma_item_views_push(iv_pre2, items@.last());
            lemma_type_shim_items_len(*m, i as int, 0);
            assert(spec_type_shim_items(*m, i as int, 0).take(
                m.types@[i as int].methods@.len() as int,
            ) =~= spec_type_shim_items(*m, i as int, 0));
            assert(item_views(items@) =~= head + spec_types_items(*m, i as int + 1));
        }
        i += 1;
    }
    match api {
        Some((apiname, entrypoint)) => {
            push_api_bridge(m, apiname, entrypoint, &mut items);
        },
        None => {},
    }
    proof {
        match api {
            Some((a, e)) => {
                assert(item_views(items@) =~= spec_bridge_items(*m, Some((a@, e@))));
            },
            None => {
                assert(item_views(items@) =~= spec_bridge_items(
                    *m,
                    None::<(Seq<char>, Seq<char>)>,
                ));
            },
        }
    }
    items
}

/// The shim-item list from position `j` has one entry per remaining
/// method.
pub proof fn lemma_type_shim_items_len(m: TypeModel, i: int, j: int)
    requires
        0 <= j <= m.types@[i].methods@.len(),
    ensures
        spec_type_shim_items(m, i, j).len() == m.types@[i].methods@.len() - j,
    decreases m.types@[i].methods@.len() - j,
{
    if j < m.types@[i].methods@.len() {
        lemma_type_shim_items_len(m, i, j + 1);
    }
}

/// Taking one more shim item appends exactly method `j`'s shim.
pub proof fn lemma_type_shim_items_index(m: TypeModel, i: int, j: int)
    requires
        0 <= j < m.types@[i].methods@.len(),
    ensures
        spec_type_shim_items(m, i, 0).take(j + 1) == spec_type_shim_items(m, i, 0).take(j) + seq![
            (
                BridgeItemKind::MethodShim(i as usize, j as usize),
                spec_shim_text(m, m.types@[i].name@, m.types@[i].methods@[j]),
            ),
        ],
{
    lemma_type_shim_items_from(m, i, 0, j);
    lemma_type_shim_items_len(m, i, 0);
    assert(spec_type_shim_items(m, i, 0).take(j + 1) =~= spec_type_shim_items(m, i, 0).take(j)
        + seq![spec_type_shim_items(m, i, 0)[j]]);
}

/// The `k`-th shim item is method `j0 + k`'s shim.
pub proof fn lemma_type_shim_items_from(m: TypeModel, i: int, j0: int, j: int)
    requires
        0 <= j0 <= j < m.types@[i].methods@.len(),
    ensures
        j - j0 < spec_type_shim_items(m, i, j0).len(),
        spec_type_shim_items(m, i, j0)[j - j0] == (
            BridgeItemKind::MethodShim(i as usize, j as usize),
            spec_shim_text(m, m.types@[i].name@, m.types@[i].methods@[j]),
        ),
    decreases j - j0,
{
    lemma_type_shim_items_len(m, i, j0);
    if j0 < j {
        lemma_type_shim_items_from(m, i, j0 + 1, j);
    }
}

/// Render one destructor item, under the type's
/// conditional-compilation attributes.
pub fn dtor_item_text(cfgs: &Vec<String>, name: &str) -> (r: String)
    ensures
        r@ == spec_dtor_item_text(cfgs@.map_values(|c: String| c@), name@),
{
    let mut s = cfg_lines_text(cfgs);
    s.append("CAbi fn ");
    let d = crate::fmt::fmt_dtor_name(name);
    s.append(d.as_str());
    s.append("(this: Box<");
    s.append(name);
    s.append(">) {}\n\n");
    s
}

/// Render the decoration attribute lines of one host item.
pub fn decoration_lines_text(d: crate::attrs::Decoration) -> (r: String)
    ensures
        r@ == spec_decoration_lines(d),
{
    let mut s = String::new();
    if d.add_repr_c {
        s.append("#[repr(C)]\n");
    }
    if d.add_value_derives {
        s.append("#[derive(Clone, Copy)]\n");
    }
    proof {
        assert(s@ =~= spec_decoration_lines(d));
    }
    s
}

/// Render the decorated definition of one declared type; empty for
/// opaque types, whose definitions pass through the host unmodified.
pub fn type_decl_text(m: &TypeModel, i: usize) -> (r: String)
    requires
        i < m.types@.len(),
    ensures
        r@ == spec_type_decl_text(*m, i as int),
{
    let td = m.resolve_type(i);
    match &td.kind {
        crate::model::TypeDefKind::Opaque => String::new(),
        crate::model::TypeDefKind::Struct(fields) => {
            let info = crate::attrs::AttributeInfo {
                repr: td.has_repr,
                opaque: false,
                is_out: false,
            };
            proof {
                assert(info == spec_host_info(*m, i as int));
            }
            let deco = match crate::attrs::decide_decoration(
                crate::attrs::HostItemKind::StructItem,
                &info,
            ) {
                Result::Ok(d) => d,
                Result::Err(_) => {
                    proof {
                        assert(false);
                    }
                    crate::attrs::Decoration { add_repr_c: false, add_value_derives: false }
                },
            };
            let mut s = cfg_lines_text(&td.cfgs);
            let dl = decoration_lines_text(deco);
            s.append(dl.as_str());
            s.append("pub struct ");
            s.append(td.name.as_str());
            s.append(" {\n");
            let fl = struct_fields_text(m, fields);
            s.append(fl.as_str());
            s.append("}\n\n");
            proof {
                assert(s@ =~= spec_type_decl_text(*m, i as int));
            }
            s
        },
        crate::model::TypeDefKind::OutStruct(fields) => {
            let info = crate::attrs::AttributeInfo {
                repr: td.has_repr,
                opaque: false,
                is_out: true,
            };
            proof {
                assert(info == spec_host_info(*m, i as int));
            }
            let deco = match crate::attrs::decide_decoration(
                crate::attrs::HostItemKind::StructItem,
                &info,
            ) {
                Result::Ok(d) => d,
                Result::Err(_) => {
                    proof {
                        assert(false);
                    }
                    crate::attrs::Decoration { add_repr_c: false, add_value_derives: false }
                },
            };
            let mut s = cfg_lines_text(&td.cfgs);
            let dl = decoration_lines_text(deco);
            s.append(dl.as_str());
            s.append("pub struct ");
            s.append(td.name.as_str());
            s.append(" {\n");
            let fl = struct_fields_text(m, fields);
            s.append(fl.as_str());
            s.append("}\n\n");
            proof {
                assert(s@ =~= spec_type_decl_text(*m, i as int));
            }
            s
        },
        crate::model::TypeDefKind::Enum(vs) => {
            let info = crate::attrs::AttributeInfo {
                repr: td.has_repr,
                opaque: false,
                is_out: false,
            };
            proof {
                assert(info == spec_host_info(*m, i as int));
            }
            let deco = match crate::attrs::decide_decoration(
                crate::attrs::HostItemKind::EnumItem,
                &info,
            ) {
                Result::Ok(d) => d,
                Result::Err(_) => {
                    proof {
                        assert(false);
                    }
                    crate::attrs::Decoration { add_repr_c: false, add_value_derives: false }
                },
            };
            let mut s = cfg_lines_text(&td.cfgs);
            let dl = decoration_lines_text(deco);
            s.append(dl.as_str());
            s.append("pub enum ");
            s.append(td.name.as_str());
            s.append(" {\n");
            let vl = enum_variants_text(vs);
            s.append(vl.as_str());
            s.append("}\n\n");
            proof {
                assert(s@ =~= spec_type_decl_text(*m, i as int));
            }
            s
        },
    }
}

/// Render the fields of a re-emitted struct definition.
fn struct_fields_text(m: &TypeModel, fields: &Vec<crate::model::FieldDescriptor>) -> (r: String)
    ensures
        r@ == spec_struct_fields_rust(*m, fields@),
{
    let mut s = String::new();
    let mut k: usize = 0;
    while k < fields.len()
        invariant
            k <= fields@.len(),
            s@ == spec_struct_fields_rust(*m, fields@.take(k as int)),
        decreases fields@.len() - k,
    {
        s.append("  pub ");
        s.append(fields[k].name.as_str());
        s.append(": ");
        let t = rust_ty_text(m, &fields[k].ty);
        s.append(t.as_str());
        s.append(",\n");
        proof {
            assert(fields@.take(k as int + 1).drop_last() =~= fields@.take(k as int));
            assert(fields@.take(k as int + 1).last() == fields@[k as int]);
            assert(s@ =~= spec_struct_fields_rust(*m, fields@.take(k as int + 1)));
        }
        k += 1;
    }
    proof {
        assert(fields@.take(fields@.len() as int) =~= fields@);
    }
    s
}

/// Render the variants of a re-emitted enum definition, each with its
/// explicit discriminant.
fn enum_variants_text(vs: &Vec<crate::model::EnumVariant>) -> (r: String)
    ensures
        r@ == spec_enum_variants_rust(vs@),
{
    let mut s = String::new();
    let mut k: usize = 0;
    while k < vs.len()
        invariant
            k <= vs@.len(),
            s@ == spec_enum_variants_rust(vs@.take(k as int)),
        decreases vs@.len() - k,
    {
        s.append("  ");
        s.append(vs[k].name.as_str());
        s.append(" = ");
        crate::text::push_dec_i64(&mut s, vs[k].discriminant);
        s.append(",\n");
        proof {
            assert(vs@.take(k as int + 1).drop_last() =~= vs@.take(k as int));
            assert(vs@.take(k as int + 1).last() == vs@[k as int]);
            assert(s@ =~= spec_enum_variants_rust(vs@.take(k as int + 1)));
        }
        k += 1;
    }
    proof {
        assert(vs@.take(vs@.len() as int) =~= vs@);
    }
    s
}

/// Append the API-table items: every exposed type's table type and
/// constructor, the fixed core sub-table, the aggregate struct holding
/// each exposed table by value, and the single entrypoint returning the
/// aggregate by value. Both aggregates — this struct and the C header —
/// draw their member lists from the same exposed-type names, so their
/// layouts always agree member for member.
pub fn push_api_bridge(m: &TypeModel, apiname: &str, entrypoint: &str, items: &mut Vec<BridgeItem>)
    ensures
        item_views(final(items)@) == item_views(old(items)@) + spec_api_items(
            *m,
            apiname@,
            entrypoint@,
        ),
{
    let ghost base = item_views(old(items)@);
    proof {
        assert(item_views(items@) =~= base + spec_api_type_items(*m, 0));
    }
    let mut i: usize = 0;
    while i < m.types.len()
        invariant
            i <= m.types@.len(),
            base == item_views(old(items)@),
            item_views(items@) == base + spec_api_type_items(*m, i as int),
        decreases m.types@.len() - i,
    {
        if is_exposed(m, i) {
            let td = m.resolve_type(i);
            let mut st = "#[repr(C)]\npub struct __".to_owned();
            st.append(td.name.as_str());
            st.append("_API__ {\n");
            let ghost st_head = st@;
            let mut j: usize = 0;
            while j < td.methods.len()
                invariant
                    j <= td.methods@.len(),
                    i < m.types@.len(),
                    *td == m.types@[i as int],
                    st@ + spec_api_field_lines(*m, i as int, j as int) == st_head
                        + spec_api_field_lines(*m, i as int, 0),
                decreases td.methods@.len() - j,
            {
                let ghost st_pre = st@;
                if !td.methods[j].disabled {
                    st.append("  pub ");
                    st.append(td.methods[j].name.as_str());
                    st.append(": ");
                    let ft = gen_custom_type_field(m, &td.methods[j]);
                    st.append(ft.as_str());
                    st.append(",\n");
                    proof {
                        assert(st@ =~= st_pre + ("  pub "@
                            + m.types@[i as int].methods@[j as int].name@ + ": "@
                            + spec_field_text(*m, m.types@[i as int].methods@[j as int])
                            + ",\n"@));
                        assert(st@ + spec_api_field_lines(*m, i as int, j as int + 1) =~= st_pre
                            + spec_api_field_lines(*m, i as int, j as int));
                    }
                } else {
                    proof {
                        assert(st@ + spec_api_field_lines(*m, i as int, j as int + 1) =~= st_pre
                            + spec_api_field_lines(*m, i as int, j as int));
                    }
                }
                j += 1;
            }
            proof {
                assert(spec_api_field_lines(*m, i as int, td.methods@.len() as int)
                    =~= Seq::<char>::empty());
                assert(st@ =~= st_head + spec_api_field_lines(*m, i as int, 0));
            }
            st.append("  pub ");
            let dtor = crate::fmt::fmt_dtor_name(td.name.as_str());
            st.append(dtor.as_str());
            st.append(": CAbi fn(this: Box<");
            st.append(td.name.as_str());
            st.append(">),\n");
            st.append("}\n\n");
            proof {
                assert(st@ =~= spec_api_struct_text(*m, i as int));
            }
            let ghost iv_a = items@;
            items.push(BridgeItem { kind: BridgeItemKind::ApiStruct(i), text: st });
            proof {
                lemma_item_views_push(iv_a, items@.last());
            }
            let mut gt = "fn __get_".to_owned();
            gt.append(td.name.as_str());
            gt.append("_api__() -> __");
            gt.append(td.name.as_str());
            gt.append("_API__ {\n  __");
            gt.append(td.name.as_str());
            gt.append("_API__ {\n");
            let ghost gt_head = gt@;
            let mut k: usize = 0;
            while k < td.methods.len()
                invariant
                    k <= td.methods@.len(),
                    i < m.types@.len(),
                    *td == m.types@[i as int],
                    gt@ + spec_api_getter_lines(*m, i as int, k as int) == gt_head
                        + spec_api_getter_lines(*m, i as int, 0),
                decreases td.methods@.len() - k,
            {
                let ghost gt_pre = gt@;
                if !td.methods[k].disabled {
                    gt.append("    ");
                    gt.append(td.methods[k].name.as_str());
                    gt.append(": ");
                    gt.append(td.methods[k].full_path_name.as_str());
                    gt.append(",\n");
                    proof {
                        assert(gt@ + spec_api_getter_lines(*m, i as int, k as int + 1)
                            =~= gt_pre + spec_api_getter_lines(*m, i as int, k as int));
                    }
                } else {
                    proof {
                        assert(gt@ + spec_api_getter_lines(*m, i as int, k as int + 1)
                            =~= gt_pre + spec_api_getter_lines(*m, i as int, k as int));
                    }
                }
                k += 1;
            }
            proof {
                assert(spec_api_getter_lines(*m, i as int, td.methods@.len() as int)
                    =~= Seq::<char>::empty());
                assert(gt@ =~= gt_head + spec_api_getter_lines(*m, i as int, 0));
            }
            gt.append("    ");
            gt.append(dtor.as_str());
            gt.append(": ");
            gt.append(dtor.as_str());
            gt.append(",\n  }\n}\n\n");
            proof {
                assert(gt@ =~= spec_api_getter_text(*m, i as int));
            }
            let ghost iv_g = items@;
            items.push(BridgeItem { kind: BridgeItemKind::ApiGetter(i), text: gt });
            proof {
                lemma_item_views_push(iv_g, items@.last());
                assert(item_views(items@) =~= base + spec_api_type_items(*m, i as int + 1));
            }
        } else {
            proof {
                assert(item_views(items@) =~= base + spec_api_type_items(*m, i as int + 1));
            }
        }
        i += 1;
    }
    let ghost iv_c = items@;
    items.push(
        BridgeItem {
            kind: BridgeItemKind::CoreApi,
            text: "pub mod __core__ {\n  #[repr(C)]\n  pub struct __Core_API__ {\n    pub free: CAbi fn(ptr: *mut c_void),\n  }\n\n  #[no_mangle]\n  pub CAbi fn free(ptr: *mut c_void) {\n    diplomat_runtime::free_ptr(ptr);\n  }\n\n  pub fn api_get_core() -> __Core_API__ {\n    __Core_API__ { free: free }\n  }\n}\n\n".to_owned(),
        },
    );
    proof {
        lemma_item_views_push(iv_c, items@.last());
    }
    let mut rs = "#[repr(C)]\npub struct ".to_owned();
    rs.append(apiname);
    rs.append(" {\n  pub core: __core__::__Core_API__,\n");
    let ghost rs_head = rs@;
    let mut t: usize = 0;
    while t < m.types.len()
        invariant
            t <= m.types@.len(),
            rs@ == rs_head + spec_root_fields(spec_api_ty_names(*m, t as int)),
        decreases m.types@.len() - t,
    {
        if is_exposed(m, t) {
            let td = m.resolve_type(t);
            rs.append("  pub ");
            rs.append(td.name.as_str());
            rs.append(": __");
            rs.append(td.name.as_str());
            rs.append("_API__,\n");
            proof {
                let nm = spec_api_ty_names(*m, t as int);
                let nm2 = spec_api_ty_names(*m, t as int + 1);
                assert(nm2 =~= nm.push(m.types@[t as int].name@));
                assert(nm2.drop_last() =~= nm);
                assert(nm2.last() == m.types@[t as int].name@);
                assert(rs@ =~= rs_head + spec_root_fields(nm2));
            }
        } else {
            proof {
                assert(spec_api_ty_names(*m, t as int + 1) =~= spec_api_ty_names(*m, t as int));
            }
        }
        t += 1;
    }
    rs.append("}\n\n");
    proof {
        assert(rs@ =~= spec_root_struct_text(*m, apiname@));
    }
    let ghost iv_r = items@;
    items.push(BridgeItem { kind: BridgeItemKind::RootStruct, text: rs });
    proof {
        lemma_item_views_push(iv_r, items@.last());
    }
    let mut ep = "#[no_mangle]\npub CAbi fn ".to_owned();
    ep.append(entrypoint);
    ep.append("() -> ");
    ep.append(apiname);
    ep.append(" {\n  ");
    ep.append(apiname);
    ep.append(" {\n    core: __core__::api_get_core(),\n");
    let ghost ep_head = ep@;
    let mut u: usize = 0;
    while u < m.types.len()
        invariant
            u <= m.types@.len(),
            ep@ == ep_head + spec_entry_fields(spec_api_ty_names(*m, u as int)),
        decreases m.types@.len() - u,
    {
        if is_exposed(m, u) {
            let td = m.resolve_type(u);
            ep.append("    ");
            ep.append(td.name.as_str());
            ep.append(": __get_");
            ep.append(td.name.as_str());
            ep.append("_api__(),\n");
            proof {
                let nm = spec_api_ty_names(*m, u as int);
                let nm2 = spec_api_ty_names(*m, u as int + 1);
                assert(nm2 =~= nm.push(m.types@[u as int].name@));
                assert(nm2.drop_last() =~= nm);
                assert(nm2.last() == m.types@[u as int].name@);
                assert(ep@ =~= ep_head + spec_entry_fields(nm2));
            }
        } else {
            proof {
                assert(spec_api_ty_names(*m, u as int + 1) =~= spec_api_ty_names(*m, u as int));
            }
        }
        u += 1;
    }
    ep.append("  }\n}\n");
    proof {
        assert(ep@ =~= spec_entrypoint_text(*m, apiname@, entrypoint@));
    }
    let ghost iv_e = items@;
    items.push(BridgeItem { kind: BridgeItemKind::Entrypoint, text: ep });
    proof {
        lemma_item_views_push(iv_e, items@.last());
        assert(item_views(items@) =~= item_views(old(items)@) + spec_api_items(
            *m,
            apiname@,
            entrypoint@,
        ));
    }
}

/// How many destructor items for declared type `i` a rendered item
/// list holds.
pub open spec fn spec_dtor_count(s: Seq<(BridgeItemKind, Seq<char>)>, i: usize) -> int {
    s.filter(|p: (BridgeItemKind, Seq<char>)| p.0 == BridgeItemKind::Dtor(i)).len() as int
}

proof fn lemma_filter_singleton<A>(x: A, pred: spec_fn(A) -> bool)
    ensures
        seq![x].filter(pred) == if pred(x) {
            seq![x]
        } else {
            Seq::<A>::empty()
        },
{
    reveal(Seq::filter);
    assert(seq![x].drop_last() =~= Seq::<A>::empty());
    assert(seq![x].last() == x);
    if pred(x) {
        assert(Seq::<A>::empty().filter(pred).push(x) =~= seq![x]);
    }
}

proof fn lemma_count_none(s: Seq<(BridgeItemKind, Seq<char>)>, i: usize)
    requires
        forall|k: int| 0 <= k < s.len() ==> (#[trigger] s[k]).0 != BridgeItemKind::Dtor(i),
    ensures
        spec_dtor_count(s, i) == 0,
    decreases s.len(),
{
    reveal(Seq::filter);
    if s.len() > 0 {
        lemma_count_none(s.drop_last(), i);
    }
}

proof fn lemma_shims_all_method(m: TypeModel, t: int, j: int)
    requires
        0 <= j,
    ensures
        forall|k: int| 0 <= k < spec_type_shim_items(m, t, j).len() ==> (
        #[trigger] spec_type_shim_items(m, t, j)[k]).0 matches BridgeItemKind::MethodShim(_, _),
    decreases m.types@[t].methods@.len() - j,
{
    if 0 <= j < m.types@[t].methods@.len() {
        lemma_shims_all_method(m, t, j + 1);
        assert forall|k: int| 0 <= k < spec_type_shim_items(m, t, j).len() implies (
        #[trigger] spec_type_shim_items(m, t, j)[k]).0 matches BridgeItemKind::MethodShim(
            _,
            _,
        ) by {
            if k >= 1 {
                assert(spec_type_shim_items(m, t, j)[k] == spec_type_shim_items(m, t, j + 1)[k
                    - 1]);
            }
        }
    }
}

proof fn lemma_types_items_dtor(m: TypeModel, t: int, i: usize)
    requires
        0 <= t <= m.types@.len(),
        m.types@.len() <= usize::MAX as int,
    ensures
        spec_dtor_count(spec_types_items(m, t), i) == if 0 <= i < t {
            1int
        } else {
            0int
        },
        forall|k: int|
            0 <= k < spec_types_items(m, t).len() && (#[trigger] spec_types_items(m, t)[k]).0
                == BridgeItemKind::Dtor(i) ==> spec_types_items(m, t)[k].1 == spec_dtor_item_text(
                m.types@[i as int].cfgs@.map_values(|c: String| c@),
                m.types@[i as int].name@,
            ),
    decreases t,
{
    let pred = |p: (BridgeItemKind, Seq<char>)| p.0 == BridgeItemKind::Dtor(i);
    if t > 0 {
        lemma_types_items_dtor(m, t - 1, i);
        let declp = spec_type_decl_part(m, t - 1);
        let shims = spec_type_shim_items(m, t - 1, 0);
        let dt = (
            BridgeItemKind::Dtor((t - 1) as usize),
            spec_dtor_item_text(
                m.types@[t - 1].cfgs@.map_values(|c: String| c@),
                m.types@[t - 1].name@,
            ),
        );
        assert(spec_type_items(m, t - 1) == declp + shims + seq![dt]);
        Seq::filter_distributes_over_add(
            spec_types_items(m, t - 1),
            spec_type_items(m, t - 1),
            pred,
        );
        Seq::filter_distributes_over_add(declp + shims, seq![dt], pred);
        Seq::filter_distributes_over_add(declp, shims, pred);
        assert forall|k: int| 0 <= k < declp.len() implies (#[trigger] declp[k]).0
            != BridgeItemKind::Dtor(i) by {
            assert(declp[k].0 == BridgeItemKind::TypeDecl((t - 1) as usize));
        }
        lemma_count_none(declp, i);
        lemma_shims_all_method(m, t - 1, 0);
        lemma_count_none(shims, i);
        lemma_filter_singleton(dt, pred);
        if i as int == t - 1 {
            assert(BridgeItemKind::Dtor((t - 1) as usize) == BridgeItemKind::Dtor(i));
        } else {
            assert((t - 1) as usize as int == t - 1);
            assert(BridgeItemKind::Dtor((t - 1) as usize) != BridgeItemKind::Dtor(i));
        }
        assert forall|k: int|
            0 <= k < spec_types_items(m, t).len() && (#[trigger] spec_types_items(m, t)[k]).0
                == BridgeItemKind::Dtor(i) implies spec_types_items(m, t)[k].1
            == spec_dtor_item_text(
            m.types@[i as int].cfgs@.map_values(|c: String| c@),
            m.types@[i as int].name@,
        ) by {
            let prev = spec_types_items(m, t - 1);
            if k < prev.len() {
                assert(spec_types_items(m, t)[k] == prev[k]);
            } else {
                let rest = spec_type_items(m, t - 1);
                assert(spec_types_items(m, t)[k] == rest[k - prev.len()]);
                let k2 = k - prev.len();
                if k2 < declp.len() {
                    assert(rest[k2] == (declp + shims)[k2]);
                    assert((declp + shims)[k2] == declp[k2]);
                } else if k2 < declp.len() + shims.len() {
                    assert(rest[k2] == (declp + shims)[k2]);
                    assert((declp + shims)[k2] == shims[k2 - declp.len()]);
                } else {
                    assert(rest[k2] == dt);
                    assert((t - 1) as usize as int == t - 1);
                    assert(i as int == t - 1);
                }
            }
        }
    }
}

proof fn lemma_api_type_items_no_dtor(m: TypeModel, t: int, i: usize)
    requires
        0 <= t,
    ensures
        spec_dtor_count(spec_api_type_items(m, t), i) == 0,
    decreases t,
{
    let pred = |p: (BridgeItemKind, Seq<char>)| p.0 == BridgeItemKind::Dtor(i);
    if t > 0 {
        lemma_api_type_items_no_dtor(m, t - 1, i);
        let two = seq![
            (BridgeItemKind::ApiStruct((t - 1) as usize), spec_api_struct_text(m, t - 1)),
            (BridgeItemKind::ApiGetter((t - 1) as usize), spec_api_getter_text(m, t - 1)),
        ];
        Seq::filter_distributes_over_add(spec_api_type_items(m, t - 1), two, pred);
        lemma_count_none(two, i);
    }
}

/// Exactly one destructor item is rendered for every declared type —
/// in particular for every opaque type — and it is the single-owner
/// form: the handle is taken by value and dropping it is the one
/// deallocation, so destroying each allocated instance once frees
/// everything and nothing twice.
pub proof fn lemma_one_destructor_each(
    m: TypeModel,
    api: Option<(Seq<char>, Seq<char>)>,
    i: usize,
)
    requires
        i < m.types@.len(),
        m.types@.len() <= usize::MAX as int,
    ensures
        spec_dtor_count(spec_bridge_items(m, api), i) == 1,
        forall|k: int|
            0 <= k < spec_bridge_items(m, api).len() && (#[trigger] spec_bridge_items(m, api)[k]).0
                == BridgeItemKind::Dtor(i) ==> spec_bridge_items(m, api)[k].1
                == spec_dtor_item_text(
                m.types@[i as int].cfgs@.map_values(|c: String| c@),
                m.types@[i as int].name@,
            ),
{
    let pred = |p: (BridgeItemKind, Seq<char>)| p.0 == BridgeItemKind::Dtor(i);
    let head = seq![(BridgeItemKind::RuntimeImport, "use diplomat_runtime::*;\n"@)];
    let mid = spec_types_items(m, m.types@.len() as int);
    let tail: Seq<(BridgeItemKind, Seq<char>)> = match api {
        Some((apiname, ep)) => spec_api_items(m, apiname, ep),
        None => Seq::empty(),
    };
    Seq::filter_distributes_over_add(head, mid, pred);
    Seq::filter_distributes_over_add(head + mid, tail, pred);
    lemma_count_none(head, i);
    lemma_types_items_dtor(m, m.types@.len() as int, i);
    match api {
        Some((apiname, ep)) => {
            let three = seq![
                (BridgeItemKind::CoreApi, spec_core_api_text()),
                (BridgeItemKind::RootStruct, spec_root_struct_text(m, apiname)),
                (BridgeItemKind::Entrypoint, spec_entrypoint_text(m, apiname, ep)),
            ];
            Seq::filter_distributes_over_add(
                spec_api_type_items(m, m.types@.len() as int),
                three,
                pred,
            );
            lemma_api_type_items_no_dtor(m, m.types@.len() as int, i);
            lemma_count_none(three, i);
        },
        None => {
            lemma_count_none(tail, i);
        },
    }
    assert(spec_bridge_items(m, api) == (head + mid) + tail);
    assert forall|k: int|
        0 <= k < spec_bridge_items(m, api).len() && (#[trigger] spec_bridge_items(m, api)[k]).0
            == BridgeItemKind::Dtor(i) implies spec_bridge_items(m, api)[k].1
        == spec_dtor_item_text(
        m.types@[i as int].cfgs@.map_values(|c: String| c@),
        m.types@[i as int].name@,
    ) by {
        let whole = spec_bridge_items(m, api);
        if k < head.len() {
            assert(whole[k] == head[k]);
        } else if k < head.len() + mid.len() {
            assert(whole[k] == mid[k - head.len()]);
        } else {
            assert(whole[k] == tail[k - head.len() - mid.len()]);
            assert(spec_dtor_count(tail, i) == 0);
            assert(tail.contains(tail[k - head.len() - mid.len()]));
            assert forall|k2: int| 0 <= k2 < tail.len() implies (#[trigger] tail[k2]).0
                != BridgeItemKind::Dtor(i) by {
                if tail[k2].0 == BridgeItemKind::Dtor(i) {
                    lemma_count_positive(tail, k2, pred);
                }
            }
        }
    }
}

/// A sequence with an element satisfying the predicate filters to a
/// non-empty sequence.
proof fn lemma_count_positive<A>(s: Seq<A>, k: int, pred: spec_fn(A) -> bool)
    requires
        0 <= k < s.len(),
        pred(s[k]),
    ensures
        s.filter(pred).len() > 0,
    decreases s.len(),
{
    reveal(Seq::filter);
    if k == s.len() - 1 {
    } else {
        lemma_count_positive(s.drop_last(), k, pred);
    }
}

/// In API-table mode, the rendered table items — and so the table the
/// generated entrypoint builds — are a pure function of the model and
/// the two caller-supplied names: any two renderings within one run
/// agree item for item, which is the stability a host relies on when it
/// calls the entrypoint more than once in the same process.
pub proof fn lemma_api_table_stable(
    m: TypeModel,
    apiname: Seq<char>,
    ep: Seq<char>,
    v1: Seq<(BridgeItemKind, Seq<char>)>,
    v2: Seq<(BridgeItemKind, Seq<char>)>,
)
    requires
        v1 == spec_bridge_items(m, Some((apiname, ep))),
        v2 == spec_bridge_items(m, Some((apiname, ep))),
    ensures
        v1 == v2,
{
}

/// One caller-supplied argument of the bridge invocation: a named
/// identifier value, or a list of verbatim additional inclusion paths.
pub enum ArgValue {
    IdentVal(String),
    ListVal(Vec<String>),
}

pub struct BridgeArg {
    pub key: String,
    pub value: ArgValue,
}

/// An identifier argument under an unknown key is a fatal error.
pub open spec fn spec_arg_bad(a: BridgeArg) -> bool {
    a.value matches ArgValue::IdentVal(_) && a.key@ != "apiname"@ && a.key@ != "refresh_api_fn"@
        && a.key@ != "get_api_fn"@
}

pub open spec fn spec_args_bad(args: Seq<BridgeArg>) -> bool {
    exists|i: int| 0 <= i < args.len() && spec_arg_bad(#[trigger] args[i])
}

/// The last value supplied under `key`, if any.
pub open spec fn spec_arg_of(args: Seq<BridgeArg>, key: Seq<char>) -> Option<Seq<char>>
    decreases args.len(),
{
    if args.len() == 0 {
        None
    } else if args.last().key@ == key && args.last().value is IdentVal {
        match args.last().value {
            ArgValue::IdentVal(v) => Some(v@),
            ArgValue::ListVal(_) => None,
        }
    } else {
        spec_arg_of(args.drop_last(), key)
    }
}

/// API-table mode is entered when both an aggregate name and a refresh
/// entrypoint were supplied.
pub open spec fn spec_api_mode(args: Seq<BridgeArg>) -> Option<(Seq<char>, Seq<char>)> {
    match (spec_arg_of(args, "apiname"@), spec_arg_of(args, "refresh_api_fn"@)) {
        (Some(a), Some(r)) => Some((a, r)),
        _ => None,
    }
}

/// Validate the bridge invocation's arguments and generate the whole
/// producer-side module: the item list of `gen_bridge`, in API-table
/// mode when both table names were supplied. An identifier argument
/// under any other key aborts with a fatal error; list arguments are
/// additional inclusion paths for the aggregate header and do not
/// affect the producer side.
pub fn bridge(m: &TypeModel, args: &Vec<BridgeArg>) -> (r: Result<Vec<BridgeItem>, String>)
    requires
        bridge_reqs_ok(*m),
    ensures
        match r {
            Result::Err(e) => spec_args_bad(args@) && e@
                == "only apiname, refresh_api_fn, get_api_fn and additional_includes are accepted"@,
            Result::Ok(items) => {
                &&& !spec_args_bad(args@)
                &&& item_views(items@) == spec_bridge_items(*m, spec_api_mode(args@))
            },
        },
{
    let mut apiname: Option<String> = None;
    let mut refresh: Option<String> = None;
    let mut i: usize = 0;
    while i < args.len()
        invariant
            i <= args@.len(),
            !spec_args_bad(args@.take(i as int)),
            match apiname {
                Some(ref s) => spec_arg_of(args@.take(i as int), "apiname"@) == Some(s@),
                None => spec_arg_of(args@.take(i as int), "apiname"@) is None,
            },
            match refresh {
                Some(ref s) => spec_arg_of(args@.take(i as int), "refresh_api_fn"@) == Some(s@),
                None => spec_arg_of(args@.take(i as int), "refresh_api_fn"@) is None,
            },
        decreases args@.len() - i,
    {
        let ghost pre = args@.take(i as int);
        match &args[i].value {
            ArgValue::IdentVal(v) => {
                if crate::attrs::str_eq_lit(&args[i].key, "apiname") {
                    apiname = Some(v.clone());
                } else if crate::attrs::str_eq_lit(&args[i].key, "refresh_api_fn") {
                    refresh = Some(v.clone());
                } else if crate::attrs::str_eq_lit(&args[i].key, "get_api_fn") {
                } else {
                    proof {
                        assert(spec_arg_bad(args@[i as int]));
                    }
                    return Result::Err(
                        "only apiname, refresh_api_fn, get_api_fn and additional_includes are accepted".to_owned(),
                    );
                }
            },
            ArgValue::ListVal(_) => {},
        }
        proof {
            let nxt = args@.take(i as int + 1);
            assert(nxt.drop_last() =~= pre);
            assert(nxt.last() == args@[i as int]);
            if spec_args_bad(nxt) {
                let w = choose|w: int| 0 <= w < nxt.len() && spec_arg_bad(#[trigger] nxt[w]);
                if w < i {
                    assert(spec_arg_bad(pre[w]));
                }
                assert(false);
            }
            reveal_strlit("apiname");
            reveal_strlit("refresh_api_fn");
            assert("apiname"@.len() == 7);
            assert("refresh_api_fn"@.len() == 14);
            assert("apiname"@ != "refresh_api_fn"@);
        }
        i += 1;
    }
    proof {
        assert(args@.take(args@.len() as int) =~= args@);
    }
    let api: Option<(&str, &str)> = match (&apiname, &refresh) {
        (Some(a), Some(r)) => Some((a.as_str(), r.as_str())),
        _ => None,
    };
    let items = gen_bridge(m, api);
    Result::Ok(items)
}

} // verus!
