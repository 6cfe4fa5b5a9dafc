//! Producer-side marshalling: for each declared parameter, the plan for
//! rebuilding the rich value from the raw ABI parameters, and for callback
//! parameters the trampoline that adapts a raw function-pointer/context
//! pair into an ordinary call.

use vstd::prelude::*;
use crate::model::{
    FnInput, FnInputs, MethodDescriptor, Ownership, ParamDescriptor, SliceElem, TypeDescriptor,
};
use crate::lowering::{
    boundary_params_ok, gen_params_at_boundary, spec_boundary_len, AbiParam, LoweredTy,
};
use crate::text::spec_dec_nat;

verus! {

/// One argument of the shim's call into the real operation.
pub enum ArgExpr {
    /// The raw parameter is passed through under its own name.
    Name(String),
    /// A slice or string rebuilt from its `(data, len)` pair; the
    /// reconstruction is guarded so a zero length never touches the data
    /// pointer.
    SliceFromRaw(String, Ownership, SliceElem, bool),
    /// A flattened result converted back by an explicit conversion.
    IntoConverted(String),
    /// A callback adapted by a trampoline closure.
    Trampoline(TrampolinePlan),
}

/// The trampoline generated for one callback parameter: a closure that
/// binds the declared inputs, then performs exactly one call of the raw
/// function pointer, forwarding the captured context pointer first.
pub struct TrampolinePlan {
    /// The parameter holding the raw function pointer the closure calls.
    pub callback: String,
    /// Closure binder names, one per declared callback input.
    pub binders: Vec<String>,
    /// The raw arguments of the single forwarded call, context first.
    pub forwarded: Vec<ForwardedAtom>,
    /// The declared output type of the callback (`Unit` when none).
    pub out: TypeDescriptor,
}

/// One raw argument forwarded by the trampoline.
pub enum ForwardedAtom {
    /// The captured context pointer, passed through untouched.
    Ctx,
    /// A binder passed whole.
    Whole(String),
    /// The data pointer of a slice-like binder.
    DataPtrOf(String),
    /// The length of a slice-like binder.
    LenOf(String),
}

/// The spec-level shape of a forwarded atom, names as character
/// sequences.
pub enum AtomShape {
    CtxShape,
    WholeShape(Seq<char>),
    DataPtrShape(Seq<char>),
    LenShape(Seq<char>),
}

pub open spec fn atom_shape(a: ForwardedAtom) -> AtomShape {
    match a {
        ForwardedAtom::Ctx => AtomShape::CtxShape,
        ForwardedAtom::Whole(s) => AtomShape::WholeShape(s@),
        ForwardedAtom::DataPtrOf(s) => AtomShape::DataPtrShape(s@),
        ForwardedAtom::LenOf(s) => AtomShape::LenShape(s@),
    }
}

/// The binder name of callback input `inp` at position `j`: its declared
/// name, or a positional synthetic name.
pub open spec fn spec_binder_view(inp: FnInput, j: int) -> Seq<char> {
    match inp.name {
        Some(n) => n@,
        None => seq!['_'] + spec_dec_nat(j as nat),
    }
}

/// What one callback input contributes to the forwarded call: slice-like
/// inputs are decomposed into their data pointer and length — the same
/// two-parameter encoding a direct call across the boundary uses — and
/// every other input is forwarded whole.
pub open spec fn spec_input_atoms(inp: FnInput, b: Seq<char>) -> Seq<AtomShape> {
    if inp.ty.is_slice_like() {
        seq![AtomShape::DataPtrShape(b), AtomShape::LenShape(b)]
    } else {
        seq![AtomShape::WholeShape(b)]
    }
}

pub open spec fn spec_tramp_atoms(inputs: FnInputs, j: int) -> Seq<AtomShape>
    decreases inputs,
{
    match inputs {
        FnInputs::Nil => Seq::empty(),
        FnInputs::Cons(head, tail) => spec_input_atoms(head, spec_binder_view(head, j))
            + spec_tramp_atoms(*tail, j + 1),
    }
}

pub open spec fn spec_binder_views(inputs: FnInputs, j: int) -> Seq<Seq<char>>
    decreases inputs,
{
    match inputs {
        FnInputs::Nil => Seq::empty(),
        FnInputs::Cons(head, tail) => seq![spec_binder_view(head, j)] + spec_binder_views(
            *tail,
            j + 1,
        ),
    }
}

/// What the trampoline for a callback parameter must look like.
pub open spec fn trampoline_plan_ok(
    cb_name: Seq<char>,
    inputs: FnInputs,
    out: TypeDescriptor,
    plan: TrampolinePlan,
) -> bool {
    &&& plan.callback@ == cb_name
    &&& plan.out == out
    &&& plan.binders@.map_values(|s: String| s@) == spec_binder_views(inputs, 0)
    &&& plan.forwarded@.map_values(|a: ForwardedAtom| atom_shape(a)) == seq![AtomShape::CtxShape]
        + spec_tramp_atoms(inputs, 0)
}

/// What the shim passes to the real operation for one declared parameter.
pub open spec fn invocation_arg_ok(p: ParamDescriptor, a: ArgExpr) -> bool {
    match p.ty {
        TypeDescriptor::Function(inputs, out) => a matches ArgExpr::Trampoline(plan)
            && trampoline_plan_ok(p.name@, *inputs, *out, plan),
        TypeDescriptor::Slice(own, elem, validated) => a matches ArgExpr::SliceFromRaw(
            n,
            o,
            e,
            v,
        ) && n@ == p.name@ && o == own && e == elem && v == validated,
        TypeDescriptor::ResultOf(_, _, _) => a matches ArgExpr::IntoConverted(n) && n@ == p.name@,
        _ => a matches ArgExpr::Name(n) && n@ == p.name@,
    }
}

/// Build binders and forwarded atoms for the callback inputs, numbering
/// binders from `j`.
fn build_trampoline(
    inputs: &FnInputs,
    j: usize,
    binders: &mut Vec<String>,
    atoms: &mut Vec<ForwardedAtom>,
)
    requires
        j as int + inputs.to_seq().len() <= usize::MAX as int,
    ensures
        final(binders)@.map_values(|s: String| s@) == old(binders)@.map_values(|s: String| s@)
            + spec_binder_views(*inputs, j as int),
        final(atoms)@.map_values(|a: ForwardedAtom| atom_shape(a)) == old(atoms)@.map_values(
            |a: ForwardedAtom| atom_shape(a),
        ) + spec_tramp_atoms(*inputs, j as int),
    decreases *inputs,
{
    match inputs {
        FnInputs::Nil => {
            proof {
                assert(old(binders)@.map_values(|s: String| s@) + spec_binder_views(
                    *inputs,
                    j as int,
                ) =~= binders@.map_values(|s: String| s@));
                assert(old(atoms)@.map_values(|a: ForwardedAtom| atom_shape(a)) + spec_tramp_atoms(
                    *inputs,
                    j as int,
                ) =~= atoms@.map_values(|a: ForwardedAtom| atom_shape(a)));
            }
        },
        FnInputs::Cons(head, tail) => {
            let b: String = match &head.name {
                Some(n) => n.clone(),
                None => {
                    let mut s = "_".to_owned();
                    crate::text::push_dec_u64(&mut s, j as u64);
                    proof {
                        reveal_strlit("_");
                        assert("_"@ =~= seq!['_']);
                    }
                    s
                },
            };
            let ghost mid_b = binders@;
            let ghost mid_a = atoms@;
            let slice_like = match &head.ty {
                TypeDescriptor::Slice(_, _, _) => true,
                _ => false,
            };
            if slice_like {
                atoms.push(ForwardedAtom::DataPtrOf(b.clone()));
                atoms.push(ForwardedAtom::LenOf(b.clone()));
            } else {
                atoms.push(ForwardedAtom::Whole(b.clone()));
            }
            binders.push(b);
            proof {
                assert(binders@.map_values(|s: String| s@) =~= old(binders)@.map_values(
                    |s: String| s@,
                ) + seq![spec_binder_view(*head, j as int)]);
                assert(atoms@.map_values(|a: ForwardedAtom| atom_shape(a)) =~= old(
                    atoms,
                )@.map_values(|a: ForwardedAtom| atom_shape(a)) + spec_input_atoms(
                    *head,
                    spec_binder_view(*head, j as int),
                ));
            }
            build_trampoline(&**tail, j + 1, binders, atoms);
            proof {
                assert(binders@.map_values(|s: String| s@) =~= old(binders)@.map_values(
                    |s: String| s@,
                ) + spec_binder_views(*inputs, j as int));
                assert(atoms@.map_values(|a: ForwardedAtom| atom_shape(a)) =~= old(
                    atoms,
                )@.map_values(|a: ForwardedAtom| atom_shape(a)) + spec_tramp_atoms(
                    *inputs,
                    j as int,
                ));
            }
        },
    }
}

/// Compute what the shim passes to the real operation for one declared
/// parameter, appending it to `expanded_params`: slice-likes are rebuilt
/// from their raw pair, flattened results converted, callbacks wrapped in
/// a trampoline, and everything else passed through by name.
pub fn gen_params_invocation(param: &ParamDescriptor, expanded_params: &mut Vec<ArgExpr>)
    requires
        param.ty matches TypeDescriptor::Function(inputs, _) ==> inputs.to_seq().len()
            <= usize::MAX as int,
    ensures
        final(expanded_params)@.len() == old(expanded_params)@.len() + 1,
        final(expanded_params)@.subrange(0, old(expanded_params)@.len() as int) == old(
            expanded_params,
        )@,
        invocation_arg_ok(*param, final(expanded_params)@.last()),
{
    let arg: ArgExpr = match &param.ty {
        TypeDescriptor::Function(inputs, out) => {
            let mut binders: Vec<String> = Vec::new();
            let mut atoms: Vec<ForwardedAtom> = Vec::new();
            atoms.push(ForwardedAtom::Ctx);
            build_trampoline(&**inputs, 0, &mut binders, &mut atoms);
            proof {
                assert(atoms@.map_values(|a: ForwardedAtom| atom_shape(a)) =~= seq![
                    AtomShape::CtxShape,
                ] + spec_tramp_atoms(**inputs, 0));
                assert(binders@.map_values(|s: String| s@) =~= spec_binder_views(**inputs, 0));
            }
            ArgExpr::Trampoline(
                TrampolinePlan {
                    callback: param.name.clone(),
                    binders,
                    forwarded: atoms,
                    out: (&**out).dup(),
                },
            )
        },
        TypeDescriptor::Slice(own, elem, validated) => ArgExpr::SliceFromRaw(
            param.name.clone(),
            *own,
            *elem,
            *validated,
        ),
        TypeDescriptor::ResultOf(_, _, _) => ArgExpr::IntoConverted(param.name.clone()),
        _ => ArgExpr::Name(param.name.clone()),
    };
    expanded_params.push(arg);
    proof {
        let n = old(expanded_params)@.len() as int;
        assert(expanded_params@.subrange(0, n) =~= old(expanded_params)@);
    }
}

/// No forwarded atom after the first is the context pointer: the
/// per-input encodings only ever mention binders.
proof fn lemma_atoms_no_ctx(inputs: FnInputs, j: int)
    ensures
        forall|k: int| 0 <= k < spec_tramp_atoms(inputs, j).len() ==> spec_tramp_atoms(inputs, j)[k]
            != AtomShape::CtxShape,
    decreases inputs,
{
    match inputs {
        FnInputs::Nil => {},
        FnInputs::Cons(head, tail) => {
            lemma_atoms_no_ctx(*tail, j + 1);
        },
    }
}

/// The trampoline generated for a callback parameter performs exactly one
/// invocation of the raw callback (its plan holds a single forwarded
/// call), passes the captured context pointer as the first raw argument
/// and nowhere else — no atom inspects or dereferences it — and forwards
/// each declared argument with the same encoding a direct boundary call
/// would use: slice-like arguments as their `(data, len)` pair, in that
/// order, everything else whole.
pub proof fn lemma_trampoline_forwarding(
    cb_name: Seq<char>,
    inputs: FnInputs,
    out: TypeDescriptor,
    plan: TrampolinePlan,
)
    requires
        trampoline_plan_ok(cb_name, inputs, out, plan),
    ensures
        plan.callback@ == cb_name,
        plan.forwarded@.len() >= 1,
        atom_shape(plan.forwarded@[0]) == AtomShape::CtxShape,
        forall|k: int| 1 <= k < plan.forwarded@.len() ==> atom_shape(#[trigger] plan.forwarded@[k])
            != AtomShape::CtxShape,
        plan.forwarded@.map_values(|a: ForwardedAtom| atom_shape(a)).drop_first()
            == spec_tramp_atoms(inputs, 0),
{
    let shapes = plan.forwarded@.map_values(|a: ForwardedAtom| atom_shape(a));
    assert(shapes == seq![AtomShape::CtxShape] + spec_tramp_atoms(inputs, 0));
    assert(shapes.len() == 1 + spec_tramp_atoms(inputs, 0).len());
    assert(shapes[0] == atom_shape(plan.forwarded@[0]));
    assert(shapes[0] == AtomShape::CtxShape);
    lemma_atoms_no_ctx(inputs, 0);
    assert(shapes.drop_first() =~= spec_tramp_atoms(inputs, 0));
    assert forall|k: int| 1 <= k < plan.forwarded@.len() implies atom_shape(
        #[trigger] plan.forwarded@[k],
    ) != AtomShape::CtxShape by {
        assert(shapes[k] == spec_tramp_atoms(inputs, 0)[k - 1]);
        assert(shapes[k] == atom_shape(plan.forwarded@[k]));
    }
}

/// Where the expansion of the `j`-th declared parameter starts in the
/// full ABI parameter list.
pub open spec fn spec_params_width(params: Seq<ParamDescriptor>, j: int) -> int
    decreases j,
{
    if j <= 0 {
        0
    } else {
        spec_params_width(params, j - 1) + spec_boundary_len(params[j - 1].ty)
    }
}

/// The tail of the ABI parameter list from declared parameter `j` on:
/// each parameter's expansion in order, nothing else.
pub open spec fn params_ok_from(params: Seq<ParamDescriptor>, j: int, r: Seq<AbiParam>) -> bool
    decreases params.len() - j,
{
    if j < 0 || j >= params.len() {
        r.len() == 0
    } else {
        let w = spec_boundary_len(params[j].ty);
        &&& r.len() >= w
        &&& boundary_params_ok(params[j].ty, params[j].name@, r.take(w))
        &&& params_ok_from(params, j + 1, r.skip(w))
    }
}

/// The full ABI parameter list of a method: the self parameter first
/// when there is one, then each declared parameter's expansion, in
/// order.
pub open spec fn method_params_ok(m: MethodDescriptor, r: Seq<AbiParam>) -> bool {
    let base: int = if m.self_param is Some {
        1
    } else {
        0
    };
    &&& r.len() >= base
    &&& (m.self_param matches Some(st) ==> r.len() >= 1 && r[0].lowered == LoweredTy::Direct(st)
        && r[0].name@ == "this"@)
    &&& params_ok_from(m.params@, 0, r.skip(base))
}

/// Expand the declared parameters from index `i` on, appending to
/// `all`.
fn push_params_from(m: &MethodDescriptor, i: usize, all: &mut Vec<AbiParam>)
    requires
        i <= m.params@.len(),
    ensures
        final(all)@.len() >= old(all)@.len(),
        final(all)@.subrange(0, old(all)@.len() as int) == old(all)@,
        params_ok_from(m.params@, i as int, final(all)@.skip(old(all)@.len() as int)),
    decreases m.params@.len() - i,
{
    if i == m.params.len() {
        proof {
            assert(all@.subrange(0, old(all)@.len() as int) =~= all@);
            assert(all@.skip(old(all)@.len() as int) =~= Seq::<AbiParam>::empty());
        }
        return ;
    }
    let ghost n0 = all@.len() as int;
    gen_params_at_boundary(&m.params[i].ty, m.params[i].name.as_str(), all);
    let ghost n1 = all@.len() as int;
    let ghost seg = all@.skip(n0);
    push_params_from(m, i + 1, all);
    proof {
        let w = spec_boundary_len(m.params@[i as int].ty);
        assert(n1 == n0 + w);
        assert(all@.subrange(0, n1) == all@.subrange(0, n1));
        let whole = all@.skip(n0);
        assert(all@.subrange(0, n0) =~= old(all)@) by {
            assert forall|k: int| 0 <= k < n0 implies all@[k] == old(all)@[k] by {
                assert(all@.subrange(0, n1)[k] == all@[k]);
            }
        }
        assert(whole.take(w) =~= seg) by {
            assert forall|k: int| 0 <= k < w implies whole[k] == seg[k] by {
                assert(all@.subrange(0, n1)[n0 + k] == all@[n0 + k]);
            }
        }
        assert(whole.skip(w) =~= all@.skip(n1));
        assert(params_ok_from(m.params@, i as int, whole));
    }
}

/// Expand every parameter of a method to its ABI parameter list.
pub fn gen_custom_type_all_params(m: &MethodDescriptor) -> (r: Vec<AbiParam>)
    ensures
        method_params_ok(*m, r@),
{
    let mut all: Vec<AbiParam> = Vec::new();
    match &m.self_param {
        Some(st) => {
            all.push(AbiParam { lowered: LoweredTy::Direct(st.dup()), name: "this".to_owned() });
        },
        None => {},
    }
    let ghost base = all@.len() as int;
    push_params_from(m, 0, &mut all);
    proof {
        assert(all@.subrange(0, base) == all@.subrange(0, base));
        if m.self_param is Some {
            assert(all@[0] == all@.subrange(0, base)[0]);
        }
    }
    all
}

/// In a list that satisfies `params_ok_from`, the expansion of declared
/// parameter `j` sits at the accumulated width offset; for a slice or
/// string parameter that means exactly two consecutive slots: the data
/// pointer, then the length.
pub proof fn lemma_params_ok_slice(params: Seq<ParamDescriptor>, j0: int, r: Seq<AbiParam>, j: int)
    requires
        params_ok_from(params, j0, r),
        0 <= j0 <= j < params.len(),
        params[j].ty.is_slice_like(),
    ensures
        ({
            let off = spec_params_width(params, j) - spec_params_width(params, j0);
            &&& 0 <= off
            &&& off + 2 <= r.len()
            &&& r[off].lowered matches LoweredTy::DataPtr(_, _)
            &&& r[off].name@ == params[j].name@ + "_diplomat_data"@
            &&& r[off + 1].lowered == LoweredTy::SliceLen
            &&& r[off + 1].name@ == params[j].name@ + "_diplomat_len"@
        }),
    decreases j - j0,
{
    let w0 = spec_boundary_len(params[j0].ty);
    if j == j0 {
        crate::lowering::lemma_slice_lowering_shape(params[j].ty, params[j].name@, r.take(2));
        assert(spec_params_width(params, j) - spec_params_width(params, j0) == 0);
        assert(r.take(2)[0] == r[0]);
        assert(r.take(2)[1] == r[1]);
    } else {
        lemma_params_ok_slice(params, j0 + 1, r.skip(w0), j);
        lemma_width_step(params, j0);
        let off = spec_params_width(params, j) - spec_params_width(params, j0);
        let off1 = spec_params_width(params, j) - spec_params_width(params, j0 + 1);
        assert(off == off1 + w0);
        assert(r.skip(w0)[off1] == r[off]);
        assert(r.skip(w0)[off1 + 1] == r[off + 1]);
    }
}

proof fn lemma_width_step(params: Seq<ParamDescriptor>, j: int)
    requires
        0 <= j,
    ensures
        spec_params_width(params, j + 1) == spec_params_width(params, j) + spec_boundary_len(
            params[j].ty,
        ),
{
}

/// Every slice or string parameter of a method occupies exactly two
/// consecutive slots of the ABI parameter list: its data pointer, then
/// its length.
pub proof fn lemma_method_slice_params(m: MethodDescriptor, r: Seq<AbiParam>, j: int)
    requires
        method_params_ok(m, r),
        0 <= j < m.params@.len(),
        m.params@[j].ty.is_slice_like(),
    ensures
        ({
            let base: int = if m.self_param is Some {
                1
            } else {
                0
            };
            let off = base + spec_params_width(m.params@, j);
            &&& 0 <= off && off + 2 <= r.len()
            &&& r[off].lowered matches LoweredTy::DataPtr(_, _)
            &&& r[off].name@ == m.params@[j].name@ + "_diplomat_data"@
            &&& r[off + 1].lowered == LoweredTy::SliceLen
            &&& r[off + 1].name@ == m.params@[j].name@ + "_diplomat_len"@
        }),
{
    let base: int = if m.self_param is Some {
        1int
    } else {
        0int
    };
    lemma_params_ok_slice(m.params@, 0, r.skip(base), j);
    let off = spec_params_width(m.params@, j);
    assert(r.skip(base)[off] == r[base + off]);
    assert(r.skip(base)[off + 1] == r[base + off + 1]);
}

} // verus!
