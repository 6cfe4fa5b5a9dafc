//! The consumer-side declaration generator: renders C declarations for
//! every declared type, method, destructor and result wrapper, applying
//! the same lowering rules as the producer-side shims, and tracks header
//! dependencies, wrapper registrations and non-fatal errors while doing
//! so.

use vstd::prelude::*;
use crate::fmt::{
    spec_decl_header_path, spec_dtor_name, spec_enum_variant, spec_function_as_c,
    spec_impl_header_path, spec_prim_c, spec_ptr, spec_result_header_path,
};
use crate::headers::{spec_header_render, ErrorStore, FileMap, Header};
use crate::model::{
    ApiInfo,
    c_inputs_ok, c_method_ok, c_ty_ok, spec_decl_width, spec_has_writeable, spec_out_ty,
    spec_ret_pair, EnumVariant, FieldDescriptor, FnInputs, MethodDescriptor, Mutability,
    Ownership, ParamDescriptor, ReturnDescriptor, SliceElem, SuccessKind, TypeDef, TypeDefKind,
    TypeDescriptor, TypeModel,
};
use crate::registry::ResultTypeRegistry;
use crate::text::{spec_dec_int, spec_join};

verus! {

/// The C element name of a slice's contents.
pub open spec fn spec_slice_elem_c(elem: SliceElem) -> Seq<char> {
    match elem {
        SliceElem::Primitive(p) => spec_prim_c(p),
        SliceElem::Utf8 => "char"@,
        SliceElem::Utf16 => "char16_t"@,
        SliceElem::Str8View => "DiplomatStrs8View"@,
        SliceElem::Str16View => "DiplomatStrs16View"@,
    }
}

/// The C type of a slice's data pointer in parameter position.
pub open spec fn spec_slice_data_ptr_c(own: Ownership, elem: SliceElem) -> Seq<char> {
    match elem {
        SliceElem::Primitive(p) => spec_ptr(
            spec_prim_c(p),
            crate::lowering::spec_data_ptr_mut(own, elem),
        ),
        SliceElem::Utf8 => "const char*"@,
        SliceElem::Utf16 => "const char16_t*"@,
        SliceElem::Str8View => "DiplomatStrs8View*"@,
        SliceElem::Str16View => "DiplomatStrs16View*"@,
    }
}

/// The C name under which `ty` is referenced, with `pname` spliced into
/// a function-pointer declarator.
pub open spec fn spec_ty_name(m: TypeModel, ty: TypeDescriptor, pname: Seq<char>) -> Seq<char>
    decreases ty, 0int,
{
    match ty {
        TypeDescriptor::Primitive(p) => spec_prim_c(p),
        TypeDescriptor::Opaque(id, own) => spec_ptr(
            m.types@[id as int].name@,
            match own {
                Ownership::Borrowed(mu) => mu,
                Ownership::Owned => Mutability::Mutable,
            },
        ),
        TypeDescriptor::Struct(id) => m.types@[id as int].name@,
        TypeDescriptor::Enum(id) => m.types@[id as int].name@,
        TypeDescriptor::Slice(_, elem, _) => "struct { const "@ + spec_slice_elem_c(elem)
            + "* data; size_t len; }"@,
        TypeDescriptor::Function(inputs, out) => spec_function_as_c(
            pname,
            match *out {
                TypeDescriptor::Unit => "void"@,
                _ => spec_ty_name(m, *out, Seq::empty()),
            },
            seq!["void*"@] + spec_input_decl_tys(m, *inputs),
        ),
        _ => Seq::empty(),
    }
}

/// The C types a callback input list contributes to a function-pointer
/// declarator.
pub open spec fn spec_input_decl_tys(m: TypeModel, inputs: FnInputs) -> Seq<Seq<char>>
    decreases inputs, 1int,
{
    match inputs {
        FnInputs::Nil => Seq::empty(),
        FnInputs::Cons(head, tail) => spec_one_decl_tys(m, head.ty) + spec_input_decl_tys(
            m,
            *tail,
        ),
    }
}

/// The C types one declaration contributes in parameter position.
pub open spec fn spec_one_decl_tys(m: TypeModel, ty: TypeDescriptor) -> Seq<Seq<char>>
    decreases ty, 1int,
{
    match ty {
        TypeDescriptor::Slice(own, elem, _) => seq![
            spec_slice_data_ptr_c(own, elem),
            "size_t"@,
        ],
        TypeDescriptor::Function(_, _) => seq![spec_ty_name(m, ty, Seq::empty()), "void*"@],
        _ => seq![spec_ty_name(m, ty, Seq::empty())],
    }
}

/// The `(type, name)` pairs one declaration expands to: slices become
/// their `(data, len)` pair in parameter position (never inside a
/// struct), callbacks a function pointer plus a context pointer, and
/// everything else a single named declaration.
pub open spec fn spec_ty_decl(
    m: TypeModel,
    ty: TypeDescriptor,
    ident: Seq<char>,
    is_struct: bool,
) -> Seq<(Seq<char>, Seq<char>)>
    decreases ty, 2int,
{
    match ty {
        TypeDescriptor::Slice(own, elem, _) => if !is_struct {
            seq![
                (spec_slice_data_ptr_c(own, elem), ident + "_data"@),
                ("size_t"@, ident + "_len"@),
            ]
        } else {
            seq![(spec_ty_name(m, ty, ident), ident)]
        },
        TypeDescriptor::Function(_, _) => seq![
            (spec_ty_name(m, ty, ident), Seq::<char>::empty()),
            ("void*"@, Seq::<char>::empty()),
        ],
        _ => seq![(spec_ty_name(m, ty, ident), ident)],
    }
}

/// The declaration-header paths of the types `ty` references directly.
pub open spec fn spec_direct_decl_seq(m: TypeModel, ty: TypeDescriptor) -> Seq<Seq<char>> {
    match ty {
        TypeDescriptor::Opaque(id, _) => seq![spec_decl_header_path(m.types@[id as int].name@)],
        TypeDescriptor::Struct(id) => seq![spec_decl_header_path(m.types@[id as int].name@)],
        TypeDescriptor::Enum(id) => seq![spec_decl_header_path(m.types@[id as int].name@)],
        _ => Seq::empty(),
    }
}

/// Both header paths of the types `ty` references directly.
pub open spec fn spec_direct_both_seq(m: TypeModel, ty: TypeDescriptor) -> Seq<Seq<char>> {
    match ty {
        TypeDescriptor::Opaque(id, _) => seq![
            spec_decl_header_path(m.types@[id as int].name@),
            spec_impl_header_path(m.types@[id as int].name@),
        ],
        TypeDescriptor::Struct(id) => seq![
            spec_decl_header_path(m.types@[id as int].name@),
            spec_impl_header_path(m.types@[id as int].name@),
        ],
        TypeDescriptor::Enum(id) => seq![
            spec_decl_header_path(m.types@[id as int].name@),
            spec_impl_header_path(m.types@[id as int].name@),
        ],
        _ => Seq::empty(),
    }
}

/// What referencing `ty` from a method header adds to the method
/// header's dependencies, in reference order, nested callback
/// references included.
pub open spec fn spec_impl_gain(m: TypeModel, ty: TypeDescriptor) -> Seq<Seq<char>>
    decreases ty, 1int,
{
    spec_direct_both_seq(m, ty) + spec_fn_inner_gain(m, ty)
}

/// The dependencies contributed by the inside of a callback type: the
/// output's first, then each input's.
pub open spec fn spec_fn_inner_gain(m: TypeModel, ty: TypeDescriptor) -> Seq<Seq<char>>
    decreases ty, 0int,
{
    match ty {
        TypeDescriptor::Function(inputs, out) => (match *out {
            TypeDescriptor::Unit => Seq::<Seq<char>>::empty(),
            _ => spec_impl_gain(m, *out),
        }) + spec_inputs_gain(m, *inputs),
        _ => Seq::empty(),
    }
}

pub open spec fn spec_inputs_gain(m: TypeModel, inputs: FnInputs) -> Seq<Seq<char>>
    decreases inputs,
{
    match inputs {
        FnInputs::Nil => Seq::empty(),
        FnInputs::Cons(head, tail) => spec_impl_gain(m, head.ty) + spec_inputs_gain(m, *tail),
    }
}

/// The disabled-type findings referencing `ty` records, in traversal
/// order: the callback output is visited before the callback inputs.
pub open spec fn spec_ty_errs(m: TypeModel, ty: TypeDescriptor) -> Seq<Seq<char>>
    decreases ty, 1int,
{
    match ty {
        TypeDescriptor::Opaque(id, _) => spec_disabled_err(m, id as int),
        TypeDescriptor::Struct(id) => spec_disabled_err(m, id as int),
        TypeDescriptor::Enum(id) => spec_disabled_err(m, id as int),
        TypeDescriptor::Function(inputs, out) => (match *out {
            TypeDescriptor::Unit => Seq::<Seq<char>>::empty(),
            _ => spec_ty_errs(m, *out),
        }) + spec_inputs_errs(m, *inputs),
        _ => Seq::empty(),
    }
}

pub open spec fn spec_inputs_errs(m: TypeModel, inputs: FnInputs) -> Seq<Seq<char>>
    decreases inputs, 2int,
{
    match inputs {
        FnInputs::Nil => Seq::empty(),
        FnInputs::Cons(head, tail) => spec_ty_errs(m, head.ty) + spec_inputs_errs(m, *tail),
    }
}

pub open spec fn spec_disabled_err(m: TypeModel, id: int) -> Seq<Seq<char>> {
    if m.types@[id].disabled {
        seq!["Found usage of disabled type "@ + m.types@[id].name@]
    } else {
        Seq::empty()
    }
}

/// The error collector grew by exactly `msgs`, each tagged with the
/// context that was active at the call.
pub open spec fn errors_extended(
    before: ErrorStore,
    after: ErrorStore,
    msgs: Seq<Seq<char>>,
) -> bool {
    &&& after.ctx_ty == before.ctx_ty
    &&& after.ctx_method == before.ctx_method
    &&& after.errors@.len() == before.errors@.len() + msgs.len()
    &&& after.errors@.subrange(0, before.errors@.len() as int) == before.errors@
    &&& forall|k: int| 0 <= k < msgs.len() ==> {
        &&& (#[trigger] after.errors@[before.errors@.len() + k]).0 == before.ctx_ty
        &&& after.errors@[before.errors@.len() + k].1 == before.ctx_method
        &&& after.errors@[before.errors@.len() + k].2@ == msgs[k]
    }
}

/// Extending a collector twice extends it by the concatenation.
pub proof fn lemma_errors_extended_trans(
    a: ErrorStore,
    b: ErrorStore,
    c: ErrorStore,
    m1: Seq<Seq<char>>,
    m2: Seq<Seq<char>>,
)
    requires
        errors_extended(a, b, m1),
        errors_extended(b, c, m2),
    ensures
        errors_extended(a, c, m1 + m2),
{
    assert(c.errors@.subrange(0, a.errors@.len() as int) =~= a.errors@) by {
        assert(b.errors@.subrange(0, a.errors@.len() as int) == a.errors@);
        assert(c.errors@.subrange(0, b.errors@.len() as int) == b.errors@);
        assert forall|k: int| 0 <= k < a.errors@.len() implies c.errors@[k] == a.errors@[k] by {
            assert(c.errors@.subrange(0, b.errors@.len() as int)[k] == c.errors@[k]);
            assert(b.errors@.subrange(0, a.errors@.len() as int)[k] == b.errors@[k]);
        }
    }
    assert forall|k: int| 0 <= k < (m1 + m2).len() implies {
        &&& (#[trigger] c.errors@[a.errors@.len() + k]).0 == a.ctx_ty
        &&& c.errors@[a.errors@.len() + k].1 == a.ctx_method
        &&& c.errors@[a.errors@.len() + k].2@ == (m1 + m2)[k]
    } by {
        if k < m1.len() {
            assert(c.errors@.subrange(0, b.errors@.len() as int)[a.errors@.len() + k]
                == c.errors@[a.errors@.len() + k]);
            assert(b.errors@[a.errors@.len() + k].2@ == m1[k]);
        } else {
            assert(c.errors@[b.errors@.len() + (k - m1.len())].2@ == m2[k - m1.len()]);
        }
    }
}

/// A collector extends by nothing when left alone.
pub proof fn lemma_errors_extended_refl(a: ErrorStore)
    ensures
        errors_extended(a, a, Seq::empty()),
{
    assert(a.errors@.subrange(0, a.errors@.len() as int) =~= a.errors@);
}

/// Context for generating one type's pair of headers.
pub struct TyGenContext {
    pub decl_header: Header,
    pub impl_header: Header,
}

/// Everything about the two headers except their dependency sets is
/// untouched.
pub open spec fn headers_otherwise_same(a: TyGenContext, b: TyGenContext) -> bool {
    &&& b.decl_header.body == a.decl_header.body
    &&& b.impl_header.body == a.impl_header.body
    &&& b.decl_header.path == a.decl_header.path
    &&& b.impl_header.path == a.impl_header.path
    &&& b.decl_header.decl_dep == a.decl_header.decl_dep
    &&& b.impl_header.decl_dep == a.impl_header.decl_dep
}

impl TyGenContext {
    /// Render the C name under which `ty` is referenced, recording the
    /// header dependencies the reference needs and a non-fatal finding
    /// for every reference to a disabled type.
    pub fn gen_ty_name(
        &mut self,
        m: &TypeModel,
        ty: &TypeDescriptor,
        is_decl: bool,
        param_name: Option<&str>,
        errors: &mut ErrorStore,
    ) -> (r: String)
        requires
            c_ty_ok(*ty, m.types@.len() as int),
        ensures
            r@ == spec_ty_name(
                *m,
                *ty,
                match param_name {
                    Some(p) => p@,
                    None => Seq::<char>::empty(),
                },
            ),
            is_decl ==> final(self).decl_header.dep_seq() == crate::headers::spec_add_deps(
                old(self).decl_header.dep_seq(),
                spec_direct_decl_seq(*m, *ty),
            ),
            is_decl ==> final(self).impl_header.dep_seq() == crate::headers::spec_add_deps(
                old(self).impl_header.dep_seq(),
                spec_fn_inner_gain(*m, *ty),
            ),
            !is_decl ==> final(self).impl_header.dep_seq() == crate::headers::spec_add_deps(
                old(self).impl_header.dep_seq(),
                spec_impl_gain(*m, *ty),
            ),
            !is_decl ==> final(self).decl_header == old(self).decl_header,
            headers_otherwise_same(*old(self), *final(self)),
            errors_extended(*old(errors), *final(errors), spec_ty_errs(*m, *ty)),
        decreases *ty, 0int,
    {
        match ty {
            TypeDescriptor::Primitive(p) => {
                let r = crate::fmt::fmt_primitive_as_c(*p).to_owned();
                proof {
                    lemma_errors_extended_refl(*errors);
                }
                r
            },
            TypeDescriptor::Opaque(id, own) => {
                let ty_name = self.named_ref(m, *id, errors);
                let mu = match own {
                    Ownership::Borrowed(mu) => *mu,
                    Ownership::Owned => Mutability::Mutable,
                };
                let r = crate::fmt::fmt_ptr(ty_name.as_str(), mu);
                self.named_ref_deps(m, *id, is_decl);
                r
            },
            TypeDescriptor::Struct(id) => {
                let ty_name = self.named_ref(m, *id, errors);
                self.named_ref_deps(m, *id, is_decl);
                ty_name
            },
            TypeDescriptor::Enum(id) => {
                let ty_name = self.named_ref(m, *id, errors);
                self.named_ref_deps(m, *id, is_decl);
                ty_name
            },
            TypeDescriptor::Slice(_, elem, _) => {
                let mut r = "struct { const ".to_owned();
                r.append(slice_elem_c(*elem));
                r.append("* data; size_t len; }");
                proof {
                    lemma_errors_extended_refl(*errors);
                }
                r
            },
            TypeDescriptor::Function(inputs, out) => {
                let ghost e0 = *errors;
                let out_name: String = match &**out {
                    TypeDescriptor::Unit => {
                        proof {
                            lemma_errors_extended_refl(*errors);
                        }
                        "void".to_owned()
                    },
                    o => {
                        proof {
                            assert(decreases_to!(*ty => *out));
                        }
                        self.gen_ty_name(m, o, false, None, errors)
                    },
                };
                let ghost e1 = *errors;
                let mut input_tys: Vec<String> = Vec::new();
                input_tys.push("void*".to_owned());
                self.gen_input_decl_tys(m, &**inputs, errors, &mut input_tys);
                let pname: &str = match param_name {
                    Some(p) => p,
                    None => "",
                };
                let r = crate::fmt::fmt_function_as_c(pname, out_name.as_str(), &input_tys);
                proof {
                    reveal_strlit("");
                    assert(""@ =~= Seq::<char>::empty());
                    assert(input_tys@.map_values(|s: String| s@) =~= seq!["void*"@]
                        + spec_input_decl_tys(*m, **inputs));
                    lemma_errors_extended_trans(
                        e0,
                        e1,
                        *errors,
                        spec_ty_errs(*m, **out),
                        spec_inputs_errs(*m, **inputs),
                    );
                    let out_gain = match **out {
                        TypeDescriptor::Unit => Seq::<Seq<char>>::empty(),
                        _ => spec_impl_gain(*m, **out),
                    };
                    crate::headers::lemma_add_deps_concat(
                        old(self).impl_header.dep_seq(),
                        out_gain,
                        spec_inputs_gain(*m, **inputs),
                    );
                    assert(out_gain + spec_inputs_gain(*m, **inputs) == spec_fn_inner_gain(
                        *m,
                        *ty,
                    ));
                    if !is_decl {
                        assert(spec_direct_both_seq(*m, *ty) + spec_fn_inner_gain(*m, *ty)
                            =~= spec_fn_inner_gain(*m, *ty));
                    }
                }
                r
            },
            _ => {
                proof {
                    assert(false);
                }
                String::new()
            },
        }
    }

    /// Resolve a declared type's name, recording a non-fatal finding if
    /// the type is disabled.
    fn named_ref(&mut self, m: &TypeModel, id: usize, errors: &mut ErrorStore) -> (r: String)
        requires
            id < m.types@.len(),
        ensures
            *final(self) == *old(self),
            r@ == m.types@[id as int].name@,
            errors_extended(*old(errors), *final(errors), spec_disabled_err(*m, id as int)),
    {
        let td = m.resolve_type(id);
        let ty_name = td.name.clone();
        if td.disabled {
            let mut msg = "Found usage of disabled type ".to_owned();
            msg.append(ty_name.as_str());
            let ghost e0 = *errors;
            errors.push_error(msg);
            proof {
                assert(errors.errors@.subrange(0, e0.errors@.len() as int) =~= e0.errors@);
            }
        } else {
            proof {
                lemma_errors_extended_refl(*errors);
            }
        }
        ty_name
    }

    /// Record the header dependencies of a reference to declared type
    /// `id`.
    fn named_ref_deps(&mut self, m: &TypeModel, id: usize, is_decl: bool)
        requires
            id < m.types@.len(),
        ensures
            is_decl ==> final(self).decl_header.dep_seq() == crate::headers::spec_add_deps(
                old(self).decl_header.dep_seq(),
                seq![spec_decl_header_path(m.types@[id as int].name@)],
            ),
            is_decl ==> final(self).impl_header == old(self).impl_header,
            !is_decl ==> final(self).impl_header.dep_seq() == crate::headers::spec_add_deps(
                old(self).impl_header.dep_seq(),
                seq![
                    spec_decl_header_path(m.types@[id as int].name@),
                    spec_impl_header_path(m.types@[id as int].name@),
                ],
            ),
            !is_decl ==> final(self).decl_header == old(self).decl_header,
            headers_otherwise_same(*old(self), *final(self)),
    {
        let td = m.resolve_type(id);
        let decl_path = crate::fmt::fmt_decl_header_path(td.name.as_str());
        if is_decl {
            self.decl_header.add_dep(decl_path);
            proof {
                reveal_with_fuel(crate::headers::spec_add_deps, 3);
                let l = old(self).decl_header.dep_seq();
                let ps = seq![spec_decl_header_path(m.types@[id as int].name@)];
                assert(ps.drop_first() =~= Seq::<Seq<char>>::empty());
                assert(ps[0] == spec_decl_header_path(m.types@[id as int].name@));
                assert(crate::headers::spec_add_deps(l, ps) == crate::headers::spec_add_dep(
                    l,
                    ps[0],
                ));
            }
        } else {
            self.impl_header.add_dep(decl_path);
            let impl_path = crate::fmt::fmt_impl_header_path(td.name.as_str());
            self.impl_header.add_dep(impl_path);
            proof {
                reveal_with_fuel(crate::headers::spec_add_deps, 4);
                let l = old(self).impl_header.dep_seq();
                let ps = seq![
                    spec_decl_header_path(m.types@[id as int].name@),
                    spec_impl_header_path(m.types@[id as int].name@),
                ];
                assert(ps.drop_first() =~= seq![
                    spec_impl_header_path(m.types@[id as int].name@),
                ]);
                assert(ps.drop_first().drop_first() =~= Seq::<Seq<char>>::empty());
                assert(ps[0] == spec_decl_header_path(m.types@[id as int].name@));
                assert(ps.drop_first()[0] == spec_impl_header_path(m.types@[id as int].name@));
                let l1 = crate::headers::spec_add_dep(l, ps[0]);
                assert(crate::headers::spec_add_deps(l, ps) == crate::headers::spec_add_deps(
                    l1,
                    ps.drop_first(),
                ));
                assert(crate::headers::spec_add_deps(l1, ps.drop_first())
                    == crate::headers::spec_add_dep(l1, ps.drop_first()[0]));
            }
        }
    }

    /// Render the C types of a callback's inputs, appending them to
    /// `acc`.
    fn gen_input_decl_tys(
        &mut self,
        m: &TypeModel,
        inputs: &FnInputs,
        errors: &mut ErrorStore,
        acc: &mut Vec<String>,
    )
        requires
            c_inputs_ok(*inputs, m.types@.len() as int),
        ensures
            final(acc)@.map_values(|s: String| s@) == old(acc)@.map_values(|s: String| s@)
                + spec_input_decl_tys(*m, *inputs),
            final(self).impl_header.dep_seq() == crate::headers::spec_add_deps(
                old(self).impl_header.dep_seq(),
                spec_inputs_gain(*m, *inputs),
            ),
            final(self).decl_header == old(self).decl_header,
            headers_otherwise_same(*old(self), *final(self)),
            errors_extended(*old(errors), *final(errors), spec_inputs_errs(*m, *inputs)),
        decreases *inputs, 3int,
    {
        match inputs {
            FnInputs::Nil => {
                proof {
                    lemma_errors_extended_refl(*errors);
                    assert(acc@.map_values(|s: String| s@) =~= old(acc)@.map_values(
                        |s: String| s@,
                    ) + spec_input_decl_tys(*m, *inputs));
                }
            },
            FnInputs::Cons(head, tail) => {
                let ghost e0 = *errors;
                let ghost acc0 = acc@;
                match &head.ty {
                    TypeDescriptor::Slice(own, elem, _) => {
                        acc.push(slice_data_ptr_c(*own, *elem));
                        acc.push("size_t".to_owned());
                        proof {
                            lemma_errors_extended_refl(*errors);
                        }
                    },
                    TypeDescriptor::Function(_, _) => {
                        proof {
                            assert(decreases_to!(*inputs => head.ty));
                        }
                        let t = self.gen_ty_name(m, &head.ty, false, None, errors);
                        acc.push(t);
                        acc.push("void*".to_owned());
                    },
                    other => {
                        proof {
                            assert(decreases_to!(*inputs => head.ty));
                        }
                        let t = self.gen_ty_name(m, other, false, None, errors);
                        acc.push(t);
                    },
                }
                let ghost e1 = *errors;
                let ghost acc1 = acc@;
                let ghost mid = *self;
                proof {
                    assert(acc1.map_values(|s: String| s@) =~= acc0.map_values(|s: String| s@)
                        + spec_one_decl_tys(*m, head.ty));
                    match &head.ty {
                        TypeDescriptor::Slice(_, _, _) => {
                            assert(spec_impl_gain(*m, head.ty) =~= Seq::<Seq<char>>::empty());
                        },
                        _ => {},
                    }
                    assert(mid.impl_header.dep_seq() == crate::headers::spec_add_deps(
                        old(self).impl_header.dep_seq(),
                        spec_impl_gain(*m, head.ty),
                    ));
                }
                self.gen_input_decl_tys(m, &**tail, errors, acc);
                proof {
                    lemma_errors_extended_trans(
                        e0,
                        e1,
                        *errors,
                        spec_ty_errs(*m, head.ty),
                        spec_inputs_errs(*m, **tail),
                    );
                    assert(spec_ty_errs(*m, head.ty) + spec_inputs_errs(*m, **tail)
                        == spec_inputs_errs(*m, *inputs));
                    assert(acc@.map_values(|s: String| s@) =~= old(acc)@.map_values(
                        |s: String| s@,
                    ) + spec_input_decl_tys(*m, *inputs));
                    crate::headers::lemma_add_deps_concat(
                        old(self).impl_header.dep_seq(),
                        spec_impl_gain(*m, head.ty),
                        spec_inputs_gain(*m, **tail),
                    );
                }
            },
        }
    }
}

/// The two renderers agree on every parameter's footprint: the number
/// of `(type, name)` declarations the consumer side renders equals the
/// number of raw parameters the producer side lowers to, for every
/// declarable type.
pub proof fn lemma_renderers_agree_on_width(ty: TypeDescriptor)
    ensures
        spec_decl_width(ty) == crate::lowering::spec_boundary_len(ty),
{
}

/// The views of rendered `(type, name)` pairs.
pub open spec fn pair_views(r: Seq<(String, String)>) -> Seq<(Seq<char>, Seq<char>)> {
    r.map_values(|p: (String, String)| (p.0@, p.1@))
}

impl TyGenContext {
    /// Render the `(type, name)` declarations one parameter or field
    /// expands to, recording dependencies and disabled-type findings.
    pub fn gen_ty_decl(
        &mut self,
        m: &TypeModel,
        ty: &TypeDescriptor,
        ident: &str,
        is_struct: bool,
        errors: &mut ErrorStore,
    ) -> (r: Vec<(String, String)>)
        requires
            c_ty_ok(*ty, m.types@.len() as int),
        ensures
            pair_views(r@) == spec_ty_decl(*m, *ty, ident@, is_struct),
            is_struct ==> final(self).decl_header.dep_seq() == crate::headers::spec_add_deps(
                old(self).decl_header.dep_seq(),
                spec_direct_decl_seq(*m, *ty),
            ),
            is_struct ==> final(self).impl_header.dep_seq() == crate::headers::spec_add_deps(
                old(self).impl_header.dep_seq(),
                spec_fn_inner_gain(*m, *ty),
            ),
            !is_struct ==> final(self).impl_header.dep_seq() == crate::headers::spec_add_deps(
                old(self).impl_header.dep_seq(),
                spec_impl_gain(*m, *ty),
            ),
            !is_struct ==> final(self).decl_header == old(self).decl_header,
            headers_otherwise_same(*old(self), *final(self)),
            errors_extended(*old(errors), *final(errors), spec_ty_errs(*m, *ty)),
        decreases *ty, 1int,
    {
        let mut r: Vec<(String, String)> = Vec::new();
        match ty {
            TypeDescriptor::Slice(own, elem, _) => {
                if !is_struct {
                    let mut data_name = crate::fmt::fmt_param_name(ident);
                    data_name.append("_data");
                    r.push((slice_data_ptr_c(*own, *elem), data_name));
                    let mut len_name = crate::fmt::fmt_param_name(ident);
                    len_name.append("_len");
                    r.push(("size_t".to_owned(), len_name));
                    proof {
                        lemma_errors_extended_refl(*errors);
                        assert(pair_views(r@) =~= spec_ty_decl(*m, *ty, ident@, is_struct));
                        assert(spec_impl_gain(*m, *ty) =~= Seq::<Seq<char>>::empty());
                        assert(spec_direct_decl_seq(*m, *ty) =~= Seq::<Seq<char>>::empty());
                        assert(spec_fn_inner_gain(*m, *ty) =~= Seq::<Seq<char>>::empty());
                    }
                } else {
                    let t = self.gen_ty_name(m, ty, is_struct, Some(ident), errors);
                    r.push((t, crate::fmt::fmt_param_name(ident)));
                    proof {
                        assert(pair_views(r@) =~= spec_ty_decl(*m, *ty, ident@, is_struct));
                    }
                }
            },
            TypeDescriptor::Function(_, _) => {
                let t = self.gen_ty_name(m, ty, is_struct, Some(ident), errors);
                r.push((t, String::new()));
                r.push(("void*".to_owned(), String::new()));
                proof {
                    assert(pair_views(r@) =~= spec_ty_decl(*m, *ty, ident@, is_struct));
                }
            },
            _ => {
                let t = self.gen_ty_name(m, ty, is_struct, Some(ident), errors);
                r.push((t, crate::fmt::fmt_param_name(ident)));
                proof {
                    assert(pair_views(r@) =~= spec_ty_decl(*m, *ty, ident@, is_struct));
                }
            },
        }
        r
    }
}

/// One rendered declaration line of a struct body.
pub open spec fn spec_decl_pair_line(p: (Seq<char>, Seq<char>)) -> Seq<char> {
    "\t"@ + p.0 + " "@ + p.1 + ";\n"@
}

pub open spec fn spec_decl_lines(pairs: Seq<(Seq<char>, Seq<char>)>) -> Seq<char>
    decreases pairs.len(),
{
    if pairs.len() == 0 {
        Seq::empty()
    } else {
        spec_decl_lines(pairs.drop_last()) + spec_decl_pair_line(pairs.last())
    }
}

pub open spec fn spec_fields_lines(m: TypeModel, fields: Seq<FieldDescriptor>) -> Seq<char>
    decreases fields.len(),
{
    if fields.len() == 0 {
        Seq::empty()
    } else {
        spec_fields_lines(m, fields.drop_last()) + spec_decl_lines(
            spec_ty_decl(m, fields.last().ty, fields.last().name@, true),
        )
    }
}

/// The full declaration of a struct type.
pub open spec fn spec_struct_def_text(
    m: TypeModel,
    name: Seq<char>,
    fields: Seq<FieldDescriptor>,
) -> Seq<char> {
    "typedef struct "@ + name + " {\n"@ + spec_fields_lines(m, fields) + "} "@ + name + ";\n\n"@
}

/// The full declaration of an opaque type: a named struct whose layout
/// is never revealed.
pub open spec fn spec_opaque_def_text(name: Seq<char>) -> Seq<char> {
    "typedef struct "@ + name + " "@ + name + ";\n\n"@
}

pub open spec fn spec_variant_line(ty_name: Seq<char>, v: EnumVariant) -> Seq<char> {
    "\t"@ + spec_enum_variant(ty_name, v.name@) + " = "@ + spec_dec_int(v.discriminant as int)
        + ",\n"@
}

pub open spec fn spec_variants_lines(ty_name: Seq<char>, vs: Seq<EnumVariant>) -> Seq<char>
    decreases vs.len(),
{
    if vs.len() == 0 {
        Seq::empty()
    } else {
        spec_variants_lines(ty_name, vs.drop_last()) + spec_variant_line(ty_name, vs.last())
    }
}

/// The full declaration of an enum type, each variant with its explicit
/// discriminant.
pub open spec fn spec_enum_def_text(ty_name: Seq<char>, vs: Seq<EnumVariant>) -> Seq<char> {
    "typedef enum "@ + ty_name + " {\n"@ + spec_variants_lines(ty_name, vs) + "} "@ + ty_name
        + ";\n\n"@
}

/// The destructor declaration of an opaque type.
pub open spec fn spec_dtor_line(ty_name: Seq<char>, is_api: bool) -> Seq<char> {
    if is_api {
        "  void (*"@ + spec_dtor_name(ty_name) + ")("@ + ty_name + "* self);\n"@
    } else {
        "void "@ + spec_dtor_name(ty_name) + "("@ + ty_name + "* self);\n\n"@
    }
}

pub open spec fn spec_fields_decl_deps(m: TypeModel, fields: Seq<FieldDescriptor>) -> Seq<
    Seq<char>,
>
    decreases fields.len(),
{
    if fields.len() == 0 {
        Seq::empty()
    } else {
        spec_fields_decl_deps(m, fields.drop_last()) + spec_direct_decl_seq(m, fields.last().ty)
    }
}

pub open spec fn spec_fields_impl_deps(m: TypeModel, fields: Seq<FieldDescriptor>) -> Seq<
    Seq<char>,
>
    decreases fields.len(),
{
    if fields.len() == 0 {
        Seq::empty()
    } else {
        spec_fields_impl_deps(m, fields.drop_last()) + spec_fn_inner_gain(m, fields.last().ty)
    }
}

pub open spec fn spec_fields_errs(m: TypeModel, fields: Seq<FieldDescriptor>) -> Seq<Seq<char>>
    decreases fields.len(),
{
    if fields.len() == 0 {
        Seq::empty()
    } else {
        spec_fields_errs(m, fields.drop_last()) + spec_ty_errs(m, fields.last().ty)
    }
}

impl TyGenContext {
    /// Declare an enum type: one line per variant, with its explicit
    /// integer discriminant.
    pub fn gen_enum_def(&mut self, m: &TypeModel, id: usize, variants: &Vec<EnumVariant>)
        requires
            id < m.types@.len(),
        ensures
            final(self).decl_header.body@ == old(self).decl_header.body@ + spec_enum_def_text(
                m.types@[id as int].name@,
                variants@,
            ),
            final(self).decl_header.deps == old(self).decl_header.deps,
            final(self).decl_header.path == old(self).decl_header.path,
            final(self).decl_header.decl_dep == old(self).decl_header.decl_dep,
            final(self).impl_header == old(self).impl_header,
    {
        let ty_name = m.resolve_type(id).name.clone();
        let mut text = "typedef enum ".to_owned();
        text.append(ty_name.as_str());
        text.append(" {\n");
        let ghost head = text@;
        let mut i: usize = 0;
        while i < variants.len()
            invariant
                i <= variants@.len(),
                text@ == head + spec_variants_lines(m.types@[id as int].name@, variants@.take(
                    i as int,
                )),
                ty_name@ == m.types@[id as int].name@,
            decreases variants@.len() - i,
        {
            text.append("\t");
            let variant = crate::fmt::fmt_enum_variant(
                ty_name.as_str(),
                variants[i].name.as_str(),
            );
            text.append(variant.as_str());
            text.append(" = ");
            crate::text::push_dec_i64(&mut text, variants[i].discriminant);
            text.append(",\n");
            proof {
                assert(variants@.take(i as int + 1).drop_last() =~= variants@.take(i as int));
                assert(variants@.take(i as int + 1).last() == variants@[i as int]);
            }
            i += 1;
        }
        text.append("} ");
        text.append(ty_name.as_str());
        text.append(";\n\n");
        proof {
            assert(variants@.take(variants@.len() as int) =~= variants@);
        }
        self.decl_header.emit(text.as_str());
        proof {
            assert(self.decl_header.body@ =~= old(self).decl_header.body@ + spec_enum_def_text(
                m.types@[id as int].name@,
                variants@,
            ));
        }
    }

    /// Declare an opaque type: only its name crosses the boundary.
    pub fn gen_opaque_def(&mut self, m: &TypeModel, id: usize)
        requires
            id < m.types@.len(),
        ensures
            final(self).decl_header.body@ == old(self).decl_header.body@ + spec_opaque_def_text(
                m.types@[id as int].name@,
            ),
            final(self).decl_header.deps == old(self).decl_header.deps,
            final(self).decl_header.path == old(self).decl_header.path,
            final(self).decl_header.decl_dep == old(self).decl_header.decl_dep,
            final(self).impl_header == old(self).impl_header,
    {
        let ty_name = m.resolve_type(id).name.clone();
        let mut text = "typedef struct ".to_owned();
        text.append(ty_name.as_str());
        text.append(" ");
        text.append(ty_name.as_str());
        text.append(";\n\n");
        self.decl_header.emit(text.as_str());
        proof {
            assert(self.decl_header.body@ =~= old(self).decl_header.body@ + spec_opaque_def_text(
                m.types@[id as int].name@,
            ));
        }
    }

    /// Declare a struct type: each field contributes its declarations;
    /// field position never expands slices into pointer pairs.
    pub fn gen_struct_def(
        &mut self,
        m: &TypeModel,
        id: usize,
        fields: &Vec<FieldDescriptor>,
        errors: &mut ErrorStore,
    )
        requires
            id < m.types@.len(),
            forall|i: int| 0 <= i < fields@.len() ==> c_ty_ok(
                (#[trigger] fields@[i]).ty,
                m.types@.len() as int,
            ),
        ensures
            final(self).decl_header.body@ == old(self).decl_header.body@ + spec_struct_def_text(
                *m,
                m.types@[id as int].name@,
                fields@,
            ),
            final(self).decl_header.dep_seq() == crate::headers::spec_add_deps(
                old(self).decl_header.dep_seq(),
                spec_fields_decl_deps(*m, fields@),
            ),
            final(self).impl_header.dep_seq() == crate::headers::spec_add_deps(
                old(self).impl_header.dep_seq(),
                spec_fields_impl_deps(*m, fields@),
            ),
            final(self).impl_header.body == old(self).impl_header.body,
            final(self).decl_header.path == old(self).decl_header.path,
            final(self).impl_header.path == old(self).impl_header.path,
            final(self).decl_header.decl_dep == old(self).decl_header.decl_dep,
            final(self).impl_header.decl_dep == old(self).impl_header.decl_dep,
            errors_extended(*old(errors), *final(errors), spec_fields_errs(*m, fields@)),
    {
        let ty_name = m.resolve_type(id).name.clone();
        let mut head = "typedef struct ".to_owned();
        head.append(ty_name.as_str());
        head.append(" {\n");
        self.decl_header.emit(head.as_str());
        let ghost base_body = self.decl_header.body@;
        let ghost base_decl_deps = self.decl_header.dep_seq();
        let ghost base_impl_deps = self.impl_header.dep_seq();
        let ghost e0 = *errors;
        proof {
            lemma_errors_extended_refl(*errors);
        }
        let mut i: usize = 0;
        while i < fields.len()
            invariant
                i <= fields@.len(),
                forall|k: int| 0 <= k < fields@.len() ==> c_ty_ok(
                    (#[trigger] fields@[k]).ty,
                    m.types@.len() as int,
                ),
                self.decl_header.body@ == base_body + spec_fields_lines(*m, fields@.take(i as int)),
                self.decl_header.dep_seq() == crate::headers::spec_add_deps(
                    base_decl_deps,
                    spec_fields_decl_deps(*m, fields@.take(i as int)),
                ),
                self.impl_header.dep_seq() == crate::headers::spec_add_deps(
                    base_impl_deps,
                    spec_fields_impl_deps(*m, fields@.take(i as int)),
                ),
                self.impl_header.body == old(self).impl_header.body,
                self.decl_header.path == old(self).decl_header.path,
                self.impl_header.path == old(self).impl_header.path,
                self.decl_header.decl_dep == old(self).decl_header.decl_dep,
                self.impl_header.decl_dep == old(self).impl_header.decl_dep,
                errors_extended(e0, *errors, spec_fields_errs(*m, fields@.take(i as int))),
                e0.ctx_ty == errors.ctx_ty,
                e0.ctx_method == errors.ctx_method,
            decreases fields@.len() - i,
        {
            let ghost e_pre = *errors;
            let ghost decl_deps_pre = self.decl_header.dep_seq();
            let ghost impl_deps_pre = self.impl_header.dep_seq();
            let ghost body_pre = self.decl_header.body@;
            let decls = self.gen_ty_decl(m, &fields[i].ty, fields[i].name.as_str(), true, errors);
            let ghost mid = *self;
            let ghost body_mid = self.decl_header.body@;
            let ghost pv = pair_views(decls@);
            let mut j: usize = 0;
            while j < decls.len()
                invariant
                    j <= decls@.len(),
                    pv == pair_views(decls@),
                    i < fields@.len(),
                    pv == spec_ty_decl(*m, fields@[i as int].ty, fields@[i as int].name@, true),
                    self.decl_header.body@ == body_mid + spec_decl_lines(pv.take(j as int)),
                    self.decl_header.deps == mid.decl_header.deps,
                    self.decl_header.path == mid.decl_header.path,
                    self.decl_header.decl_dep == mid.decl_header.decl_dep,
                    self.impl_header == mid.impl_header,
                decreases decls@.len() - j,
            {
                let mut line = "\t".to_owned();
                line.append(decls[j].0.as_str());
                line.append(" ");
                line.append(decls[j].1.as_str());
                line.append(";\n");
                self.decl_header.emit(line.as_str());
                proof {
                    assert(pv.take(j as int + 1).drop_last() =~= pv.take(j as int));
                    assert(pv.take(j as int + 1).last() == pv[j as int]);
                    assert(pv[j as int] == (decls@[j as int].0@, decls@[j as int].1@));
                }
                j += 1;
            }
            proof {
                assert(pv.take(pv.len() as int) =~= pv);
                assert(fields@.take(i as int + 1).drop_last() =~= fields@.take(i as int));
                assert(fields@.take(i as int + 1).last() == fields@[i as int]);
                crate::headers::lemma_add_deps_concat(
                    base_decl_deps,
                    spec_fields_decl_deps(*m, fields@.take(i as int)),
                    spec_direct_decl_seq(*m, fields@[i as int].ty),
                );
                crate::headers::lemma_add_deps_concat(
                    base_impl_deps,
                    spec_fields_impl_deps(*m, fields@.take(i as int)),
                    spec_fn_inner_gain(*m, fields@[i as int].ty),
                );
                lemma_errors_extended_trans(
                    e0,
                    e_pre,
                    *errors,
                    spec_fields_errs(*m, fields@.take(i as int)),
                    spec_ty_errs(*m, fields@[i as int].ty),
                );
            }
            i += 1;
        }
        proof {
            assert(fields@.take(fields@.len() as int) =~= fields@);
        }
        let mut tail = "} ".to_owned();
        tail.append(ty_name.as_str());
        tail.append(";\n\n");
        self.decl_header.emit(tail.as_str());
        proof {
            assert(self.decl_header.body@ =~= old(self).decl_header.body@ + spec_struct_def_text(
                *m,
                m.types@[id as int].name@,
                fields@,
            ));
        }
    }

    /// Declare the destructor of an opaque type.
    pub fn gen_dtor(&mut self, m: &TypeModel, id: usize, is_api: bool)
        requires
            id < m.types@.len(),
        ensures
            final(self).impl_header.body@ == old(self).impl_header.body@ + spec_dtor_line(
                m.types@[id as int].name@,
                is_api,
            ),
            final(self).impl_header.deps == old(self).impl_header.deps,
            final(self).impl_header.path == old(self).impl_header.path,
            final(self).impl_header.decl_dep == old(self).impl_header.decl_dep,
            final(self).decl_header == old(self).decl_header,
    {
        let ty_name = m.resolve_type(id).name.clone();
        let dtor = crate::fmt::fmt_dtor_name(ty_name.as_str());
        let mut line: String;
        if is_api {
            line = "  void (*".to_owned();
            line.append(dtor.as_str());
            line.append(")(");
            line.append(ty_name.as_str());
            line.append("* self);\n");
        } else {
            line = "void ".to_owned();
            line.append(dtor.as_str());
            line.append("(");
            line.append(ty_name.as_str());
            line.append("* self);\n\n");
        }
        self.impl_header.emit(line.as_str());
        proof {
            assert(self.impl_header.body@ =~= old(self).impl_header.body@ + spec_dtor_line(
                m.types@[id as int].name@,
                is_api,
            ));
        }
    }
}

/// One side of a wrapper's union, when present.
pub open spec fn spec_side_line(
    m: TypeModel,
    side: Option<TypeDescriptor>,
    label: Seq<char>,
) -> Seq<char> {
    match side {
        Some(t) => "\t\t"@ + spec_ty_name(m, t, Seq::empty()) + label,
        None => Seq::empty(),
    }
}

/// The full declaration of one result wrapper: a union holding only the
/// sides that are present, plus the discriminant; a wrapper with no
/// sides is discriminant-only.
pub open spec fn spec_result_def_text(
    m: TypeModel,
    name: Seq<char>,
    ok: Option<TypeDescriptor>,
    err: Option<TypeDescriptor>,
) -> Seq<char> {
    "typedef struct "@ + name + " {\n"@ + (if ok is Some || err is Some {
        "\tunion {\n"@ + spec_side_line(m, ok, " ok;\n"@) + spec_side_line(m, err, " err;\n"@)
            + "\t};\n"@
    } else {
        Seq::<char>::empty()
    }) + "\tbool is_ok;\n} "@ + name + ";\n"@
}

pub open spec fn spec_side_decl_deps(m: TypeModel, side: Option<TypeDescriptor>) -> Seq<Seq<char>> {
    match side {
        Some(t) => spec_direct_decl_seq(m, t),
        None => Seq::empty(),
    }
}

pub open spec fn spec_side_errs(m: TypeModel, side: Option<TypeDescriptor>) -> Seq<Seq<char>> {
    match side {
        Some(t) => spec_ty_errs(m, t),
        None => Seq::empty(),
    }
}

impl TyGenContext {
    /// Declare one result wrapper type into this context's declaration
    /// header.
    pub fn gen_result(
        &mut self,
        m: &TypeModel,
        name: &str,
        ok: Option<&TypeDescriptor>,
        err: Option<&TypeDescriptor>,
        errors: &mut ErrorStore,
    )
        requires
            ok matches Some(t) ==> c_ty_ok(*t, m.types@.len() as int),
            err matches Some(t) ==> c_ty_ok(*t, m.types@.len() as int),
        ensures
            final(self).decl_header.body@ == old(self).decl_header.body@ + spec_result_def_text(
                *m,
                name@,
                match ok {
                    Some(t) => Some(*t),
                    None => None,
                },
                match err {
                    Some(t) => Some(*t),
                    None => None,
                },
            ),
            final(self).decl_header.dep_seq() == crate::headers::spec_add_deps(
                crate::headers::spec_add_deps(
                    old(self).decl_header.dep_seq(),
                    spec_side_decl_deps(
                        *m,
                        match ok {
                            Some(t) => Some(*t),
                            None => None,
                        },
                    ),
                ),
                spec_side_decl_deps(
                    *m,
                    match err {
                        Some(t) => Some(*t),
                        None => None,
                    },
                ),
            ),
            final(self).decl_header.path == old(self).decl_header.path,
            final(self).decl_header.decl_dep == old(self).decl_header.decl_dep,
            errors_extended(
                *old(errors),
                *final(errors),
                spec_side_errs(
                    *m,
                    match ok {
                        Some(t) => Some(*t),
                        None => None,
                    },
                ) + spec_side_errs(
                    *m,
                    match err {
                        Some(t) => Some(*t),
                        None => None,
                    },
                ),
            ),
    {
        let ghost e0 = *errors;
        let has_ok = match ok {
            Some(_) => true,
            None => false,
        };
        let has_err = match err {
            Some(_) => true,
            None => false,
        };
        let ok_line: String = match ok {
            Some(t) => {
                let tn = self.gen_ty_name(m, t, true, None, errors);
                let mut l = "\t\t".to_owned();
                l.append(tn.as_str());
                l.append(" ok;\n");
                l
            },
            None => {
                proof {
                    lemma_errors_extended_refl(*errors);
                }
                String::new()
            },
        };
        let ghost e1 = *errors;
        let err_line: String = match err {
            Some(t) => {
                let tn = self.gen_ty_name(m, t, true, None, errors);
                let mut l = "\t\t".to_owned();
                l.append(tn.as_str());
                l.append(" err;\n");
                l
            },
            None => {
                proof {
                    lemma_errors_extended_refl(*errors);
                }
                String::new()
            },
        };
        let mut text = "typedef struct ".to_owned();
        text.append(name);
        text.append(" {\n");
        if has_ok || has_err {
            text.append("\tunion {\n");
            text.append(ok_line.as_str());
            text.append(err_line.as_str());
            text.append("\t};\n");
        }
        text.append("\tbool is_ok;\n} ");
        text.append(name);
        text.append(";\n");
        self.decl_header.emit(text.as_str());
        proof {
            lemma_errors_extended_trans(
                e0,
                e1,
                *errors,
                spec_side_errs(
                    *m,
                    match ok {
                        Some(t) => Some(*t),
                        None => None,
                    },
                ),
                spec_side_errs(
                    *m,
                    match err {
                        Some(t) => Some(*t),
                        None => None,
                    },
                ),
            );
            assert(self.decl_header.body@ =~= old(self).decl_header.body@ + spec_result_def_text(
                *m,
                name@,
                match ok {
                    Some(t) => Some(*t),
                    None => None,
                },
                match err {
                    Some(t) => Some(*t),
                    None => None,
                },
            ));
        }
    }
}

pub open spec fn spec_params_decl_pairs(m: TypeModel, params: Seq<ParamDescriptor>) -> Seq<
    (Seq<char>, Seq<char>),
>
    decreases params.len(),
{
    if params.len() == 0 {
        Seq::empty()
    } else {
        spec_params_decl_pairs(m, params.drop_last()) + spec_ty_decl(
            m,
            params.last().ty,
            params.last().name@,
            false,
        )
    }
}

/// Every `(type, name)` pair of a method's C signature: the self
/// parameter's first, then each declared parameter's expansion, then
/// the implicit out-buffer parameter when the return rewrites into one.
pub open spec fn spec_method_pairs(m: TypeModel, mth: MethodDescriptor) -> Seq<
    (Seq<char>, Seq<char>),
> {
    spec_self_pairs(m, mth) + spec_params_decl_pairs(m, mth.params@) + (if spec_has_writeable(mth.output) {
        seq![("DiplomatWriteable*"@, "writeable"@)]
    } else {
        Seq::empty()
    })
}

/// The C return type of a method: fallible and nullable returns go
/// through the wrapper registry's canonical name; text output and unit
/// return nothing.
pub open spec fn spec_return_text(m: TypeModel, mth: MethodDescriptor) -> Seq<char> {
    match mth.output {
        ReturnDescriptor::Infallible(SuccessKind::Unit) => "void"@,
        ReturnDescriptor::Infallible(SuccessKind::Writeable) => "void"@,
        ReturnDescriptor::Infallible(SuccessKind::OutType(o)) => spec_ty_name(m, o, Seq::empty()),
        ReturnDescriptor::Fallible(s, e) => crate::registry::spec_canonical_name(
            m,
            spec_out_ty(s),
            e,
        ),
        ReturnDescriptor::Nullable(s) => crate::registry::spec_canonical_name(
            m,
            spec_out_ty(s),
            None,
        ),
    }
}

pub open spec fn spec_param_entry(p: (Seq<char>, Seq<char>)) -> Seq<char> {
    if p.1.len() == 0 {
        p.0
    } else {
        p.0 + " "@ + p.1
    }
}

pub open spec fn spec_params_text(pairs: Seq<(Seq<char>, Seq<char>)>) -> Seq<char>
    decreases pairs.len(),
{
    if pairs.len() == 0 {
        Seq::empty()
    } else if pairs.len() == 1 {
        spec_param_entry(pairs[0])
    } else {
        spec_params_text(pairs.drop_last()) + ", "@ + spec_param_entry(pairs.last())
    }
}

/// One method's line in a header: a function declaration, or a
/// function-pointer field of the API table.
pub open spec fn spec_method_line(m: TypeModel, mth: MethodDescriptor, is_api: bool) -> Seq<char> {
    let ret = spec_return_text(m, mth);
    let mname = if is_api {
        mth.name@
    } else {
        mth.full_path_name@
    };
    let params = spec_params_text(spec_method_pairs(m, mth));
    if is_api {
        "  "@ + ret + " (*"@ + mname + ")("@ + params + ");\n"@
    } else {
        ret + " "@ + mname + "("@ + params + ");\n\n"@
    }
}

pub open spec fn spec_params_impl_deps(m: TypeModel, params: Seq<ParamDescriptor>) -> Seq<
    Seq<char>,
>
    decreases params.len(),
{
    if params.len() == 0 {
        Seq::empty()
    } else {
        spec_params_impl_deps(m, params.drop_last()) + spec_impl_gain(m, params.last().ty)
    }
}

pub open spec fn spec_params_errs(m: TypeModel, params: Seq<ParamDescriptor>) -> Seq<Seq<char>>
    decreases params.len(),
{
    if params.len() == 0 {
        Seq::empty()
    } else {
        spec_params_errs(m, params.drop_last()) + spec_ty_errs(m, params.last().ty)
    }
}

/// The wrapper name a method's return registers, when it registers one.
pub open spec fn spec_method_canonical(m: TypeModel, mth: MethodDescriptor) -> Seq<char> {
    match spec_ret_pair(mth.output) {
        Some((o, e)) => crate::registry::spec_canonical_name(m, o, e),
        None => Seq::empty(),
    }
}

pub open spec fn spec_self_pairs(m: TypeModel, mth: MethodDescriptor) -> Seq<
    (Seq<char>, Seq<char>),
> {
    match mth.self_param {
        Some(st) => spec_ty_decl(m, st, "self"@, false),
        None => Seq::empty(),
    }
}

pub open spec fn spec_self_deps(m: TypeModel, mth: MethodDescriptor) -> Seq<Seq<char>> {
    match mth.self_param {
        Some(st) => spec_impl_gain(m, st),
        None => Seq::empty(),
    }
}

pub open spec fn spec_self_errs(m: TypeModel, mth: MethodDescriptor) -> Seq<Seq<char>> {
    match mth.self_param {
        Some(st) => spec_ty_errs(m, st),
        None => Seq::empty(),
    }
}

/// What one method adds to its header's dependencies: the self and
/// declared parameters' references, then what the return needs — the
/// returned type's headers, or the wrapper type's header.
pub open spec fn spec_method_deps(m: TypeModel, mth: MethodDescriptor) -> Seq<Seq<char>> {
    spec_self_deps(m, mth) + spec_params_impl_deps(m, mth.params@) + (match mth.output {
        ReturnDescriptor::Infallible(SuccessKind::OutType(o)) => spec_impl_gain(m, o),
        ReturnDescriptor::Fallible(s, e) => seq![
            spec_result_header_path(spec_method_canonical(m, mth)),
        ],
        ReturnDescriptor::Nullable(s) => seq![
            spec_result_header_path(spec_method_canonical(m, mth)),
        ],
        _ => Seq::empty(),
    })
}

pub open spec fn spec_method_errs(m: TypeModel, mth: MethodDescriptor) -> Seq<Seq<char>> {
    spec_self_errs(m, mth) + spec_params_errs(m, mth.params@) + (match mth.output {
        ReturnDescriptor::Infallible(SuccessKind::OutType(o)) => spec_ty_errs(m, o),
        _ => Seq::empty(),
    })
}

impl TyGenContext {
    /// Declare one method: its parameters expanded by the shared
    /// lowering rules, and its return lowered through the wrapper
    /// registry when fallible or nullable. As a side effect the wrapper
    /// type, if any, is registered under its canonical name.
    #[verifier::rlimit(100)]
    pub fn gen_method(
        &mut self,
        m: &TypeModel,
        method: &MethodDescriptor,
        is_api: bool,
        result_store: &mut ResultTypeRegistry,
        errors: &mut ErrorStore,
    )
        requires
            c_method_ok(*method, m.types@.len() as int),
            old(result_store).wf(),
            old(result_store).entries_ok(*m),
        ensures
            final(result_store).wf(),
            final(result_store).entries_ok(*m),
            final(self).impl_header.body@ == old(self).impl_header.body@ + spec_method_line(
                *m,
                *method,
                is_api,
            ),
            final(self).impl_header.dep_seq() == crate::headers::spec_add_deps(
                old(self).impl_header.dep_seq(),
                spec_method_deps(*m, *method),
            ),
            final(self).decl_header == old(self).decl_header,
            final(self).impl_header.path == old(self).impl_header.path,
            final(self).impl_header.decl_dep == old(self).impl_header.decl_dep,
            errors_extended(*old(errors), *final(errors), spec_method_errs(*m, *method)),
            spec_ret_pair(method.output) is None ==> *final(result_store) == *old(result_store),
            spec_ret_pair(method.output) is Some ==> {
                &&& final(result_store).name_set() == old(result_store).name_set().insert(
                    spec_method_canonical(*m, *method),
                )
                &&& final(result_store).entries_seq().len() >= old(
                    result_store,
                ).entries_seq().len()
                &&& final(result_store).entries_seq().subrange(
                    0,
                    old(result_store).entries_seq().len() as int,
                ) == old(result_store).entries_seq()
            },
    {
        let method_name: String = if is_api {
            method.name.clone()
        } else {
            method.full_path_name.clone()
        };
        let ghost e0 = *errors;
        let mut param_decls: Vec<(String, String)> = Vec::new();
        match &method.self_param {
            Some(st) => {
                let mut d = self.gen_ty_decl(m, st, "self", false, errors);
                param_decls.append(&mut d);
                proof {
                    assert(pair_views(param_decls@) =~= spec_ty_decl(*m, *st, "self"@, false));
                }
            },
            None => {
                proof {
                    lemma_errors_extended_refl(*errors);
                }
            },
        }
        let ghost self_pairs = spec_self_pairs(*m, *method);
        let ghost self_deps = spec_self_deps(*m, *method);
        let ghost self_errs = spec_self_errs(*m, *method);
        proof {
            assert(pair_views(param_decls@) =~= self_pairs);
        }
        let ghost deps0 = old(self).impl_header.dep_seq();
        proof {
            if method.self_param is None {
                assert(self.impl_header.dep_seq() == crate::headers::spec_add_deps(
                    deps0,
                    self_deps,
                ));
            }
        }
        let mut i: usize = 0;
        while i < method.params.len()
            invariant
                i <= method.params@.len(),
                c_method_ok(*method, m.types@.len() as int),
                pair_views(param_decls@) == self_pairs + spec_params_decl_pairs(
                    *m,
                    method.params@.take(i as int),
                ),
                self.impl_header.dep_seq() == crate::headers::spec_add_deps(
                    crate::headers::spec_add_deps(deps0, self_deps),
                    spec_params_impl_deps(*m, method.params@.take(i as int)),
                ),
                errors_extended(
                    e0,
                    *errors,
                    self_errs + spec_params_errs(*m, method.params@.take(i as int)),
                ),
                self.decl_header == old(self).decl_header,
                self.impl_header.path == old(self).impl_header.path,
                self.impl_header.decl_dep == old(self).impl_header.decl_dep,
                self.impl_header.body == old(self).impl_header.body,
                *result_store == *old(result_store),
                deps0 == old(self).impl_header.dep_seq(),
                self_pairs == spec_self_pairs(*m, *method),
                self_deps == spec_self_deps(*m, *method),
                self_errs == spec_self_errs(*m, *method),
                e0.ctx_ty == errors.ctx_ty,
                e0.ctx_method == errors.ctx_method,
            decreases method.params@.len() - i,
        {
            let ghost e_pre = *errors;
            let ghost pv_pre = pair_views(param_decls@);
            let ghost deps_pre = self.impl_header.dep_seq();
            let mut d = self.gen_ty_decl(
                m,
                &method.params[i].ty,
                method.params[i].name.as_str(),
                false,
                errors,
            );
            param_decls.append(&mut d);
            proof {
                let ps = method.params@;
                assert(ps.take(i as int + 1).drop_last() =~= ps.take(i as int));
                assert(ps.take(i as int + 1).last() == ps[i as int]);
                assert(pair_views(param_decls@) =~= pv_pre + spec_ty_decl(
                    *m,
                    ps[i as int].ty,
                    ps[i as int].name@,
                    false,
                ));
                assert(self_pairs + spec_params_decl_pairs(*m, ps.take(i as int + 1)) =~= pv_pre
                    + spec_ty_decl(*m, ps[i as int].ty, ps[i as int].name@, false));
                crate::headers::lemma_add_deps_concat(
                    crate::headers::spec_add_deps(deps0, self_deps),
                    spec_params_impl_deps(*m, ps.take(i as int)),
                    spec_impl_gain(*m, ps[i as int].ty),
                );
                lemma_errors_extended_trans(
                    e0,
                    e_pre,
                    *errors,
                    self_errs + spec_params_errs(*m, ps.take(i as int)),
                    spec_ty_errs(*m, ps[i as int].ty),
                );
                assert((self_errs + spec_params_errs(*m, ps.take(i as int))) + spec_ty_errs(
                    *m,
                    ps[i as int].ty,
                ) =~= self_errs + spec_params_errs(*m, ps.take(i as int + 1)));
            }
            i += 1;
        }
        proof {
            assert(method.params@.take(method.params@.len() as int) =~= method.params@);
        }
        let ghost e_params = *errors;
        let return_ty: String = match &method.output {
            ReturnDescriptor::Infallible(SuccessKind::Unit) => {
                proof {
                    lemma_errors_extended_refl(*errors);
                }
                "void".to_owned()
            },
            ReturnDescriptor::Infallible(SuccessKind::Writeable) => {
                param_decls.push(("DiplomatWriteable*".to_owned(), "writeable".to_owned()));
                proof {
                    lemma_errors_extended_refl(*errors);
                }
                "void".to_owned()
            },
            ReturnDescriptor::Infallible(SuccessKind::OutType(o)) => {
                self.gen_ty_name(m, o, false, None, errors)
            },
            ReturnDescriptor::Fallible(s, e) => {
                let (ok_ref, push_w): (Option<&TypeDescriptor>, bool) = match s {
                    SuccessKind::Writeable => (None, true),
                    SuccessKind::Unit => (None, false),
                    SuccessKind::OutType(o) => (Some(o), false),
                };
                if push_w {
                    param_decls.push(("DiplomatWriteable*".to_owned(), "writeable".to_owned()));
                }
                let err_ref: Option<&TypeDescriptor> = match e {
                    Some(t) => Some(t),
                    None => None,
                };
                let ghost mid_deps = self.impl_header.dep_seq();
                let rname = result_store.get_or_create(m, ok_ref, err_ref);
                let rpath = crate::fmt::fmt_result_header_path(rname.as_str());
                self.impl_header.add_dep(rpath);
                proof {
                    lemma_errors_extended_refl(*errors);
                    crate::headers::lemma_add_deps_singleton(
                        mid_deps,
                        spec_result_header_path(spec_method_canonical(*m, *method)),
                    );
                }
                rname
            },
            ReturnDescriptor::Nullable(s) => {
                let (ok_ref, push_w): (Option<&TypeDescriptor>, bool) = match s {
                    SuccessKind::Writeable => (None, true),
                    SuccessKind::Unit => (None, false),
                    SuccessKind::OutType(o) => (Some(o), false),
                };
                if push_w {
                    param_decls.push(("DiplomatWriteable*".to_owned(), "writeable".to_owned()));
                }
                let ghost mid_deps = self.impl_header.dep_seq();
                let rname = result_store.get_or_create(m, ok_ref, None);
                let rpath = crate::fmt::fmt_result_header_path(rname.as_str());
                self.impl_header.add_dep(rpath);
                proof {
                    lemma_errors_extended_refl(*errors);
                    crate::headers::lemma_add_deps_singleton(
                        mid_deps,
                        spec_result_header_path(spec_method_canonical(*m, *method)),
                    );
                }
                rname
            },
        };
        proof {
            let outp = method.output;
            let ret_errs: Seq<Seq<char>> = match outp {
                ReturnDescriptor::Infallible(SuccessKind::OutType(o)) => spec_ty_errs(*m, o),
                _ => Seq::<Seq<char>>::empty(),
            };
            let ret_deps: Seq<Seq<char>> = match outp {
                ReturnDescriptor::Infallible(SuccessKind::OutType(o)) => spec_impl_gain(*m, o),
                ReturnDescriptor::Fallible(s, e) => seq![
                    spec_result_header_path(spec_method_canonical(*m, *method)),
                ],
                ReturnDescriptor::Nullable(s) => seq![
                    spec_result_header_path(spec_method_canonical(*m, *method)),
                ],
                _ => Seq::<Seq<char>>::empty(),
            };
            assert(pair_views(param_decls@) =~= spec_method_pairs(*m, *method));
            lemma_errors_extended_trans(
                e0,
                e_params,
                *errors,
                self_errs + spec_params_errs(*m, method.params@),
                ret_errs,
            );
            assert((self_errs + spec_params_errs(*m, method.params@)) + ret_errs
                =~= spec_method_errs(*m, *method));
            crate::headers::lemma_add_deps_concat(
                crate::headers::spec_add_deps(deps0, self_deps),
                spec_params_impl_deps(*m, method.params@),
                ret_deps,
            );
            crate::headers::lemma_add_deps_concat(
                deps0,
                self_deps,
                spec_params_impl_deps(*m, method.params@) + ret_deps,
            );
            assert(self_deps + (spec_params_impl_deps(*m, method.params@) + ret_deps)
                =~= spec_method_deps(*m, *method));
        }
        let empty_name = String::new();
        let mut params = String::new();
        let ghost pv = pair_views(param_decls@);
        let mut k: usize = 0;
        while k < param_decls.len()
            invariant
                k <= param_decls@.len(),
                pv == pair_views(param_decls@),
                params@ == spec_params_text(pv.take(k as int)),
                empty_name@ == Seq::<char>::empty(),
            decreases param_decls@.len() - k,
        {
            let ghost prev_text = params@;
            if k > 0 {
                params.append(", ");
            }
            params.append(param_decls[k].0.as_str());
            if !param_decls[k].1.eq(&empty_name) {
                params.append(" ");
                params.append(param_decls[k].1.as_str());
            }
            proof {
                let here = pv[k as int];
                assert(here == (param_decls@[k as int].0@, param_decls@[k as int].1@));
                if here.1.len() == 0 {
                    assert(here.1 =~= Seq::<char>::empty());
                }
                let entry = spec_param_entry(here);
                if param_decls@[k as int].1@.len() == 0 {
                    assert(entry == here.0);
                } else {
                    assert(entry == here.0 + " "@ + here.1);
                }
                if k == 0 {
                    assert(params@ =~= entry);
                } else {
                    assert(params@ =~= prev_text + ", "@ + entry);
                }
                assert(pv.take(k as int + 1).drop_last() =~= pv.take(k as int));
                assert(pv.take(k as int + 1).last() == here);
                if k == 0 {
                    assert(pv.take(1).len() == 1);
                    assert(pv.take(1)[0] == here);
                    assert(spec_params_text(pv.take(1)) == spec_param_entry(here));
                } else {
                    assert(pv.take(k as int + 1).len() >= 2);
                    assert(spec_params_text(pv.take(k as int + 1)) == spec_params_text(pv.take(
                        k as int,
                    )) + ", "@ + entry);
                }
                assert(params@ =~= spec_params_text(pv.take(k as int + 1)));
            }
            k += 1;
        }
        proof {
            assert(pv.take(pv.len() as int) =~= pv);
        }
        let mut line: String;
        if is_api {
            line = "  ".to_owned();
            line.append(return_ty.as_str());
            line.append(" (*");
            line.append(method_name.as_str());
            line.append(")(");
            line.append(params.as_str());
            line.append(");\n");
        } else {
            line = return_ty.clone();
            line.append(" ");
            line.append(method_name.as_str());
            line.append("(");
            line.append(params.as_str());
            line.append(");\n\n");
        }
        self.impl_header.emit(line.as_str());
        proof {
            assert(self.impl_header.body@ =~= old(self).impl_header.body@ + spec_method_line(
                *m,
                *method,
                is_api,
            ));
        }
    }
}

/// The function-pointer members of one type's API table, in method
/// declaration order, disabled methods skipped.
pub open spec fn spec_api_members(m: TypeModel, methods: Seq<MethodDescriptor>) -> Seq<char>
    decreases methods.len(),
{
    if methods.len() == 0 {
        Seq::empty()
    } else {
        spec_api_members(m, methods.drop_last()) + (if methods.last().disabled {
            Seq::<char>::empty()
        } else {
            spec_method_line(m, methods.last(), true)
        })
    }
}

pub open spec fn spec_api_deps(m: TypeModel, methods: Seq<MethodDescriptor>) -> Seq<Seq<char>>
    decreases methods.len(),
{
    if methods.len() == 0 {
        Seq::empty()
    } else {
        spec_api_deps(m, methods.drop_last()) + (if methods.last().disabled {
            Seq::<Seq<char>>::empty()
        } else {
            spec_method_deps(m, methods.last())
        })
    }
}

pub open spec fn spec_api_errs(m: TypeModel, methods: Seq<MethodDescriptor>) -> Seq<Seq<char>>
    decreases methods.len(),
{
    if methods.len() == 0 {
        Seq::empty()
    } else {
        spec_api_errs(m, methods.drop_last()) + (if methods.last().disabled {
            Seq::<Seq<char>>::empty()
        } else {
            spec_method_errs(m, methods.last())
        })
    }
}

/// The wrapper names the enabled methods of a list register.
pub open spec fn spec_methods_names(m: TypeModel, methods: Seq<MethodDescriptor>) -> Set<Seq<char>>
    decreases methods.len(),
{
    if methods.len() == 0 {
        Set::empty()
    } else {
        spec_methods_names(m, methods.drop_last()) + (
        if !methods.last().disabled && spec_ret_pair(methods.last().output) is Some {
            set![spec_method_canonical(m, methods.last())]
        } else {
            Set::<Seq<char>>::empty()
        })
    }
}

/// One type's API table: a struct of function pointers, one per enabled
/// method in declaration order, with the destructor slot last for opaque
/// types.
pub open spec fn spec_api_text(m: TypeModel, id: int) -> Seq<char> {
    let name = m.types@[id].name@;
    "\nstruct __"@ + name + "_API__\n{\n"@ + spec_api_members(m, m.types@[id].methods@) + (
    if m.types@[id].kind is Opaque {
        spec_dtor_line(name, true)
    } else {
        Seq::<char>::empty()
    }) + "};\n\n"@
}

impl TyGenContext {
    /// Declare one type's API table.
    pub fn gen_api(
        &mut self,
        m: &TypeModel,
        id: usize,
        result_store: &mut ResultTypeRegistry,
        errors: &mut ErrorStore,
    )
        requires
            id < m.types@.len(),
            crate::model::c_def_ok(m.types@[id as int], m.types@.len() as int),
            old(result_store).wf(),
            old(result_store).entries_ok(*m),
        ensures
            final(result_store).wf(),
            final(result_store).entries_ok(*m),
            final(self).impl_header.body@ == old(self).impl_header.body@ + spec_api_text(
                *m,
                id as int,
            ),
            final(self).impl_header.dep_seq() == crate::headers::spec_add_deps(
                old(self).impl_header.dep_seq(),
                spec_api_deps(*m, m.types@[id as int].methods@),
            ),
            final(self).decl_header == old(self).decl_header,
            final(self).impl_header.path == old(self).impl_header.path,
            final(self).impl_header.decl_dep == old(self).impl_header.decl_dep,
            errors_extended(*old(errors), *final(errors), spec_api_errs(
                *m,
                m.types@[id as int].methods@,
            )),
            final(result_store).name_set() == old(result_store).name_set() + spec_methods_names(
                *m,
                m.types@[id as int].methods@,
            ),
            final(result_store).entries_seq().len() >= old(result_store).entries_seq().len(),
            final(result_store).entries_seq().subrange(
                0,
                old(result_store).entries_seq().len() as int,
            ) == old(result_store).entries_seq(),
    {
        let td = m.resolve_type(id);
        let mut head = "\nstruct __".to_owned();
        head.append(td.name.as_str());
        head.append("_API__\n{\n");
        self.impl_header.emit(head.as_str());
        let ghost base_body = self.impl_header.body@;
        let ghost base_deps = self.impl_header.dep_seq();
        let ghost e0 = *errors;
        let ghost reg0 = *result_store;
        proof {
            lemma_errors_extended_refl(*errors);
            assert(reg0.name_set() + spec_methods_names(*m, Seq::empty()) =~= reg0.name_set());
            assert(reg0.entries_seq().subrange(0, reg0.entries_seq().len() as int)
                =~= reg0.entries_seq());
        }
        let mths = &td.methods;
        let mut i: usize = 0;
        while i < mths.len()
            invariant
                i <= mths@.len(),
                mths@ == m.types@[id as int].methods@,
                id < m.types@.len(),
                crate::model::c_def_ok(m.types@[id as int], m.types@.len() as int),
                self.impl_header.body@ == base_body + spec_api_members(*m, mths@.take(i as int)),
                self.impl_header.dep_seq() == crate::headers::spec_add_deps(
                    base_deps,
                    spec_api_deps(*m, mths@.take(i as int)),
                ),
                self.decl_header == old(self).decl_header,
                self.impl_header.path == old(self).impl_header.path,
                self.impl_header.decl_dep == old(self).impl_header.decl_dep,
                errors_extended(e0, *errors, spec_api_errs(*m, mths@.take(i as int))),
                e0.ctx_ty == errors.ctx_ty,
                e0.ctx_method == errors.ctx_method,
                result_store.wf(),
                result_store.entries_ok(*m),
                result_store.name_set() == reg0.name_set() + spec_methods_names(*m, mths@.take(
                    i as int,
                )),
                result_store.entries_seq().len() >= reg0.entries_seq().len(),
                result_store.entries_seq().subrange(0, reg0.entries_seq().len() as int)
                    == reg0.entries_seq(),
                reg0 == *old(result_store),
                base_deps == crate::headers::spec_add_deps(
                    old(self).impl_header.dep_seq(),
                    Seq::<Seq<char>>::empty(),
                ),
                base_body == old(self).impl_header.body@ + ("\nstruct __"@
                    + m.types@[id as int].name@ + "_API__\n{\n"@),
            decreases mths@.len() - i,
        {
            let ghost e_pre = *errors;
            let ghost deps_pre = self.impl_header.dep_seq();
            let ghost reg_pre = *result_store;
            if !mths[i].disabled {
                proof {
                    assert(c_method_ok(mths@[i as int], m.types@.len() as int));
                }
                self.gen_method(m, &mths[i], true, result_store, errors);
            } else {
                proof {
                    lemma_errors_extended_refl(*errors);
                }
            }
            proof {
                assert(mths@.take(i as int + 1).drop_last() =~= mths@.take(i as int));
                assert(mths@.take(i as int + 1).last() == mths@[i as int]);
                crate::headers::lemma_add_deps_concat(
                    base_deps,
                    spec_api_deps(*m, mths@.take(i as int)),
                    if mths@[i as int].disabled {
                        Seq::<Seq<char>>::empty()
                    } else {
                        spec_method_deps(*m, mths@[i as int])
                    },
                );
                lemma_errors_extended_trans(
                    e0,
                    e_pre,
                    *errors,
                    spec_api_errs(*m, mths@.take(i as int)),
                    if mths@[i as int].disabled {
                        Seq::<Seq<char>>::empty()
                    } else {
                        spec_method_errs(*m, mths@[i as int])
                    },
                );
                assert(spec_api_errs(*m, mths@.take(i as int)) + (if mths@[i as int].disabled {
                    Seq::<Seq<char>>::empty()
                } else {
                    spec_method_errs(*m, mths@[i as int])
                }) =~= spec_api_errs(*m, mths@.take(i as int + 1)));
                assert(result_store.name_set() =~= reg0.name_set() + spec_methods_names(
                    *m,
                    mths@.take(i as int + 1),
                ));
                assert(result_store.entries_seq().subrange(0, reg0.entries_seq().len() as int)
                    =~= reg0.entries_seq()) by {
                    assert forall|k: int| 0 <= k < reg0.entries_seq().len() implies
                        result_store.entries_seq()[k] == reg0.entries_seq()[k] by {
                        assert(result_store.entries_seq().subrange(
                            0,
                            reg_pre.entries_seq().len() as int,
                        )[k] == result_store.entries_seq()[k]);
                        assert(reg_pre.entries_seq().subrange(
                            0,
                            reg0.entries_seq().len() as int,
                        )[k] == reg_pre.entries_seq()[k]);
                    }
                }
            }
            i += 1;
        }
        proof {
            assert(mths@.take(mths@.len() as int) =~= mths@);
        }
        let is_opaque = match &td.kind {
            TypeDefKind::Opaque => true,
            _ => false,
        };
        if is_opaque {
            self.gen_dtor(m, id, true);
        }
        self.impl_header.emit("};\n\n");
        proof {
            assert(self.impl_header.body@ =~= old(self).impl_header.body@ + spec_api_text(
                *m,
                id as int,
            ));
        }
    }
}

pub open spec fn errors_view(es: Seq<(String, String, String)>) -> Seq<
    (Seq<char>, Seq<char>, Seq<char>),
> {
    es.map_values(|e: (String, String, String)| (e.0@, e.1@, e.2@))
}

/// Messages tagged with one (type, method) context.
pub open spec fn tag_errs(t: Seq<char>, mm: Seq<char>, msgs: Seq<Seq<char>>) -> Seq<
    (Seq<char>, Seq<char>, Seq<char>),
> {
    msgs.map_values(|e: Seq<char>| (t, mm, e))
}

pub proof fn lemma_errors_tagged(b: ErrorStore, a: ErrorStore, msgs: Seq<Seq<char>>)
    requires
        errors_extended(b, a, msgs),
    ensures
        errors_view(a.errors@) == errors_view(b.errors@) + tag_errs(b.ctx_ty@, b.ctx_method@, msgs),
{
    assert forall|k: int| 0 <= k < b.errors@.len() implies a.errors@[k] == b.errors@[k] by {
        assert(a.errors@.subrange(0, b.errors@.len() as int)[k] == a.errors@[k]);
    }
    let lhs = errors_view(a.errors@);
    let rhs = errors_view(b.errors@) + tag_errs(b.ctx_ty@, b.ctx_method@, msgs);
    assert(lhs.len() == rhs.len());
    assert forall|k: int| 0 <= k < lhs.len() implies lhs[k] == rhs[k] by {
        if k < b.errors@.len() {
            assert(lhs[k] == (a.errors@[k].0@, a.errors@[k].1@, a.errors@[k].2@));
            assert(rhs[k] == (b.errors@[k].0@, b.errors@[k].1@, b.errors@[k].2@));
        } else {
            let k2 = k - b.errors@.len();
            assert(a.errors@[b.errors@.len() + k2].0 == b.ctx_ty);
            assert(a.errors@[b.errors@.len() + k2].1 == b.ctx_method);
            assert(a.errors@[b.errors@.len() + k2].2@ == msgs[k2]);
            assert(lhs[k] == (a.errors@[k].0@, a.errors@[k].1@, a.errors@[k].2@));
            assert(rhs[k] == tag_errs(b.ctx_ty@, b.ctx_method@, msgs)[k2]);
            assert(tag_errs(b.ctx_ty@, b.ctx_method@, msgs)[k2] == (
                b.ctx_ty@,
                b.ctx_method@,
                msgs[k2],
            ));
        }
    }
    assert(lhs =~= rhs);
}

/// The declaration-header body of one declared type.
pub open spec fn spec_decl_body(m: TypeModel, id: int) -> Seq<char> {
    let name = m.types@[id].name@;
    match m.types@[id].kind {
        TypeDefKind::Opaque => spec_opaque_def_text(name),
        TypeDefKind::Struct(fields) => spec_struct_def_text(m, name, fields@),
        TypeDefKind::OutStruct(fields) => spec_struct_def_text(m, name, fields@),
        TypeDefKind::Enum(variants) => spec_enum_def_text(name, variants@),
    }
}

pub open spec fn spec_def_decl_deps(m: TypeModel, id: int) -> Seq<Seq<char>> {
    match m.types@[id].kind {
        TypeDefKind::Struct(fields) => spec_fields_decl_deps(m, fields@),
        TypeDefKind::OutStruct(fields) => spec_fields_decl_deps(m, fields@),
        _ => Seq::empty(),
    }
}

pub open spec fn spec_def_impl_deps(m: TypeModel, id: int) -> Seq<Seq<char>> {
    match m.types@[id].kind {
        TypeDefKind::Struct(fields) => spec_fields_impl_deps(m, fields@),
        TypeDefKind::OutStruct(fields) => spec_fields_impl_deps(m, fields@),
        _ => Seq::empty(),
    }
}

pub open spec fn spec_def_errs(m: TypeModel, id: int) -> Seq<Seq<char>> {
    match m.types@[id].kind {
        TypeDefKind::Struct(fields) => spec_fields_errs(m, fields@),
        TypeDefKind::OutStruct(fields) => spec_fields_errs(m, fields@),
        _ => Seq::empty(),
    }
}

/// The method declarations of one type's own header, disabled methods
/// skipped.
pub open spec fn spec_impl_members(m: TypeModel, methods: Seq<MethodDescriptor>) -> Seq<char>
    decreases methods.len(),
{
    if methods.len() == 0 {
        Seq::empty()
    } else {
        spec_impl_members(m, methods.drop_last()) + (if methods.last().disabled {
            Seq::<char>::empty()
        } else {
            spec_method_line(m, methods.last(), false)
        })
    }
}

pub open spec fn spec_methods_deps1(m: TypeModel, methods: Seq<MethodDescriptor>) -> Seq<Seq<char>>
    decreases methods.len(),
{
    if methods.len() == 0 {
        Seq::empty()
    } else {
        spec_methods_deps1(m, methods.drop_last()) + (if methods.last().disabled {
            Seq::<Seq<char>>::empty()
        } else {
            spec_method_deps(m, methods.last())
        })
    }
}

/// The method-pass findings, each tagged with its method context.
pub open spec fn spec_methods_tagged(
    m: TypeModel,
    tyname: Seq<char>,
    methods: Seq<MethodDescriptor>,
) -> Seq<(Seq<char>, Seq<char>, Seq<char>)>
    decreases methods.len(),
{
    if methods.len() == 0 {
        Seq::empty()
    } else {
        spec_methods_tagged(m, tyname, methods.drop_last()) + (if methods.last().disabled {
            Seq::<(Seq<char>, Seq<char>, Seq<char>)>::empty()
        } else {
            tag_errs(tyname, methods.last().name@, spec_method_errs(m, methods.last()))
        })
    }
}

pub open spec fn spec_has_enabled(methods: Seq<MethodDescriptor>) -> bool {
    exists|i: int| 0 <= i < methods.len() && !(#[trigger] methods[i]).disabled
}

/// Whether anything callable was declared for this type, so that an API
/// table is worth emitting.
pub open spec fn spec_method_generated(m: TypeModel, id: int) -> bool {
    spec_has_enabled(m.types@[id].methods@) || m.types@[id].kind is Opaque
}

/// Whether a type takes part in the aggregate API surface: it is
/// enabled and has a table — an enabled method, or the destructor every
/// opaque type carries. Both aggregates, the C header and the
/// producer-side root struct, draw their member lists from this one
/// predicate, so their layouts always agree.
pub open spec fn spec_exposed(m: TypeModel, id: int) -> bool {
    !m.types@[id].disabled && spec_method_generated(m, id)
}

/// Whether any method of `td` is enabled.
pub fn has_enabled_method(td: &TypeDef) -> (r: bool)
    ensures
        r == spec_has_enabled(td.methods@),
{
    let mut found = false;
    let mut i: usize = 0;
    while i < td.methods.len()
        invariant
            i <= td.methods@.len(),
            found == spec_has_enabled(td.methods@.take(i as int)),
        decreases td.methods@.len() - i,
    {
        let ghost pre = td.methods@.take(i as int);
        if !td.methods[i].disabled {
            found = true;
        }
        proof {
            let nxt = td.methods@.take(i as int + 1);
            assert(nxt =~= pre.push(td.methods@[i as int]));
            if !td.methods@[i as int].disabled {
                assert(nxt[i as int] == td.methods@[i as int]);
                assert(spec_has_enabled(nxt));
            } else {
                assert(spec_has_enabled(nxt) == spec_has_enabled(pre)) by {
                    if spec_has_enabled(nxt) {
                        let w = choose|w: int|
                            0 <= w < nxt.len() && !(#[trigger] nxt[w]).disabled;
                        if w < i {
                            assert(!pre[w].disabled);
                        }
                    }
                    if spec_has_enabled(pre) {
                        let w = choose|w: int|
                            0 <= w < pre.len() && !(#[trigger] pre[w]).disabled;
                        assert(!nxt[w].disabled);
                    }
                }
            }
        }
        i += 1;
    }
    proof {
        assert(td.methods@.take(td.methods@.len() as int) =~= td.methods@);
    }
    found
}

/// Whether a type takes part in the aggregate API surface.
pub fn is_exposed(m: &TypeModel, id: usize) -> (r: bool)
    requires
        id < m.types@.len(),
    ensures
        r == spec_exposed(*m, id as int),
{
    let td = m.resolve_type(id);
    if td.disabled {
        return false;
    }
    let opaque = match &td.kind {
        TypeDefKind::Opaque => true,
        _ => false,
    };
    opaque || has_enabled_method(td)
}

/// The method-header body of one declared type: its method
/// declarations, its destructor when opaque, and its API table when
/// anything was declared.
pub open spec fn spec_impl_body(m: TypeModel, id: int) -> Seq<char> {
    spec_impl_members(m, m.types@[id].methods@) + (if m.types@[id].kind is Opaque {
        spec_dtor_line(m.types@[id].name@, false)
    } else {
        Seq::<char>::empty()
    }) + (if spec_method_generated(m, id) {
        spec_api_text(m, id)
    } else {
        Seq::<char>::empty()
    })
}

pub open spec fn spec_impl_deps_raw(m: TypeModel, id: int) -> Seq<Seq<char>> {
    spec_def_impl_deps(m, id) + spec_methods_deps1(m, m.types@[id].methods@) + (
    if spec_method_generated(m, id) {
        spec_api_deps(m, m.types@[id].methods@)
    } else {
        Seq::<Seq<char>>::empty()
    })
}

/// The finished declaration-header file of one type: its dependency
/// edges with the self edge pruned, then its body.
pub open spec fn spec_ty_decl_file(m: TypeModel, id: int) -> Seq<char> {
    let own = spec_decl_header_path(m.types@[id].name@);
    spec_header_render(
        None,
        crate::headers::spec_add_deps(Seq::empty(), spec_def_decl_deps(m, id)).filter(
            |d: Seq<char>| d != own,
        ),
        spec_decl_body(m, id),
    )
}

/// The finished method-header file of one type: its primary declaration
/// edge, its dependency edges with the self edges pruned, then its
/// body.
pub open spec fn spec_ty_impl_file(m: TypeModel, id: int) -> Seq<char> {
    let own_decl = spec_decl_header_path(m.types@[id].name@);
    let own_impl = spec_impl_header_path(m.types@[id].name@);
    spec_header_render(
        Some(own_decl),
        crate::headers::spec_add_deps(Seq::empty(), spec_impl_deps_raw(m, id)).filter(
            |d: Seq<char>| d != own_impl,
        ).filter(|d: Seq<char>| d != own_decl),
        spec_impl_body(m, id),
    )
}

/// Every finding one type's generation records, in order and with its
/// context: the definition pass, each enabled method, then the API
/// pass.
pub open spec fn spec_gen_ty_tags(m: TypeModel, id: int) -> Seq<(Seq<char>, Seq<char>, Seq<char>)> {
    let name = m.types@[id].name@;
    tag_errs(name, Seq::empty(), spec_def_errs(m, id)) + spec_methods_tagged(
        m,
        name,
        m.types@[id].methods@,
    ) + (if spec_method_generated(m, id) {
        tag_errs(name, Seq::empty(), spec_api_errs(m, m.types@[id].methods@))
    } else {
        Seq::<(Seq<char>, Seq<char>, Seq<char>)>::empty()
    })
}

/// The finished wrapper-definition file of one registered result pair.
pub open spec fn spec_result_file(
    m: TypeModel,
    name: Seq<char>,
    ok: Option<TypeDescriptor>,
    err: Option<TypeDescriptor>,
) -> Seq<char> {
    spec_header_render(
        None,
        crate::headers::spec_add_deps(
            Seq::empty(),
            spec_side_decl_deps(m, ok) + spec_side_decl_deps(m, err),
        ),
        spec_result_def_text(m, name, ok, err),
    )
}

/// The main object driving this backend: the output map, the wrapper
/// registry, and the error collector, carried through one traversal of
/// the model.
pub struct CContext {
    pub files: FileMap,
    pub result_store: ResultTypeRegistry,
    pub errors: ErrorStore,
}

impl CContext {
    pub fn new(files: FileMap) -> (r: CContext)
        ensures
            r.files == files,
            r.result_store.wf(),
            r.result_store.entries_seq() == Seq::<crate::registry::ResultEntry>::empty(),
            r.errors.errors@.len() == 0,
    {
        CContext { files, result_store: ResultTypeRegistry::new(), errors: ErrorStore::new() }
    }

    /// Generate both headers of one declared type: the declaration
    /// header with the type's definition, and the method header with its
    /// method declarations, destructor and API table. A disabled type is
    /// skipped entirely.
    #[verifier::rlimit(100)]
    pub fn gen_ty(&mut self, m: &TypeModel, id: usize)
        requires
            id < m.types@.len(),
            crate::model::c_def_ok(m.types@[id as int], m.types@.len() as int),
            old(self).files.wf(),
            old(self).result_store.wf(),
            old(self).result_store.entries_ok(*m),
        ensures
            final(self).files.wf(),
            final(self).result_store.wf(),
            final(self).result_store.entries_ok(*m),
            m.types@[id as int].disabled ==> *final(self) == *old(self),
            !m.types@[id as int].disabled ==> {
                &&& final(self).files.as_map() == old(self).files.as_map().insert(
                    spec_decl_header_path(m.types@[id as int].name@),
                    spec_ty_decl_file(*m, id as int),
                ).insert(
                    spec_impl_header_path(m.types@[id as int].name@),
                    spec_ty_impl_file(*m, id as int),
                )
                &&& errors_view(final(self).errors.errors@) == errors_view(
                    old(self).errors.errors@,
                ) + spec_gen_ty_tags(*m, id as int)
                &&& final(self).result_store.name_set() == old(self).result_store.name_set()
                    + spec_methods_names(*m, m.types@[id as int].methods@)
                &&& final(self).result_store.entries_seq().len() >= old(
                    self,
                ).result_store.entries_seq().len()
                &&& final(self).result_store.entries_seq().subrange(
                    0,
                    old(self).result_store.entries_seq().len() as int,
                ) == old(self).result_store.entries_seq()
            },
    {
        let td = m.resolve_type(id);
        if td.disabled {
            return ;
        }
        let ty_name = td.name.clone();
        let decl_path = crate::fmt::fmt_decl_header_path(ty_name.as_str());
        let impl_path = crate::fmt::fmt_impl_header_path(ty_name.as_str());
        let mut ctx = TyGenContext {
            decl_header: Header::new(decl_path.clone()),
            impl_header: Header::new(impl_path.clone()),
        };
        proof {
            assert(ctx.decl_header.dep_seq() =~= Seq::<Seq<char>>::empty());
            assert(ctx.impl_header.dep_seq() =~= Seq::<Seq<char>>::empty());
        }
        self.errors.set_context_ty(ty_name.clone());
        let ghost e_defs = self.errors;
        match &td.kind {
            TypeDefKind::Enum(variants) => {
                ctx.gen_enum_def(m, id, variants);
                proof {
                    lemma_errors_extended_refl(self.errors);
                    lemma_errors_tagged(e_defs, self.errors, spec_def_errs(*m, id as int));
                }
            },
            TypeDefKind::Opaque => {
                ctx.gen_opaque_def(m, id);
                proof {
                    lemma_errors_extended_refl(self.errors);
                    lemma_errors_tagged(e_defs, self.errors, spec_def_errs(*m, id as int));
                }
            },
            TypeDefKind::Struct(fields) => {
                ctx.gen_struct_def(m, id, fields, &mut self.errors);
                proof {
                    lemma_errors_tagged(e_defs, self.errors, spec_def_errs(*m, id as int));
                }
            },
            TypeDefKind::OutStruct(fields) => {
                ctx.gen_struct_def(m, id, fields, &mut self.errors);
                proof {
                    lemma_errors_tagged(e_defs, self.errors, spec_def_errs(*m, id as int));
                }
            },
        }
        proof {
            assert(ctx.decl_header.dep_seq() =~= crate::headers::spec_add_deps(
                Seq::empty(),
                spec_def_decl_deps(*m, id as int),
            ));
            assert(ctx.impl_header.dep_seq() =~= crate::headers::spec_add_deps(
                Seq::empty(),
                spec_def_impl_deps(*m, id as int),
            ));
        }
        let ghost view_defs = errors_view(self.errors.errors@);
        let ghost reg0 = self.result_store;
        let ghost ctx_defs = ctx;
        let mut method_generated = false;
        let mths = &td.methods;
        let mut i: usize = 0;
        while i < mths.len()
            invariant
                i <= mths@.len(),
                mths@ == m.types@[id as int].methods@,
                id < m.types@.len(),
                crate::model::c_def_ok(m.types@[id as int], m.types@.len() as int),
                ty_name@ == m.types@[id as int].name@,
                errors_view(self.errors.errors@) == view_defs + spec_methods_tagged(
                    *m,
                    m.types@[id as int].name@,
                    mths@.take(i as int),
                ),
                ctx.impl_header.body@ == ctx_defs.impl_header.body@ + spec_impl_members(
                    *m,
                    mths@.take(i as int),
                ),
                ctx.impl_header.dep_seq() == crate::headers::spec_add_deps(
                    ctx_defs.impl_header.dep_seq(),
                    spec_methods_deps1(*m, mths@.take(i as int)),
                ),
                ctx.impl_header.path == ctx_defs.impl_header.path,
                ctx.impl_header.decl_dep == ctx_defs.impl_header.decl_dep,
                ctx.decl_header == ctx_defs.decl_header,
                self.result_store.wf(),
                self.result_store.entries_ok(*m),
                self.result_store.name_set() == reg0.name_set() + spec_methods_names(
                    *m,
                    mths@.take(i as int),
                ),
                self.result_store.entries_seq().len() >= reg0.entries_seq().len(),
                self.result_store.entries_seq().subrange(0, reg0.entries_seq().len() as int)
                    == reg0.entries_seq(),
                method_generated == spec_has_enabled(mths@.take(i as int)),
                self.files == old(self).files,
                reg0 == old(self).result_store,
            decreases mths@.len() - i,
        {
            let ghost e_pre = self.errors;
            let ghost reg_pre = self.result_store;
            if !mths[i].disabled {
                self.errors.set_context_method(ty_name.clone(), mths[i].name.clone());
                let ghost e_m = self.errors;
                proof {
                    assert(c_method_ok(mths@[i as int], m.types@.len() as int));
                }
                ctx.gen_method(m, &mths[i], false, &mut self.result_store, &mut self.errors);
                method_generated = true;
                proof {
                    lemma_errors_tagged(e_m, self.errors, spec_method_errs(*m, mths@[i as int]));
                    assert(errors_view(self.errors.errors@) =~= view_defs + spec_methods_tagged(
                        *m,
                        m.types@[id as int].name@,
                        mths@.take(i as int),
                    ) + tag_errs(
                        m.types@[id as int].name@,
                        mths@[i as int].name@,
                        spec_method_errs(*m, mths@[i as int]),
                    ));
                }
            }
            proof {
                assert(mths@.take(i as int + 1).drop_last() =~= mths@.take(i as int));
                assert(mths@.take(i as int + 1).last() == mths@[i as int]);
                assert(errors_view(self.errors.errors@) =~= view_defs + spec_methods_tagged(
                    *m,
                    m.types@[id as int].name@,
                    mths@.take(i as int + 1),
                ));
                crate::headers::lemma_add_deps_concat(
                    ctx_defs.impl_header.dep_seq(),
                    spec_methods_deps1(*m, mths@.take(i as int)),
                    if mths@[i as int].disabled {
                        Seq::<Seq<char>>::empty()
                    } else {
                        spec_method_deps(*m, mths@[i as int])
                    },
                );
                assert(self.result_store.name_set() =~= reg0.name_set() + spec_methods_names(
                    *m,
                    mths@.take(i as int + 1),
                ));
                assert(self.result_store.entries_seq().subrange(
                    0,
                    reg0.entries_seq().len() as int,
                ) =~= reg0.entries_seq()) by {
                    assert forall|k: int| 0 <= k < reg0.entries_seq().len() implies
                        self.result_store.entries_seq()[k] == reg0.entries_seq()[k] by {
                        assert(self.result_store.entries_seq().subrange(
                            0,
                            reg_pre.entries_seq().len() as int,
                        )[k] == self.result_store.entries_seq()[k]);
                        assert(reg_pre.entries_seq().subrange(
                            0,
                            reg0.entries_seq().len() as int,
                        )[k] == reg_pre.entries_seq()[k]);
                    }
                }
                if !mths@[i as int].disabled {
                    assert(spec_has_enabled(mths@.take(i as int + 1)));
                } else {
                    assert(spec_has_enabled(mths@.take(i as int + 1)) == spec_has_enabled(
                        mths@.take(i as int),
                    )) by {
                        if spec_has_enabled(mths@.take(i as int + 1)) {
                            let w = choose|w: int|
                                0 <= w < mths@.take(i as int + 1).len() && !(#[trigger] mths@.take(
                                    i as int + 1,
                                )[w]).disabled;
                            if w < i {
                                assert(!mths@.take(i as int)[w].disabled);
                            }
                        }
                        if spec_has_enabled(mths@.take(i as int)) {
                            let w = choose|w: int|
                                0 <= w < mths@.take(i as int).len() && !(#[trigger] mths@.take(
                                    i as int,
                                )[w]).disabled;
                            assert(!mths@.take(i as int + 1)[w].disabled);
                        }
                    }
                }
            }
            i += 1;
        }
        proof {
            assert(mths@.take(mths@.len() as int) =~= mths@);
        }
        self.errors.set_context_ty(ty_name.clone());
        let is_opaque = match &td.kind {
            TypeDefKind::Opaque => true,
            _ => false,
        };
        if is_opaque {
            ctx.gen_dtor(m, id, false);
            method_generated = true;
        }
        let ghost view_mths = errors_view(self.errors.errors@);
        let ghost ctx_mths = ctx;
        if method_generated {
            let ghost e_api = self.errors;
            ctx.gen_api(m, id, &mut self.result_store, &mut self.errors);
            proof {
                lemma_errors_tagged(
                    e_api,
                    self.errors,
                    spec_api_errs(*m, m.types@[id as int].methods@),
                );
            }
        }
        let ghost own_decl = spec_decl_header_path(m.types@[id as int].name@);
        let ghost own_impl = spec_impl_header_path(m.types@[id as int].name@);
        proof {
            assert(decl_path@ == own_decl);
            assert(impl_path@ == own_impl);
            assert(ctx.impl_header.dep_seq() =~= crate::headers::spec_add_deps(
                Seq::empty(),
                spec_impl_deps_raw(*m, id as int),
            )) by {
                crate::headers::lemma_add_deps_concat(
                    Seq::empty(),
                    spec_def_impl_deps(*m, id as int),
                    spec_methods_deps1(*m, m.types@[id as int].methods@),
                );
                crate::headers::lemma_add_deps_concat(
                    Seq::empty(),
                    spec_def_impl_deps(*m, id as int) + spec_methods_deps1(
                        *m,
                        m.types@[id as int].methods@,
                    ),
                    if spec_method_generated(*m, id as int) {
                        spec_api_deps(*m, m.types@[id as int].methods@)
                    } else {
                        Seq::<Seq<char>>::empty()
                    },
                );
                assert((spec_def_impl_deps(*m, id as int) + spec_methods_deps1(
                    *m,
                    m.types@[id as int].methods@,
                )) + (if spec_method_generated(*m, id as int) {
                    spec_api_deps(*m, m.types@[id as int].methods@)
                } else {
                    Seq::<Seq<char>>::empty()
                }) =~= spec_impl_deps_raw(*m, id as int));
            }
        }
        ctx.decl_header.remove_dep(decl_path.as_str());
        proof {
            assert((|d: Seq<char>| d != decl_path@) =~= (|d: Seq<char>| d != own_decl));
        }
        ctx.impl_header.remove_dep(impl_path.as_str());
        proof {
            assert((|d: Seq<char>| d != impl_path@) =~= (|d: Seq<char>| d != own_impl));
        }
        ctx.impl_header.remove_dep(decl_path.as_str());
        ctx.impl_header.decl_dep = Some(decl_path.clone());
        let decl_text = ctx.decl_header.render();
        let impl_text = ctx.impl_header.render();
        self.files.add_file(decl_path, decl_text);
        self.files.add_file(impl_path, impl_text);
        proof {
            assert(spec_method_generated(*m, id as int) == (spec_has_enabled(mths@)
                || m.types@[id as int].kind is Opaque));
            assert(ctx.decl_header.dep_seq() == crate::headers::spec_add_deps(
                Seq::empty(),
                spec_def_decl_deps(*m, id as int),
            ).filter(|d: Seq<char>| d != own_decl));
            assert(ctx.impl_header.dep_seq() == crate::headers::spec_add_deps(
                Seq::empty(),
                spec_impl_deps_raw(*m, id as int),
            ).filter(|d: Seq<char>| d != own_impl).filter(|d: Seq<char>| d != own_decl));
            assert(ctx.decl_header.body@ =~= spec_decl_body(*m, id as int));
            assert(ctx.impl_header.body@ =~= spec_impl_body(*m, id as int));
            assert(errors_view(self.errors.errors@) =~= errors_view(old(self).errors.errors@)
                + spec_gen_ty_tags(*m, id as int));
            assert(self.result_store.name_set() =~= old(self).result_store.name_set()
                + spec_methods_names(*m, m.types@[id as int].methods@));
        }
    }
}

/// The aggregate API header: one member per exposed type, a fixed core
/// sub-table, and the single entrypoint a host looks up. The writer
/// turns the dependency markers into real inclusion directives.
pub open spec fn spec_api_uses(names: Seq<Seq<char>>) -> Seq<char>
    decreases names.len(),
{
    if names.len() == 0 {
        Seq::empty()
    } else {
        spec_api_uses(names.drop_last()) + "/* uses "@ + names.last() + ".h */\n"@
    }
}

pub open spec fn spec_api_fields(names: Seq<Seq<char>>) -> Seq<char>
    decreases names.len(),
{
    if names.len() == 0 {
        Seq::empty()
    } else {
        spec_api_fields(names.drop_last()) + "  struct __"@ + names.last() + "_API__ "@
            + names.last() + ";\n"@
    }
}

pub open spec fn spec_render_api(
    apiname: Seq<char>,
    entrypoint: Seq<char>,
    names: Seq<Seq<char>>,
) -> Seq<char> {
    spec_api_uses(names) + "\nstruct __Core_API__ {\n  void(*free)(void* ptr);\n};\n\nstruct "@
        + apiname + "\n{\n  struct __Core_API__ core;\n"@ + spec_api_fields(names)
        + "};\n\nconst struct "@ + apiname + "* "@ + entrypoint + "();\n"@
}

/// Render the aggregate API header for the given type names.
pub fn render_api(apiname: &str, entrypoint: &str, ty_names: &Vec<String>) -> (r: String)
    ensures
        r@ == spec_render_api(apiname@, entrypoint@, ty_names@.map_values(|s: String| s@)),
{
    let ghost names = ty_names@.map_values(|s: String| s@);
    let mut uses = String::new();
    let mut i: usize = 0;
    while i < ty_names.len()
        invariant
            i <= ty_names@.len(),
            names == ty_names@.map_values(|s: String| s@),
            uses@ == spec_api_uses(names.take(i as int)),
        decreases ty_names@.len() - i,
    {
        uses.append("/* uses ");
        uses.append(ty_names[i].as_str());
        uses.append(".h */\n");
        proof {
            assert(names.take(i as int + 1).drop_last() =~= names.take(i as int));
            assert(names.take(i as int + 1).last() == names[i as int]);
        }
        i += 1;
    }
    let mut fields = String::new();
    let mut j: usize = 0;
    while j < ty_names.len()
        invariant
            j <= ty_names@.len(),
            names == ty_names@.map_values(|s: String| s@),
            fields@ == spec_api_fields(names.take(j as int)),
        decreases ty_names@.len() - j,
    {
        fields.append("  struct __");
        fields.append(ty_names[j].as_str());
        fields.append("_API__ ");
        fields.append(ty_names[j].as_str());
        fields.append(";\n");
        proof {
            assert(names.take(j as int + 1).drop_last() =~= names.take(j as int));
            assert(names.take(j as int + 1).last() == names[j as int]);
        }
        j += 1;
    }
    proof {
        assert(names.take(names.len() as int) =~= names);
    }
    let mut r = uses;
    r.append("\nstruct __Core_API__ {\n  void(*free)(void* ptr);\n};\n\nstruct ");
    r.append(apiname);
    r.append("\n{\n  struct __Core_API__ core;\n");
    r.append(fields.as_str());
    r.append("};\n\nconst struct ");
    r.append(apiname);
    r.append("* ");
    r.append(entrypoint);
    r.append("();\n");
    proof {
        assert(r@ =~= spec_render_api(apiname@, entrypoint@, names));
    }
    r
}

/// The files of all declared types up to index `i`, folded over `acc`.
pub open spec fn spec_types_files(m: TypeModel, i: int, acc: Map<Seq<char>, Seq<char>>) -> Map<
    Seq<char>,
    Seq<char>,
>
    decreases i,
{
    if i <= 0 {
        acc
    } else {
        let prev = spec_types_files(m, i - 1, acc);
        if m.types@[i - 1].disabled {
            prev
        } else {
            prev.insert(
                spec_decl_header_path(m.types@[i - 1].name@),
                spec_ty_decl_file(m, i - 1),
            ).insert(spec_impl_header_path(m.types@[i - 1].name@), spec_ty_impl_file(m, i - 1))
        }
    }
}

/// The wrapper files of all registered entries, folded over `acc`.
pub open spec fn spec_results_files(
    m: TypeModel,
    entries: Seq<crate::registry::ResultEntry>,
    acc: Map<Seq<char>, Seq<char>>,
) -> Map<Seq<char>, Seq<char>>
    decreases entries.len(),
{
    if entries.len() == 0 {
        acc
    } else {
        spec_results_files(m, entries.drop_last(), acc).insert(
            spec_result_header_path(entries.last().name@),
            spec_result_file(m, entries.last().name@, entries.last().ok, entries.last().err),
        )
    }
}

/// The names of the types that take part in the aggregate API surface,
/// in traversal order. The aggregate C header and the producer-side
/// root struct both list exactly these.
pub open spec fn spec_api_ty_names(m: TypeModel, i: int) -> Seq<Seq<char>>
    decreases i,
{
    if i <= 0 {
        Seq::empty()
    } else {
        spec_api_ty_names(m, i - 1) + (if spec_exposed(m, i - 1) {
            seq![m.types@[i - 1].name@]
        } else {
            Seq::<Seq<char>>::empty()
        })
    }
}

/// The placeholder body of the fixed runtime support header: the core
/// always adds the file, and the writer that owns target syntax
/// supplies its contents verbatim.
pub open spec fn spec_runtime_note() -> Seq<char> {
    "/* runtime support declarations; the writer supplies this file verbatim */\n"@
}

/// Every wrapper name the whole model's enabled types register.
pub open spec fn spec_model_names(m: TypeModel, i: int) -> Set<Seq<char>>
    decreases i,
{
    if i <= 0 {
        Set::empty()
    } else {
        spec_model_names(m, i - 1) + (if m.types@[i - 1].disabled {
            Set::<Seq<char>>::empty()
        } else {
            spec_methods_names(m, m.types@[i - 1].methods@)
        })
    }
}

/// Every finding the whole type pass records, in order.
pub open spec fn spec_run_type_tags(m: TypeModel, i: int) -> Seq<(Seq<char>, Seq<char>, Seq<char>)>
    decreases i,
{
    if i <= 0 {
        Seq::empty()
    } else {
        spec_run_type_tags(m, i - 1) + (if m.types@[i - 1].disabled {
            Seq::<(Seq<char>, Seq<char>, Seq<char>)>::empty()
        } else {
            spec_gen_ty_tags(m, i - 1)
        })
    }
}

/// Every finding the wrapper-rendering pass records, in order.
pub open spec fn spec_results_tags(
    m: TypeModel,
    entries: Seq<crate::registry::ResultEntry>,
) -> Seq<(Seq<char>, Seq<char>, Seq<char>)>
    decreases entries.len(),
{
    if entries.len() == 0 {
        Seq::empty()
    } else {
        spec_results_tags(m, entries.drop_last()) + tag_errs(
            entries.last().name@,
            Seq::empty(),
            spec_side_errs(m, entries.last().ok) + spec_side_errs(m, entries.last().err),
        )
    }
}

impl CContext {
    /// Render the wrapper-definition file of one registered pair.
    pub fn gen_result(
        &mut self,
        m: &TypeModel,
        name: &str,
        ok: Option<&TypeDescriptor>,
        err: Option<&TypeDescriptor>,
    )
        requires
            old(self).files.wf(),
            ok matches Some(t) ==> c_ty_ok(*t, m.types@.len() as int),
            err matches Some(t) ==> c_ty_ok(*t, m.types@.len() as int),
        ensures
            final(self).files.wf(),
            final(self).result_store == old(self).result_store,
            final(self).files.as_map() == old(self).files.as_map().insert(
                spec_result_header_path(name@),
                spec_result_file(
                    *m,
                    name@,
                    match ok {
                        Some(t) => Some(*t),
                        None => None,
                    },
                    match err {
                        Some(t) => Some(*t),
                        None => None,
                    },
                ),
            ),
            errors_view(final(self).errors.errors@) == errors_view(old(self).errors.errors@)
                + tag_errs(
                name@,
                Seq::empty(),
                spec_side_errs(
                    *m,
                    match ok {
                        Some(t) => Some(*t),
                        None => None,
                    },
                ) + spec_side_errs(
                    *m,
                    match err {
                        Some(t) => Some(*t),
                        None => None,
                    },
                ),
            ),
    {
        self.errors.set_context_ty(name.to_owned());
        let header_path = crate::fmt::fmt_result_header_path(name);
        let mut ctx = TyGenContext {
            decl_header: Header::new(header_path.clone()),
            impl_header: Header::new(String::new()),
        };
        proof {
            assert(ctx.decl_header.dep_seq() =~= Seq::<Seq<char>>::empty());
        }
        let ghost e0 = self.errors;
        ctx.gen_result(m, name, ok, err, &mut self.errors);
        proof {
            lemma_errors_tagged(
                e0,
                self.errors,
                spec_side_errs(
                    *m,
                    match ok {
                        Some(t) => Some(*t),
                        None => None,
                    },
                ) + spec_side_errs(
                    *m,
                    match err {
                        Some(t) => Some(*t),
                        None => None,
                    },
                ),
            );
            crate::headers::lemma_add_deps_concat(
                Seq::empty(),
                spec_side_decl_deps(
                    *m,
                    match ok {
                        Some(t) => Some(*t),
                        None => None,
                    },
                ),
                spec_side_decl_deps(
                    *m,
                    match err {
                        Some(t) => Some(*t),
                        None => None,
                    },
                ),
            );
        }
        let text = ctx.decl_header.render();
        self.files.add_file(header_path, text);
    }

    /// The `(type, name)` declarations one type expands to in parameter
    /// position, for callers outside the per-type walk.
    pub fn gen_ty_decl(&mut self, m: &TypeModel, ty: &TypeDescriptor, ident: &str) -> (r: Vec<
        (String, String),
    >)
        requires
            c_ty_ok(*ty, m.types@.len() as int),
        ensures
            pair_views(r@) == spec_ty_decl(*m, *ty, ident@, false),
            final(self).files == old(self).files,
            final(self).result_store == old(self).result_store,
            errors_view(final(self).errors.errors@) == errors_view(old(self).errors.errors@)
                + tag_errs(
                old(self).errors.ctx_ty@,
                old(self).errors.ctx_method@,
                spec_ty_errs(*m, *ty),
            ),
    {
        let mut ctx = TyGenContext {
            decl_header: Header::new(String::new()),
            impl_header: Header::new(String::new()),
        };
        let ghost e0 = self.errors;
        let r = ctx.gen_ty_decl(m, ty, ident, false, &mut self.errors);
        proof {
            lemma_errors_tagged(e0, self.errors, spec_ty_errs(*m, *ty));
        }
        r
    }

    /// Run the whole declaration pass: add the fixed runtime support
    /// header, generate both headers of every enabled type, then one
    /// definition file per registered wrapper, then — in API-table mode
    /// — the aggregate header under its fixed path. The finished map is
    /// exactly these files folded over whatever the context already
    /// held.
    pub fn run(&mut self, m: &TypeModel, api_info: Option<&ApiInfo>)
        requires
            crate::model::c_model_ok(*m),
            old(self).files.wf(),
            old(self).result_store.wf(),
            old(self).result_store.entries_ok(*m),
        ensures
            final(self).files.wf(),
            final(self).result_store.wf(),
            final(self).result_store.entries_ok(*m),
            final(self).result_store.name_set() == old(self).result_store.name_set()
                + spec_model_names(*m, m.types@.len() as int),
            errors_view(final(self).errors.errors@) == errors_view(old(self).errors.errors@)
                + spec_run_type_tags(*m, m.types@.len() as int) + spec_results_tags(
                *m,
                final(self).result_store.entries_seq(),
            ),
            final(self).files.as_map() == ({
                let with_runtime = old(self).files.as_map().insert(
                    "diplomat_runtime.h"@,
                    spec_runtime_note(),
                );
                let after_types = spec_types_files(*m, m.types@.len() as int, with_runtime);
                let after_results = spec_results_files(
                    *m,
                    final(self).result_store.entries_seq(),
                    after_types,
                );
                match api_info {
                    Some(info) => after_results.insert(
                        "api.h"@,
                        spec_render_api(
                            info.apiname@,
                            info.refresh_api_fn@,
                            spec_api_ty_names(*m, m.types@.len() as int),
                        ),
                    ),
                    None => after_results,
                }
            }),
    {
        self.files.add_file(
            "diplomat_runtime.h".to_owned(),
            "/* runtime support declarations; the writer supplies this file verbatim */\n".to_owned(),
        );
        let ghost base = self.files.as_map();
        proof {
            assert(base == old(self).files.as_map().insert(
                "diplomat_runtime.h"@,
                spec_runtime_note(),
            ));
        }
        let ghost reg0 = self.result_store;
        let mut id: usize = 0;
        while id < m.types.len()
            invariant
                id <= m.types@.len(),
                crate::model::c_model_ok(*m),
                self.files.wf(),
                self.result_store.wf(),
                self.result_store.entries_ok(*m),
                self.files.as_map() == spec_types_files(*m, id as int, base),
                self.result_store.name_set() == reg0.name_set() + spec_model_names(
                    *m,
                    id as int,
                ),
                errors_view(self.errors.errors@) == errors_view(old(self).errors.errors@)
                    + spec_run_type_tags(*m, id as int),
                base == old(self).files.as_map().insert(
                    "diplomat_runtime.h"@,
                    spec_runtime_note(),
                ),
                reg0 == old(self).result_store,
            decreases m.types@.len() - id,
        {
            proof {
                assert(crate::model::c_def_ok(m.types@[id as int], m.types@.len() as int));
            }
            let ghost reg_pre = self.result_store;
            let ghost ev_pre = errors_view(self.errors.errors@);
            self.gen_ty(m, id);
            proof {
                if m.types@[id as int].disabled {
                    assert(self.result_store.name_set() =~= reg0.name_set() + spec_model_names(
                        *m,
                        id as int + 1,
                    ));
                    assert(errors_view(self.errors.errors@) =~= errors_view(
                        old(self).errors.errors@,
                    ) + spec_run_type_tags(*m, id as int + 1));
                } else {
                    assert(self.result_store.name_set() =~= reg0.name_set() + spec_model_names(
                        *m,
                        id as int + 1,
                    ));
                    assert(errors_view(self.errors.errors@) =~= errors_view(
                        old(self).errors.errors@,
                    ) + spec_run_type_tags(*m, id as int + 1));
                }
            }
            id += 1;
        }
        let ghost after_types = self.files.as_map();
        let ghost ev_types = errors_view(self.errors.errors@);
        let ghost reg_final = self.result_store;
        let ghost entries_final = self.result_store.entries_seq();
        let mut k: usize = 0;
        let n_results = self.result_store.entries().len();
        while k < n_results
            invariant
                k <= n_results,
                n_results == entries_final.len(),
                self.result_store == reg_final,
                entries_final == reg_final.entries_seq(),
                self.files.wf(),
                reg_final.wf(),
                reg_final.entries_ok(*m),
                self.files.as_map() == spec_results_files(*m, entries_final.take(k as int),
                    after_types),
                errors_view(self.errors.errors@) == ev_types + spec_results_tags(
                    *m,
                    entries_final.take(k as int),
                ),
            decreases n_results - k,
        {
            let (name_c, ok_c, err_c): (String, Option<TypeDescriptor>, Option<TypeDescriptor>) = {
                let es = self.result_store.entries();
                let name_c = es[k].name.clone();
                let ok_c = match &es[k].ok {
                    Some(t) => Some(t.dup()),
                    None => None,
                };
                let err_c = match &es[k].err {
                    Some(t) => Some(t.dup()),
                    None => None,
                };
                (name_c, ok_c, err_c)
            };
            let ok_ref: Option<&TypeDescriptor> = match &ok_c {
                Some(t) => Some(t),
                None => None,
            };
            let err_ref: Option<&TypeDescriptor> = match &err_c {
                Some(t) => Some(t),
                None => None,
            };
            self.gen_result(m, name_c.as_str(), ok_ref, err_ref);
            proof {
                assert(entries_final.take(k as int + 1).drop_last() =~= entries_final.take(
                    k as int,
                ));
                assert(entries_final.take(k as int + 1).last() == entries_final[k as int]);
                assert(errors_view(self.errors.errors@) =~= ev_types + spec_results_tags(
                    *m,
                    entries_final.take(k as int + 1),
                ));
            }
            k += 1;
        }
        proof {
            assert(entries_final.take(entries_final.len() as int) =~= entries_final);
        }
        match api_info {
            Some(info) => {
                let mut ty_names: Vec<String> = Vec::new();
                let mut t: usize = 0;
                while t < m.types.len()
                    invariant
                        t <= m.types@.len(),
                        ty_names@.map_values(|s: String| s@) == spec_api_ty_names(*m, t as int),
                    decreases m.types@.len() - t,
                {
                    let td = m.resolve_type(t);
                    if is_exposed(m, t) {
                        ty_names.push(td.name.clone());
                        proof {
                            assert(ty_names@.map_values(|s: String| s@) =~= spec_api_ty_names(
                                *m,
                                t as int,
                            ) + seq![m.types@[t as int].name@]);
                        }
                    } else {
                        proof {
                            assert(ty_names@.map_values(|s: String| s@) =~= spec_api_ty_names(
                                *m,
                                t as int + 1,
                            ));
                        }
                    }
                    t += 1;
                }
                let text = render_api(
                    info.apiname.as_str(),
                    info.refresh_api_fn.as_str(),
                    &ty_names,
                );
                self.files.add_file("api.h".to_owned(), text);
            },
            None => {},
        }
    }
}

/// The C element name of a slice's contents.
pub fn slice_elem_c(elem: SliceElem) -> (r: &'static str)
    ensures
        r@ == spec_slice_elem_c(elem),
{
    match elem {
        SliceElem::Primitive(p) => crate::fmt::fmt_primitive_as_c(p),
        SliceElem::Utf8 => "char",
        SliceElem::Utf16 => "char16_t",
        SliceElem::Str8View => "DiplomatStrs8View",
        SliceElem::Str16View => "DiplomatStrs16View",
    }
}

/// The C type of a slice's data pointer in parameter position.
pub fn slice_data_ptr_c(own: Ownership, elem: SliceElem) -> (r: String)
    ensures
        r@ == spec_slice_data_ptr_c(own, elem),
{
    match elem {
        SliceElem::Primitive(p) => {
            let mu = crate::lowering::data_ptr_mut(own, elem);
            crate::fmt::fmt_ptr(crate::fmt::fmt_primitive_as_c(p), mu)
        },
        SliceElem::Utf8 => "const char*".to_owned(),
        SliceElem::Utf16 => "const char16_t*".to_owned(),
        SliceElem::Str8View => "DiplomatStrs8View*".to_owned(),
        SliceElem::Str16View => "DiplomatStrs16View*".to_owned(),
    }
}

} // verus!
