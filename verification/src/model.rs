//! The semantic type model consumed by all generators.
//!
//! The model is built once by a front end and is never mutated afterwards;
//! the generators only read it. Lifetimes are already erased: borrows are
//! reduced to an ownership marker plus a mutability flag.

use vstd::prelude::*;

verus! {

/// Primitive kinds that cross the ABI boundary by value.
#[derive(Clone, Copy, PartialEq, Eq, Structural)]
pub enum PrimKind {
    Bool,
    Char,
    U8,
    I8,
    U16,
    I16,
    U32,
    I32,
    U64,
    I64,
    Usize,
    Isize,
    F32,
    F64,
}

#[derive(Clone, Copy, PartialEq, Eq, Structural)]
pub enum Mutability {
    Immutable,
    Mutable,
}

/// How a slice, string or opaque handle is held at the boundary.
/// A borrowed value keeps its lifetime only as this erased marker.
#[derive(Clone, Copy, PartialEq, Eq, Structural)]
pub enum Ownership {
    Borrowed(Mutability),
    Owned,
}

/// The element shape of a slice-like type. Strings are slices of their
/// code units; `Str8View`/`Str16View` are slices whose elements are
/// themselves string views.
#[derive(Clone, Copy, PartialEq, Eq, Structural)]
pub enum SliceElem {
    Primitive(PrimKind),
    Utf8,
    Utf16,
    Str8View,
    Str16View,
}

/// A single type as it appears in a parameter, field or return slot.
/// Cross references to declared types are indices into `TypeModel::types`.
pub enum TypeDescriptor {
    Unit,
    Primitive(PrimKind),
    /// An opaque handle: index of the declared type, plus how it is held.
    Opaque(usize, Ownership),
    /// A value of a declared struct type.
    Struct(usize),
    /// A value of a declared enum type.
    Enum(usize),
    /// A slice or string: ownership, element shape, and whether the
    /// contents are validated (a validated UTF-8 slice is reconstructed
    /// as text, an unvalidated one as raw code units).
    Slice(Ownership, SliceElem, bool),
    OptionOf(Box<TypeDescriptor>),
    /// A fallible value: ok side, error side, and whether it is flattened
    /// into a tagged-union wrapper at the boundary.
    ResultOf(Option<Box<TypeDescriptor>>, Option<Box<TypeDescriptor>>, bool),
    /// A callback: ordered inputs and an output (`Unit` when none).
    Function(Box<FnInputs>, Box<TypeDescriptor>),
    Reference(Mutability, Box<TypeDescriptor>),
    /// An out-buffer for text output.
    Writeable,
    /// A three-way comparison result, lowered as a signed byte.
    Ordering,
}

/// The ordered inputs of a callback type.
pub enum FnInputs {
    Nil,
    Cons(FnInput, Box<FnInputs>),
}

/// One input of a callback type. The name is optional; unnamed inputs get
/// positional synthetic names when code is generated.
pub struct FnInput {
    pub name: Option<String>,
    pub ty: TypeDescriptor,
}

/// What a method produces on success.
pub enum SuccessKind {
    Unit,
    Writeable,
    OutType(TypeDescriptor),
}

/// The return contract of a method.
pub enum ReturnDescriptor {
    Infallible(SuccessKind),
    Fallible(SuccessKind, Option<TypeDescriptor>),
    Nullable(SuccessKind),
}

pub struct ParamDescriptor {
    pub name: String,
    pub ty: TypeDescriptor,
}

pub struct MethodDescriptor {
    pub name: String,
    /// The fully qualified symbol name the producer-side shim exports.
    pub full_path_name: String,
    /// The type of the self parameter, when the method has one.
    pub self_param: Option<TypeDescriptor>,
    pub params: Vec<ParamDescriptor>,
    pub output: ReturnDescriptor,
    pub disabled: bool,
    /// Conditional-compilation attributes carried through verbatim.
    pub cfgs: Vec<String>,
}

pub struct FieldDescriptor {
    pub name: String,
    pub ty: TypeDescriptor,
}

pub struct EnumVariant {
    pub name: String,
    pub discriminant: i64,
}

pub enum TypeDefKind {
    Opaque,
    Struct(Vec<FieldDescriptor>),
    /// A struct only ever returned to the foreign side.
    OutStruct(Vec<FieldDescriptor>),
    Enum(Vec<EnumVariant>),
}

pub struct TypeDef {
    pub name: String,
    pub kind: TypeDefKind,
    pub methods: Vec<MethodDescriptor>,
    pub disabled: bool,
    /// Conditional-compilation attributes carried through verbatim.
    pub cfgs: Vec<String>,
    /// Whether the host item already carries an explicit layout
    /// attribute, so the producer side must not pin a second one.
    pub has_repr: bool,
}

/// The immutable container of all declared types.
pub struct TypeModel {
    pub types: Vec<TypeDef>,
}

/// Caller-supplied names for API-table mode.
pub struct ApiInfo {
    pub apiname: String,
    pub refresh_api_fn: String,
    pub get_api_fn: String,
    pub additional_includes: Vec<String>,
}

impl TypeDescriptor {
    /// True of the types that expand to a `(data, len)` parameter pair.
    pub open spec fn is_slice_like(&self) -> bool {
        self matches TypeDescriptor::Slice(_, _, _)
    }

    /// True of types that lower to a single nullable pointer, so that
    /// `OptionOf` them needs no wrapper type.
    pub open spec fn is_pointer_representable(&self) -> bool {
        ||| self matches TypeDescriptor::Opaque(_, _)
        ||| self matches TypeDescriptor::Reference(_, _)
    }

    /// A deep copy, equal to the original.
    pub fn dup(&self) -> (r: TypeDescriptor)
        ensures
            r == *self,
        decreases *self,
    {
        match self {
            TypeDescriptor::Unit => TypeDescriptor::Unit,
            TypeDescriptor::Primitive(p) => TypeDescriptor::Primitive(*p),
            TypeDescriptor::Opaque(id, own) => TypeDescriptor::Opaque(*id, *own),
            TypeDescriptor::Struct(id) => TypeDescriptor::Struct(*id),
            TypeDescriptor::Enum(id) => TypeDescriptor::Enum(*id),
            TypeDescriptor::Slice(own, elem, validated) => TypeDescriptor::Slice(
                *own,
                *elem,
                *validated,
            ),
            TypeDescriptor::OptionOf(inner) => TypeDescriptor::OptionOf(
                Box::new((&**inner).dup()),
            ),
            TypeDescriptor::ResultOf(ok, err, flatten) => {
                let ok2 = match ok {
                    Some(b) => Some(Box::new((&**b).dup())),
                    None => None,
                };
                let err2 = match err {
                    Some(b) => Some(Box::new((&**b).dup())),
                    None => None,
                };
                TypeDescriptor::ResultOf(ok2, err2, *flatten)
            },
            TypeDescriptor::Function(inputs, out) => TypeDescriptor::Function(
                Box::new((&**inputs).dup()),
                Box::new((&**out).dup()),
            ),
            TypeDescriptor::Reference(m, inner) => TypeDescriptor::Reference(
                *m,
                Box::new((&**inner).dup()),
            ),
            TypeDescriptor::Writeable => TypeDescriptor::Writeable,
            TypeDescriptor::Ordering => TypeDescriptor::Ordering,
        }
    }
}

/// A copy of an optional name, equal to the original.
pub fn dup_opt_name(o: &Option<String>) -> (r: Option<String>)
    ensures
        r == *o,
{
    match o {
        Some(s) => Some(s.clone()),
        None => None,
    }
}

impl FnInputs {
    /// A deep copy, equal to the original.
    pub fn dup(&self) -> (r: FnInputs)
        ensures
            r == *self,
        decreases *self,
    {
        match self {
            FnInputs::Nil => FnInputs::Nil,
            FnInputs::Cons(head, tail) => FnInputs::Cons(
                FnInput { name: dup_opt_name(&head.name), ty: head.ty.dup() },
                Box::new((&**tail).dup()),
            ),
        }
    }

    /// The inputs as a sequence, head first.
    pub open spec fn to_seq(self) -> Seq<FnInput>
        decreases self,
    {
        match self {
            FnInputs::Nil => Seq::empty(),
            FnInputs::Cons(head, tail) => seq![head] + tail.to_seq(),
        }
    }
}

/// The types this backend can declare: primitives, declared types,
/// slices, and callbacks whose output is a single plain value. Anything
/// else never reaches this stage — the front end flattens options and
/// results into the return descriptor first.
pub open spec fn c_ty_ok(ty: TypeDescriptor, n: int) -> bool
    decreases ty,
{
    match ty {
        TypeDescriptor::Primitive(_) => true,
        TypeDescriptor::Opaque(id, _) => id < n,
        TypeDescriptor::Struct(id) => id < n,
        TypeDescriptor::Enum(id) => id < n,
        TypeDescriptor::Slice(_, _, _) => true,
        TypeDescriptor::Function(inputs, out) => {
            &&& c_inputs_ok(*inputs, n)
            &&& (*out matches TypeDescriptor::Unit || (c_ty_ok(*out, n) && spec_decl_width(*out)
                == 1))
        },
        _ => false,
    }
}

pub open spec fn c_inputs_ok(inputs: FnInputs, n: int) -> bool
    decreases inputs,
{
    match inputs {
        FnInputs::Nil => true,
        FnInputs::Cons(head, tail) => c_ty_ok(head.ty, n) && c_inputs_ok(*tail, n),
    }
}

/// How many `(type, name)` pairs a declaration expands to in parameter
/// position.
pub open spec fn spec_decl_width(ty: TypeDescriptor) -> int {
    match ty {
        TypeDescriptor::Slice(_, _, _) => 2,
        TypeDescriptor::Function(_, _) => 2,
        _ => 1,
    }
}

/// The success slot's carried type, when it carries one.
pub open spec fn spec_out_ty(s: SuccessKind) -> Option<TypeDescriptor> {
    match s {
        SuccessKind::OutType(o) => Some(o),
        _ => None,
    }
}

/// The `(ok, err)` pair a fallible or nullable return goes through the
/// wrapper registry with; an infallible return goes through none.
pub open spec fn spec_ret_pair(r: ReturnDescriptor) -> Option<
    (Option<TypeDescriptor>, Option<TypeDescriptor>),
> {
    match r {
        ReturnDescriptor::Infallible(_) => None,
        ReturnDescriptor::Fallible(s, e) => Some((spec_out_ty(s), e)),
        ReturnDescriptor::Nullable(s) => Some((spec_out_ty(s), None)),
    }
}

/// Whether the return rewrites its text output into the implicit
/// trailing out-buffer parameter.
pub open spec fn spec_has_writeable(r: ReturnDescriptor) -> bool {
    match r {
        ReturnDescriptor::Infallible(s) => s is Writeable,
        ReturnDescriptor::Fallible(s, _) => s is Writeable,
        ReturnDescriptor::Nullable(s) => s is Writeable,
    }
}

pub open spec fn c_success_ok(s: SuccessKind, n: int) -> bool {
    s matches SuccessKind::OutType(o) ==> c_ty_ok(o, n)
}

pub open spec fn c_return_ok(r: ReturnDescriptor, n: int) -> bool {
    match r {
        ReturnDescriptor::Infallible(s) => c_success_ok(s, n),
        ReturnDescriptor::Fallible(s, e) => {
            &&& c_success_ok(s, n)
            &&& (e matches Some(t) ==> c_ty_ok(t, n))
        },
        ReturnDescriptor::Nullable(s) => c_success_ok(s, n),
    }
}

pub open spec fn c_method_ok(mth: MethodDescriptor, n: int) -> bool {
    &&& (mth.self_param matches Some(t) ==> c_ty_ok(t, n))
    &&& forall|i: int| 0 <= i < mth.params@.len() ==> c_ty_ok(
        (#[trigger] mth.params@[i]).ty,
        n,
    )
    &&& c_return_ok(mth.output, n)
}

pub open spec fn c_def_ok(d: TypeDef, n: int) -> bool {
    &&& (d.kind matches TypeDefKind::Struct(fields) ==> forall|i: int|
        0 <= i < fields@.len() ==> c_ty_ok((#[trigger] fields@[i]).ty, n))
    &&& (d.kind matches TypeDefKind::OutStruct(fields) ==> forall|i: int|
        0 <= i < fields@.len() ==> c_ty_ok((#[trigger] fields@[i]).ty, n))
    &&& forall|i: int| 0 <= i < d.methods@.len() ==> c_method_ok(#[trigger] d.methods@[i], n)
}

/// The whole model is renderable by the declaration backend.
pub open spec fn c_model_ok(m: TypeModel) -> bool {
    forall|i: int| 0 <= i < m.types@.len() ==> c_def_ok(
        #[trigger] m.types@[i],
        m.types@.len() as int,
    )
}

/// Renderable types resolve all their cross references.
pub proof fn lemma_c_ty_ok_refs(ty: TypeDescriptor, n: int)
    requires
        c_ty_ok(ty, n),
    ensures
        ty_refs_ok(ty, n),
    decreases ty, 1int,
{
    match ty {
        TypeDescriptor::Function(inputs, out) => {
            lemma_c_inputs_ok_refs(*inputs, n);
            match *out {
                TypeDescriptor::Unit => {
                    assert(ty_refs_ok(*out, n));
                },
                _ => {
                    lemma_c_ty_ok_refs(*out, n);
                },
            }
            assert(fn_inputs_refs_ok(*inputs, n));
        },
        _ => {
            assert(ty_refs_ok(ty, n));
        },
    }
}

pub proof fn lemma_c_inputs_ok_refs(inputs: FnInputs, n: int)
    requires
        c_inputs_ok(inputs, n),
    ensures
        fn_inputs_refs_ok(inputs, n),
    decreases inputs, 2int,
{
    match inputs {
        FnInputs::Cons(head, tail) => {
            lemma_c_ty_ok_refs(head.ty, n);
            lemma_c_inputs_ok_refs(*tail, n);
        },
        FnInputs::Nil => {},
    }
}

/// Every cross reference inside `ty` points below `n`.
pub open spec fn ty_refs_ok(ty: TypeDescriptor, n: int) -> bool
    decreases ty,
{
    match ty {
        TypeDescriptor::Unit => true,
        TypeDescriptor::Primitive(_) => true,
        TypeDescriptor::Opaque(id, _) => id < n,
        TypeDescriptor::Struct(id) => id < n,
        TypeDescriptor::Enum(id) => id < n,
        TypeDescriptor::Slice(_, _, _) => true,
        TypeDescriptor::OptionOf(inner) => ty_refs_ok(*inner, n),
        TypeDescriptor::ResultOf(ok, err, _) => {
            &&& (ok matches Some(o) ==> ty_refs_ok(*o, n))
            &&& (err matches Some(e) ==> ty_refs_ok(*e, n))
        },
        TypeDescriptor::Function(inputs, out) => {
            &&& fn_inputs_refs_ok(*inputs, n)
            &&& ty_refs_ok(*out, n)
        },
        TypeDescriptor::Reference(_, inner) => ty_refs_ok(*inner, n),
        TypeDescriptor::Writeable => true,
        TypeDescriptor::Ordering => true,
    }
}

pub open spec fn fn_inputs_refs_ok(inputs: FnInputs, n: int) -> bool
    decreases inputs,
{
    match inputs {
        FnInputs::Nil => true,
        FnInputs::Cons(head, tail) => ty_refs_ok(head.ty, n) && fn_inputs_refs_ok(*tail, n),
    }
}

impl TypeModel {
    /// Look a declared type up by its index.
    pub fn resolve_type(&self, id: usize) -> (r: &TypeDef)
        requires
            id < self.types@.len(),
        ensures
            *r == self.types@[id as int],
    {
        &self.types[id]
    }
}

} // verus!
