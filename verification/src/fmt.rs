//! Deterministic name derivation for the consumer-side C declarations.
//!
//! Every name here is a pure function of the model, so repeated runs over
//! unchanged input produce byte-identical output, and the producer-side
//! shims and the consumer-side declarations agree on every symbol.

use vstd::prelude::*;
use crate::model::{Mutability, PrimKind, TypeDescriptor, TypeModel};

verus! {

pub open spec fn spec_prim_c(p: PrimKind) -> Seq<char> {
    match p {
        PrimKind::Bool => "bool"@,
        PrimKind::Char => "char32_t"@,
        PrimKind::U8 => "uint8_t"@,
        PrimKind::I8 => "int8_t"@,
        PrimKind::U16 => "uint16_t"@,
        PrimKind::I16 => "int16_t"@,
        PrimKind::U32 => "uint32_t"@,
        PrimKind::I32 => "int32_t"@,
        PrimKind::U64 => "uint64_t"@,
        PrimKind::I64 => "int64_t"@,
        PrimKind::Usize => "size_t"@,
        PrimKind::Isize => "intptr_t"@,
        PrimKind::F32 => "float"@,
        PrimKind::F64 => "double"@,
    }
}

/// The C spelling of a primitive kind.
pub fn fmt_primitive_as_c(p: PrimKind) -> (r: &'static str)
    ensures
        r@ == spec_prim_c(p),
{
    match p {
        PrimKind::Bool => "bool",
        PrimKind::Char => "char32_t",
        PrimKind::U8 => "uint8_t",
        PrimKind::I8 => "int8_t",
        PrimKind::U16 => "uint16_t",
        PrimKind::I16 => "int16_t",
        PrimKind::U32 => "uint32_t",
        PrimKind::I32 => "int32_t",
        PrimKind::U64 => "uint64_t",
        PrimKind::I64 => "int64_t",
        PrimKind::Usize => "size_t",
        PrimKind::Isize => "intptr_t",
        PrimKind::F32 => "float",
        PrimKind::F64 => "double",
    }
}

pub open spec fn spec_ptr(base: Seq<char>, m: Mutability) -> Seq<char> {
    match m {
        Mutability::Mutable => base + "*"@,
        Mutability::Immutable => "const "@ + base + "*"@,
    }
}

/// A pointer type to `base`; immutable pointers are const-qualified.
pub fn fmt_ptr(base: &str, m: Mutability) -> (r: String)
    ensures
        r@ == spec_ptr(base@, m),
{
    match m {
        Mutability::Mutable => {
            let mut s = base.to_owned();
            s.append("*");
            s
        },
        Mutability::Immutable => {
            let mut s = "const ".to_owned();
            s.append(base);
            s.append("*");
            s
        },
    }
}

/// Parameter names pass through unchanged; the derivation point exists so
/// every renderer goes through one place.
pub fn fmt_param_name(name: &str) -> (r: String)
    ensures
        r@ == name@,
{
    name.to_owned()
}

pub open spec fn spec_enum_variant(ty_name: Seq<char>, variant: Seq<char>) -> Seq<char> {
    ty_name + "_"@ + variant
}

/// The C name of one enum variant, prefixed by its type's name.
pub fn fmt_enum_variant(ty_name: &str, variant: &str) -> (r: String)
    ensures
        r@ == spec_enum_variant(ty_name@, variant@),
{
    let mut s = ty_name.to_owned();
    s.append("_");
    s.append(variant);
    s
}

pub open spec fn spec_dtor_name(ty_name: Seq<char>) -> Seq<char> {
    ty_name + "_destroy"@
}

/// The destructor symbol derived from the type's name.
pub fn fmt_dtor_name(ty_name: &str) -> (r: String)
    ensures
        r@ == spec_dtor_name(ty_name@),
{
    let mut s = ty_name.to_owned();
    s.append("_destroy");
    s
}

pub open spec fn spec_decl_header_path(ty_name: Seq<char>) -> Seq<char> {
    ty_name + ".d.h"@
}

/// The header file that declares a type.
pub fn fmt_decl_header_path(ty_name: &str) -> (r: String)
    ensures
        r@ == spec_decl_header_path(ty_name@),
{
    let mut s = ty_name.to_owned();
    s.append(".d.h");
    s
}

pub open spec fn spec_impl_header_path(ty_name: Seq<char>) -> Seq<char> {
    ty_name + ".h"@
}

/// The header file that declares a type's methods.
pub fn fmt_impl_header_path(ty_name: &str) -> (r: String)
    ensures
        r@ == spec_impl_header_path(ty_name@),
{
    let mut s = ty_name.to_owned();
    s.append(".h");
    s
}

pub open spec fn spec_result_name(ok_name: Seq<char>, err_name: Seq<char>) -> Seq<char> {
    "diplomat_result_"@ + ok_name + "_"@ + err_name
}

/// The canonical wrapper-type name for an `(ok, err)` pair, derived from
/// the two display names alone: the same pair always files under the same
/// name, whatever order wrappers are discovered in.
pub fn fmt_result_name(ok_name: &str, err_name: &str) -> (r: String)
    ensures
        r@ == spec_result_name(ok_name@, err_name@),
{
    let mut s = "diplomat_result_".to_owned();
    s.append(ok_name);
    s.append("_");
    s.append(err_name);
    s
}

pub open spec fn spec_result_header_path(result_name: Seq<char>) -> Seq<char> {
    result_name + ".d.h"@
}

/// The header file that declares a result wrapper type.
pub fn fmt_result_header_path(result_name: &str) -> (r: String)
    ensures
        r@ == spec_result_header_path(result_name@),
{
    let mut s = result_name.to_owned();
    s.append(".d.h");
    s
}

/// The display name a type contributes to a wrapper-type name.
pub open spec fn spec_unique_name(m: TypeModel, ty: TypeDescriptor) -> Seq<char>
    decreases ty,
{
    match ty {
        TypeDescriptor::Unit => "void"@,
        TypeDescriptor::Primitive(p) => spec_prim_c(p),
        TypeDescriptor::Opaque(id, _) => if id < m.types@.len() {
            m.types@[id as int].name@
        } else {
            Seq::empty()
        },
        TypeDescriptor::Struct(id) => if id < m.types@.len() {
            m.types@[id as int].name@
        } else {
            Seq::empty()
        },
        TypeDescriptor::Enum(id) => if id < m.types@.len() {
            m.types@[id as int].name@
        } else {
            Seq::empty()
        },
        TypeDescriptor::Reference(_, inner) => spec_unique_name(m, *inner),
        TypeDescriptor::OptionOf(inner) => spec_unique_name(m, *inner),
        _ => "slice"@,
    }
}

/// The display name a type contributes to a wrapper-type name: primitives
/// by their C spelling, declared types by their declared name, references
/// and options transparently by what they wrap.
pub fn fmt_type_name_uniquely(m: &TypeModel, ty: &TypeDescriptor) -> (r: String)
    requires
        crate::model::ty_refs_ok(*ty, m.types@.len() as int),
    ensures
        r@ == spec_unique_name(*m, *ty),
    decreases *ty,
{
    match ty {
        TypeDescriptor::Unit => "void".to_owned(),
        TypeDescriptor::Primitive(p) => fmt_primitive_as_c(*p).to_owned(),
        TypeDescriptor::Opaque(id, _) => m.types[*id].name.clone(),
        TypeDescriptor::Struct(id) => m.types[*id].name.clone(),
        TypeDescriptor::Enum(id) => m.types[*id].name.clone(),
        TypeDescriptor::Reference(_, inner) => fmt_type_name_uniquely(m, inner),
        TypeDescriptor::OptionOf(inner) => fmt_type_name_uniquely(m, inner),
        _ => "slice".to_owned(),
    }
}

pub open spec fn spec_function_as_c(
    name: Seq<char>,
    out_name: Seq<char>,
    input_tys: Seq<Seq<char>>,
) -> Seq<char> {
    out_name + " (*"@ + name + ")("@ + crate::text::spec_join(input_tys, ", "@) + ")"@
}

/// A C function-pointer declarator: `ret (*name)(inputs)`.
pub fn fmt_function_as_c(name: &str, out_name: &str, input_tys: &Vec<String>) -> (r: String)
    ensures
        r@ == spec_function_as_c(name@, out_name@, input_tys@.map_values(|p: String| p@)),
{
    let mut s = out_name.to_owned();
    s.append(" (*");
    s.append(name);
    s.append(")(");
    let joined = crate::text::join_strings(input_tys, ", ");
    s.append(joined.as_str());
    s.append(")");
    s
}

} // verus!
