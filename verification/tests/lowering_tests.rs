//! Boundary lowering on concrete descriptors: slice and string
//! parameters expand to exactly the `(data, len)` pair, in that order.

use diplomat_tool::lowering::{gen_params_at_boundary, AbiParam, LoweredTy};
use diplomat_tool::marshal::gen_custom_type_all_params;
use diplomat_tool::model::{
    MethodDescriptor, Mutability, Ownership, ParamDescriptor, PrimKind, ReturnDescriptor,
    SliceElem, SuccessKind, TypeDescriptor,
};

#[test]
fn borrowed_string_lowers_to_pointer_then_length() {
    let ty = TypeDescriptor::Slice(
        Ownership::Borrowed(Mutability::Immutable),
        SliceElem::Utf8,
        false,
    );
    let mut out: Vec<AbiParam> = Vec::new();
    gen_params_at_boundary(&ty, "s", &mut out);
    assert_eq!(out.len(), 2);
    assert_eq!(out[0].name, "s_diplomat_data");
    assert!(matches!(out[0].lowered, LoweredTy::DataPtr(Mutability::Immutable, SliceElem::Utf8)));
    assert_eq!(out[1].name, "s_diplomat_len");
    assert!(matches!(out[1].lowered, LoweredTy::SliceLen));
}

#[test]
fn owned_slice_data_pointer_is_mutable() {
    let ty = TypeDescriptor::Slice(Ownership::Owned, SliceElem::Primitive(PrimKind::U16), false);
    let mut out: Vec<AbiParam> = Vec::new();
    gen_params_at_boundary(&ty, "s", &mut out);
    assert_eq!(out.len(), 2);
    assert!(matches!(
        out[0].lowered,
        LoweredTy::DataPtr(Mutability::Mutable, SliceElem::Primitive(PrimKind::U16))
    ));
}

#[test]
fn non_slice_parameter_passes_through_alone() {
    let ty = TypeDescriptor::Primitive(PrimKind::I32);
    let mut out: Vec<AbiParam> = Vec::new();
    gen_params_at_boundary(&ty, "x", &mut out);
    assert_eq!(out.len(), 1);
    assert_eq!(out[0].name, "x");
    assert!(matches!(out[0].lowered, LoweredTy::Direct(TypeDescriptor::Primitive(PrimKind::I32))));
}

#[test]
fn method_with_string_and_int_keeps_order() {
    // a method (s: &str-like, n: u32) lowers to s_data, s_len, n
    let m = MethodDescriptor {
        name: "go".to_string(),
        full_path_name: "T_go".to_string(),
        self_param: None,
        params: vec![
            ParamDescriptor {
                name: "s".to_string(),
                ty: TypeDescriptor::Slice(
                    Ownership::Borrowed(Mutability::Immutable),
                    SliceElem::Utf8,
                    false,
                ),
            },
            ParamDescriptor { name: "n".to_string(), ty: TypeDescriptor::Primitive(PrimKind::U32) },
        ],
        output: ReturnDescriptor::Infallible(SuccessKind::Unit),
        disabled: false,
        cfgs: Vec::new(),
    };
    let all = gen_custom_type_all_params(&m);
    assert_eq!(all.len(), 3);
    assert_eq!(all[0].name, "s_diplomat_data");
    assert_eq!(all[1].name, "s_diplomat_len");
    assert_eq!(all[2].name, "n");
}
