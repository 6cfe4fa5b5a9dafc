//! The producer-side generator on small example modules: slice and
//! string parameters, enums, fallible returns, borrows and
//! conditional-compilation attributes.

use diplomat_tool::bridge::{gen_bridge, gen_custom_type_method, BridgeItem, BridgeItemKind};
use diplomat_tool::cgen::CContext;
use diplomat_tool::headers::FileMap;
use diplomat_tool::model::{
    EnumVariant, FnInputs, MethodDescriptor, Mutability, Ownership, ParamDescriptor, PrimKind,
    ReturnDescriptor, SliceElem, SuccessKind, TypeDef, TypeDefKind, TypeDescriptor, TypeModel,
};

fn method(
    name: &str,
    full: &str,
    self_param: Option<TypeDescriptor>,
    params: Vec<ParamDescriptor>,
    output: ReturnDescriptor,
) -> MethodDescriptor {
    MethodDescriptor {
        name: name.to_string(),
        full_path_name: full.to_string(),
        self_param,
        params,
        output,
        disabled: false,
        cfgs: Vec::new(),
    }
}

fn one_type_model(kind: TypeDefKind, name: &str, methods: Vec<MethodDescriptor>) -> TypeModel {
    TypeModel {
        types: vec![TypeDef {
            name: name.to_string(),
            kind,
            methods,
            disabled: false,
            cfgs: Vec::new(),
            has_repr: false,
        }],
    }
}

fn param(name: &str, ty: TypeDescriptor) -> ParamDescriptor {
    ParamDescriptor { name: name.to_string(), ty }
}

#[test]
fn method_taking_str() {
    let m = one_type_model(
        TypeDefKind::Struct(Vec::new()),
        "Foo",
        vec![method(
            "from_str",
            "Foo_from_str",
            None,
            vec![param("s", TypeDescriptor::Slice(
                Ownership::Borrowed(Mutability::Immutable),
                SliceElem::Utf8,
                false,
            ))],
            ReturnDescriptor::Infallible(SuccessKind::Unit),
        )],
    );
    let shim = gen_custom_type_method(&m, "Foo", &m.types[0].methods[0]);
    assert!(shim.contains("s_diplomat_data: *const u8, s_diplomat_len: usize"));
}

#[test]
fn method_taking_slice() {
    let m = one_type_model(
        TypeDefKind::Struct(Vec::new()),
        "Foo",
        vec![method(
            "from_slice",
            "Foo_from_slice",
            None,
            vec![param("s", TypeDescriptor::Slice(
                Ownership::Borrowed(Mutability::Immutable),
                SliceElem::Primitive(PrimKind::F64),
                false,
            ))],
            ReturnDescriptor::Infallible(SuccessKind::Unit),
        )],
    );
    let shim = gen_custom_type_method(&m, "Foo", &m.types[0].methods[0]);
    assert!(shim.contains("s_diplomat_data: *const f64, s_diplomat_len: usize"));
}

#[test]
fn method_taking_mutable_slice() {
    let m = one_type_model(
        TypeDefKind::Struct(Vec::new()),
        "Foo",
        vec![method(
            "fill_slice",
            "Foo_fill_slice",
            None,
            vec![param("s", TypeDescriptor::Slice(
                Ownership::Borrowed(Mutability::Mutable),
                SliceElem::Primitive(PrimKind::F64),
                false,
            ))],
            ReturnDescriptor::Infallible(SuccessKind::Unit),
        )],
    );
    let shim = gen_custom_type_method(&m, "Foo", &m.types[0].methods[0]);
    assert!(shim.contains("s_diplomat_data: *mut f64, s_diplomat_len: usize"));
}

#[test]
fn method_taking_owned_slice() {
    let m = one_type_model(
        TypeDefKind::Struct(Vec::new()),
        "Foo",
        vec![method(
            "fill_slice",
            "Foo_fill_slice",
            None,
            vec![param("s", TypeDescriptor::Slice(
                Ownership::Owned,
                SliceElem::Primitive(PrimKind::U16),
                false,
            ))],
            ReturnDescriptor::Infallible(SuccessKind::Unit),
        )],
    );
    let shim = gen_custom_type_method(&m, "Foo", &m.types[0].methods[0]);
    assert!(shim.contains("s_diplomat_data: *mut u16, s_diplomat_len: usize"));
}

#[test]
fn method_taking_owned_str() {
    let m = one_type_model(
        TypeDefKind::Struct(Vec::new()),
        "Foo",
        vec![method(
            "something_with_str",
            "Foo_something_with_str",
            None,
            vec![param("s", TypeDescriptor::Slice(Ownership::Owned, SliceElem::Utf8, true))],
            ReturnDescriptor::Infallible(SuccessKind::Unit),
        )],
    );
    let shim = gen_custom_type_method(&m, "Foo", &m.types[0].methods[0]);
    // owned text comes in through a mutable pointer and is taken over whole
    assert!(shim.contains("s_diplomat_data: *mut u8, s_diplomat_len: usize"));
    assert!(shim.contains("boxed_str_from_raw"));
}

#[test]
fn mod_with_enum() {
    let m = one_type_model(
        TypeDefKind::Enum(vec![
            EnumVariant { name: "A".to_string(), discriminant: 0 },
            EnumVariant { name: "B".to_string(), discriminant: 123 },
        ]),
        "Abc",
        vec![method(
            "do_something",
            "Abc_do_something",
            Some(TypeDescriptor::Reference(
                Mutability::Immutable,
                Box::new(TypeDescriptor::Enum(0)),
            )),
            Vec::new(),
            ReturnDescriptor::Infallible(SuccessKind::Unit),
        )],
    );
    let mut cx = CContext::new(FileMap::new());
    cx.run(&m, None);
    let decl = cx.files.get_file("Abc.d.h").expect("declaration header");
    assert!(decl.contains("Abc_B = 123,"));
    // the producer side re-emits the enum pinned and copyable, with the
    // explicit discriminants
    let items = gen_bridge(&m, None);
    let td = items
        .iter()
        .find(|it| matches!(it.kind, BridgeItemKind::TypeDecl(0)))
        .expect("emitted definition");
    assert_eq!(
        td.text,
        "#[repr(C)]\n#[derive(Clone, Copy)]\npub enum Abc {\n  A = 0,\n  B = 123,\n}\n\n"
    );
}

#[test]
fn mod_with_writeable_result() {
    let m = one_type_model(
        TypeDefKind::Struct(Vec::new()),
        "Foo",
        vec![method(
            "to_string",
            "Foo_to_string",
            Some(TypeDescriptor::Reference(
                Mutability::Immutable,
                Box::new(TypeDescriptor::Struct(0)),
            )),
            vec![param("to", TypeDescriptor::Writeable)],
            ReturnDescriptor::Fallible(SuccessKind::Unit, None),
        )],
    );
    let shim = gen_custom_type_method(&m, "Foo", &m.types[0].methods[0]);
    assert!(shim.contains("let ret = this.to_string(to);\n    to.flush();\n    ret.into()"));
}

#[test]
fn mod_with_rust_result() {
    let m = one_type_model(
        TypeDefKind::Struct(Vec::new()),
        "Foo",
        vec![method(
            "bar",
            "Foo_bar",
            Some(TypeDescriptor::Reference(
                Mutability::Immutable,
                Box::new(TypeDescriptor::Struct(0)),
            )),
            Vec::new(),
            ReturnDescriptor::Fallible(SuccessKind::Unit, None),
        )],
    );
    let shim = gen_custom_type_method(&m, "Foo", &m.types[0].methods[0]);
    assert!(shim.contains("-> DiplomatResult<(), ()>"));
}

#[test]
fn multilevel_borrows() {
    let foo_methods = vec![
        method(
            "new",
            "Foo_new",
            None,
            vec![param("x", TypeDescriptor::Slice(
                Ownership::Borrowed(Mutability::Immutable),
                SliceElem::Utf8,
                true,
            ))],
            ReturnDescriptor::Infallible(SuccessKind::OutType(TypeDescriptor::Opaque(
                0,
                Ownership::Owned,
            ))),
        ),
        method(
            "get_bar",
            "Foo_get_bar",
            Some(TypeDescriptor::Opaque(0, Ownership::Borrowed(Mutability::Immutable))),
            Vec::new(),
            ReturnDescriptor::Infallible(SuccessKind::OutType(TypeDescriptor::Opaque(
                1,
                Ownership::Owned,
            ))),
        ),
    ];
    let m = TypeModel {
        types: vec![
            TypeDef {
                name: "Foo".to_string(),
                kind: TypeDefKind::Opaque,
                methods: foo_methods,
                disabled: false,
                cfgs: Vec::new(),
                has_repr: false,
            },
            TypeDef {
                name: "Bar".to_string(),
                kind: TypeDefKind::Opaque,
                methods: Vec::new(),
                disabled: false,
                cfgs: Vec::new(),
                has_repr: false,
            },
        ],
    };
    let items = gen_bridge(&m, None);
    let dtor_count: Vec<&BridgeItem> = items
        .iter()
        .filter(|it| matches!(it.kind, BridgeItemKind::Dtor(_)))
        .collect();
    assert_eq!(dtor_count.len(), 2);
}

#[test]
fn self_params() {
    let m = one_type_model(
        TypeDefKind::Opaque,
        "RefList",
        vec![method(
            "extend",
            "RefList_extend",
            Some(TypeDescriptor::Opaque(0, Ownership::Borrowed(Mutability::Mutable))),
            vec![param("other", TypeDescriptor::Opaque(
                0,
                Ownership::Borrowed(Mutability::Immutable),
            ))],
            ReturnDescriptor::Infallible(SuccessKind::OutType(TypeDescriptor::Struct(0))),
        )],
    );
    let shim = gen_custom_type_method(&m, "RefList", &m.types[0].methods[0]);
    assert!(shim.contains("(this: &mut RefList, other: &RefList)"));
}

#[test]
fn cfged_method() {
    let mut mth = method(
        "bar",
        "Foo_bar",
        None,
        vec![param("s", TypeDescriptor::Primitive(PrimKind::U8))],
        ReturnDescriptor::Infallible(SuccessKind::Unit),
    );
    mth.cfgs = vec!["cfg(feature = \"foo\")".to_string()];
    let m = one_type_model(TypeDefKind::Struct(Vec::new()), "Foo", vec![mth]);
    let shim = gen_custom_type_method(&m, "Foo", &m.types[0].methods[0]);
    assert!(shim.starts_with("#[cfg(feature = \"foo\")]\n"));

    let mut mth2 = method(
        "bar",
        "Foo_bar",
        None,
        vec![param("s", TypeDescriptor::Primitive(PrimKind::U8))],
        ReturnDescriptor::Infallible(SuccessKind::Unit),
    );
    mth2.cfgs = vec![
        "cfg(feature = \"bar\")".to_string(),
        "cfg(feature = \"foo\")".to_string(),
    ];
    let m2 = one_type_model(TypeDefKind::Struct(Vec::new()), "Foo", vec![mth2]);
    let shim2 = gen_custom_type_method(&m2, "Foo", &m2.types[0].methods[0]);
    assert!(shim2.contains("#[cfg(feature = \"bar\")]\n#[cfg(feature = \"foo\")]\n"));
}

#[test]
fn cfgd_struct() {
    let mut mth = method(
        "bar",
        "Foo_bar",
        None,
        vec![param("s", TypeDescriptor::Primitive(PrimKind::U8))],
        ReturnDescriptor::Infallible(SuccessKind::Unit),
    );
    mth.cfgs = vec!["cfg(feature = \"foo\")".to_string()];
    let mut ty = TypeDef {
        name: "Foo".to_string(),
        kind: TypeDefKind::Opaque,
        methods: vec![mth],
        disabled: false,
        cfgs: Vec::new(),
        has_repr: false,
    };
    ty.cfgs = vec!["cfg(feature = \"foo\")".to_string()];
    let m = TypeModel { types: vec![ty] };
    let items = gen_bridge(&m, None);
    let shims: Vec<&BridgeItem> = items
        .iter()
        .filter(|it| matches!(it.kind, BridgeItemKind::MethodShim(_, _)))
        .collect();
    assert!(shims[0].text.contains("foo"));
    // the destructor carries the type's conditional-compilation
    // attributes, so a compiled-out type leaves no dangling symbol
    let dtor = items
        .iter()
        .find(|it| matches!(it.kind, BridgeItemKind::Dtor(0)))
        .expect("destructor item");
    assert_eq!(
        dtor.text,
        "#[cfg(feature = \"foo\")]\nCAbi fn Foo_destroy(this: Box<Foo>) {}\n\n"
    );
}

#[test]
fn callback_trampoline_shape() {
    // a callback parameter becomes a raw pair, and the trampoline calls
    // the raw pointer once, context first, with a string argument
    // decomposed exactly as a direct boundary call would pass it
    let cb_ty = TypeDescriptor::Function(
        Box::new(FnInputs::Cons(
            diplomat_tool::model::FnInput {
                name: Some("msg".to_string()),
                ty: TypeDescriptor::Slice(
                    Ownership::Borrowed(Mutability::Immutable),
                    SliceElem::Utf8,
                    false,
                ),
            },
            Box::new(FnInputs::Nil),
        )),
        Box::new(TypeDescriptor::Unit),
    );
    let m = one_type_model(
        TypeDefKind::Struct(Vec::new()),
        "Foo",
        vec![method(
            "on_event",
            "Foo_on_event",
            None,
            vec![param("handler", cb_ty)],
            ReturnDescriptor::Infallible(SuccessKind::Unit),
        )],
    );
    let shim = gen_custom_type_method(&m, "Foo", &m.types[0].methods[0]);
    assert!(shim.contains("handler: CAbi fn(*mut c_void, *const u8, usize), _ctx: *mut c_void"));
    assert!(shim.contains("move |msg| handler(_ctx, msg.as_ptr(), msg.len())"));
}

#[test]
fn nullable_opaque_returns_bare_pointer_option() {
    // an optional pointer-representable value needs no wrapper type
    let m = one_type_model(
        TypeDefKind::Opaque,
        "Foo",
        vec![method(
            "maybe",
            "Foo_maybe",
            None,
            Vec::new(),
            ReturnDescriptor::Nullable(SuccessKind::OutType(TypeDescriptor::Opaque(
                0,
                Ownership::Owned,
            ))),
        )],
    );
    let shim = gen_custom_type_method(&m, "Foo", &m.types[0].methods[0]);
    assert!(shim.contains("-> Option<Box<Foo>>"));
    assert!(!shim.contains("ok_or"));
}

#[test]
fn nullable_value_goes_through_the_wrapper() {
    let m = one_type_model(
        TypeDefKind::Struct(Vec::new()),
        "Foo",
        vec![method(
            "maybe_code",
            "Foo_maybe_code",
            None,
            Vec::new(),
            ReturnDescriptor::Nullable(SuccessKind::OutType(TypeDescriptor::Primitive(
                PrimKind::U32,
            ))),
        )],
    );
    let shim = gen_custom_type_method(&m, "Foo", &m.types[0].methods[0]);
    assert!(shim.contains("-> DiplomatResult<u32, ()>"));
    assert!(shim.contains(".ok_or(()).into()"));
}

#[test]
fn emitted_struct_definitions_follow_the_decorations() {
    fn pair_model(out_struct: bool, has_repr: bool) -> TypeModel {
        let fields = vec![diplomat_tool::model::FieldDescriptor {
            name: "x".to_string(),
            ty: TypeDescriptor::Primitive(PrimKind::U8),
        }];
        TypeModel {
            types: vec![TypeDef {
                name: "Pair".to_string(),
                kind: if out_struct {
                    TypeDefKind::OutStruct(fields)
                } else {
                    TypeDefKind::Struct(fields)
                },
                methods: Vec::new(),
                disabled: false,
                cfgs: Vec::new(),
                has_repr,
            }],
        }
    }
    fn decl_text(m: &TypeModel) -> String {
        let items = gen_bridge(m, None);
        items
            .iter()
            .find(|it| matches!(it.kind, BridgeItemKind::TypeDecl(0)))
            .expect("emitted definition")
            .text
            .clone()
    }

    assert_eq!(
        decl_text(&pair_model(false, false)),
        "#[repr(C)]\n#[derive(Clone, Copy)]\npub struct Pair {\n  pub x: u8,\n}\n\n"
    );
    // an explicit layout attribute suppresses the second one
    assert_eq!(
        decl_text(&pair_model(false, true)),
        "#[derive(Clone, Copy)]\npub struct Pair {\n  pub x: u8,\n}\n\n"
    );
    // an out-only struct is never copied by the foreign side
    assert_eq!(
        decl_text(&pair_model(true, false)),
        "#[repr(C)]\npub struct Pair {\n  pub x: u8,\n}\n\n"
    );

    // opaque definitions pass through the host unmodified: no item
    let opaque = one_type_model(TypeDefKind::Opaque, "Pair", Vec::new());
    let items = gen_bridge(&opaque, None);
    assert!(!items.iter().any(|it| matches!(it.kind, BridgeItemKind::TypeDecl(_))));
}

#[test]
fn ordering_return_narrows_to_signed_byte() {
    let m = one_type_model(
        TypeDefKind::Opaque,
        "Foo",
        vec![method(
            "cmp_to",
            "Foo_cmp_to",
            Some(TypeDescriptor::Opaque(0, Ownership::Borrowed(Mutability::Immutable))),
            vec![param("other", TypeDescriptor::Opaque(
                0,
                Ownership::Borrowed(Mutability::Immutable),
            ))],
            ReturnDescriptor::Infallible(SuccessKind::OutType(TypeDescriptor::Ordering)),
        )],
    );
    let shim = gen_custom_type_method(&m, "Foo", &m.types[0].methods[0]);
    assert!(shim.contains("-> i8 {"));
    assert!(shim.contains("this.cmp_to(other) as i8"));
}
