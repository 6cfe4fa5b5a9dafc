//! The declaration backend end to end: headers for each type, wrapper
//! definition files shaped as a discriminant plus a union of the
//! present sides, and the aggregate API header.

use diplomat_tool::cgen::{render_api, CContext};
use diplomat_tool::headers::FileMap;
use diplomat_tool::model::{
    ApiInfo, MethodDescriptor, Mutability, Ownership, ParamDescriptor, PrimKind,
    ReturnDescriptor, SliceElem, SuccessKind, TypeDef, TypeDefKind, TypeDescriptor, TypeModel,
};

fn fallible_method() -> MethodDescriptor {
    MethodDescriptor {
        name: "try_parse".to_string(),
        full_path_name: "Thing_try_parse".to_string(),
        self_param: None,
        params: vec![ParamDescriptor {
            name: "s".to_string(),
            ty: TypeDescriptor::Slice(
                Ownership::Borrowed(Mutability::Immutable),
                SliceElem::Utf8,
                false,
            ),
        }],
        output: ReturnDescriptor::Fallible(SuccessKind::Unit, Some(TypeDescriptor::Enum(1))),
        disabled: false,
        cfgs: Vec::new(),
    }
}

fn two_type_model() -> TypeModel {
    TypeModel {
        types: vec![
            TypeDef {
                name: "Thing".to_string(),
                kind: TypeDefKind::Opaque,
                methods: vec![fallible_method()],
                disabled: false,
                cfgs: Vec::new(),
                has_repr: false,
            },
            TypeDef {
                name: "ErrorKind".to_string(),
                kind: TypeDefKind::Enum(vec![diplomat_tool::model::EnumVariant {
                    name: "Bad".to_string(),
                    discriminant: 1,
                }]),
                methods: Vec::new(),
                disabled: false,
                cfgs: Vec::new(),
                has_repr: false,
            },
        ],
    }
}

#[test]
fn fallible_method_uses_one_deterministic_wrapper() {
    // a method returning a unit-or-ErrorKind result lowers to a wrapper
    // named from the two display names, defined once
    let m = two_type_model();
    let mut cx = CContext::new(FileMap::new());
    cx.run(&m, None);
    assert_eq!(cx.result_store.entries.len(), 1);
    assert_eq!(cx.result_store.entries[0].name, "diplomat_result_void_ErrorKind");
    let header = cx.files.get_file("Thing.h").expect("method header");
    assert!(header.contains("diplomat_result_void_ErrorKind Thing_try_parse(const char* s_data, size_t s_len);"));
}

#[test]
fn wrapper_definition_is_discriminant_plus_union_of_present_sides() {
    let m = two_type_model();
    let mut cx = CContext::new(FileMap::new());
    cx.run(&m, None);
    let f = cx
        .files
        .get_file("diplomat_result_void_ErrorKind.d.h")
        .expect("wrapper definition file");
    assert!(f.contains("typedef struct diplomat_result_void_ErrorKind {"));
    assert!(f.contains("\tunion {\n\t\tErrorKind err;\n\t};"));
    assert!(f.contains("\tbool is_ok;"));
}

#[test]
fn empty_result_pair_is_discriminant_only() {
    let mut m = two_type_model();
    m.types[0].methods[0].output = ReturnDescriptor::Fallible(SuccessKind::Unit, None);
    let mut cx = CContext::new(FileMap::new());
    cx.run(&m, None);
    let f = cx.files.get_file("diplomat_result_void_void.d.h").expect("wrapper file");
    assert!(!f.contains("union"));
    assert!(f.contains("\tbool is_ok;"));
}

#[test]
fn opaque_type_declares_one_destructor() {
    let m = two_type_model();
    let mut cx = CContext::new(FileMap::new());
    cx.run(&m, None);
    let header = cx.files.get_file("Thing.h").expect("method header");
    let occurrences = header.matches("void Thing_destroy(Thing* self);").count();
    assert_eq!(occurrences, 1);
}

#[test]
fn disabled_type_reference_records_error_but_output_continues() {
    let mut m = two_type_model();
    m.types[1].disabled = true;
    let mut cx = CContext::new(FileMap::new());
    // the method references the disabled enum through its return pair;
    // returning a value of it directly records the finding
    m.types[0].methods[0].output = ReturnDescriptor::Infallible(SuccessKind::OutType(
        TypeDescriptor::Enum(1),
    ));
    cx.run(&m, None);
    assert!(cx.files.get_file("Thing.h").is_some());
    // the reference is rendered twice: once in the declaration pass,
    // once in the API-table pass, and each pass records the finding
    assert_eq!(cx.errors.errors.len(), 2);
    assert!(cx.errors.errors[0].2.contains("disabled type ErrorKind"));
    assert_eq!(cx.errors.errors[0].0, "Thing");
    assert_eq!(cx.errors.errors[0].1, "try_parse");
    assert_eq!(cx.errors.errors[1].0, "Thing");
    assert_eq!(cx.errors.errors[1].1, "");
}

#[test]
fn render_api_lists_core_members_and_entrypoint() {
    let names = vec!["Thing".to_string(), "Other".to_string()];
    let text = render_api("MyApi", "get_my_api", &names);
    assert!(text.contains("struct __Core_API__ {\n  void(*free)(void* ptr);\n};"));
    assert!(text.contains("struct MyApi\n{\n  struct __Core_API__ core;\n"));
    assert!(text.contains("  struct __Thing_API__ Thing;\n  struct __Other_API__ Other;\n"));
    assert!(text.contains("const struct MyApi* get_my_api();"));
}

#[test]
fn api_table_mode_emits_aggregate_header() {
    let m = two_type_model();
    let mut cx = CContext::new(FileMap::new());
    let info = ApiInfo {
        apiname: "MyApi".to_string(),
        refresh_api_fn: "get_my_api".to_string(),
        get_api_fn: "fetch_api".to_string(),
        additional_includes: Vec::new(),
    };
    cx.run(&m, Some(&info));
    let api = cx.files.get_file("api.h").expect("aggregate header");
    // only types with at least one method appear as members
    assert!(api.contains("struct __Thing_API__ Thing;"));
    assert!(!api.contains("__ErrorKind_API__"));
    let header = cx.files.get_file("Thing.h").expect("method header");
    assert!(header.contains("struct __Thing_API__"));
    assert!(header.contains("  diplomat_result_void_ErrorKind (*try_parse)(const char* s_data, size_t s_len);"));
    assert!(header.contains("  void (*Thing_destroy)(Thing* self);"));
}

#[test]
fn struct_fields_never_expand_to_pointer_pairs() {
    let m = TypeModel {
        types: vec![TypeDef {
            name: "Pair".to_string(),
            kind: TypeDefKind::Struct(vec![
                diplomat_tool::model::FieldDescriptor {
                    name: "x".to_string(),
                    ty: TypeDescriptor::Primitive(PrimKind::U8),
                },
                diplomat_tool::model::FieldDescriptor {
                    name: "view".to_string(),
                    ty: TypeDescriptor::Slice(
                        Ownership::Borrowed(Mutability::Immutable),
                        SliceElem::Utf8,
                        false,
                    ),
                },
            ]),
            methods: Vec::new(),
            disabled: false,
            cfgs: Vec::new(),
            has_repr: false,
        }],
    };
    let mut cx = CContext::new(FileMap::new());
    cx.run(&m, None);
    let decl = cx.files.get_file("Pair.d.h").expect("declaration header");
    assert!(decl.contains("\tuint8_t x;"));
    // field position keeps the bundled view form, no `_data`/`_len` pair
    assert!(decl.contains("struct { const char* data; size_t len; } view;"));
    assert!(!decl.contains("view_data"));
}

#[test]
fn standalone_decl_helper_expands_slices() {
    let m = two_type_model();
    let mut cx = CContext::new(FileMap::new());
    let decls = cx.gen_ty_decl(
        &m,
        &TypeDescriptor::Slice(
            Ownership::Borrowed(Mutability::Immutable),
            SliceElem::Utf8,
            false,
        ),
        "name",
    );
    assert_eq!(decls.len(), 2);
    assert_eq!(decls[0], ("const char*".to_string(), "name_data".to_string()));
    assert_eq!(decls[1], ("size_t".to_string(), "name_len".to_string()));
}

#[test]
fn run_always_adds_the_runtime_support_header() {
    let empty = TypeModel { types: Vec::new() };
    let mut cx = CContext::new(FileMap::new());
    cx.run(&empty, None);
    assert!(cx.files.get_file("diplomat_runtime.h").is_some());

    let mut cx2 = CContext::new(FileMap::new());
    cx2.run(&two_type_model(), None);
    assert!(cx2.files.get_file("diplomat_runtime.h").is_some());
}

#[test]
fn methodless_opaque_type_joins_the_aggregate() {
    // a methodless opaque type still has a destructor, so both
    // aggregates list it; a methodless plain struct joins neither
    let m = TypeModel {
        types: vec![
            TypeDef {
                name: "Handle".to_string(),
                kind: TypeDefKind::Opaque,
                methods: Vec::new(),
                disabled: false,
                cfgs: Vec::new(),
                has_repr: false,
            },
            TypeDef {
                name: "Plain".to_string(),
                kind: TypeDefKind::Struct(Vec::new()),
                methods: Vec::new(),
                disabled: false,
                cfgs: Vec::new(),
                has_repr: false,
            },
        ],
    };
    let mut cx = CContext::new(FileMap::new());
    let info = ApiInfo {
        apiname: "MyApi".to_string(),
        refresh_api_fn: "get_my_api".to_string(),
        get_api_fn: "fetch_api".to_string(),
        additional_includes: Vec::new(),
    };
    cx.run(&m, Some(&info));
    let api = cx.files.get_file("api.h").expect("aggregate header");
    assert!(api.contains("struct __Handle_API__ Handle;"));
    assert!(!api.contains("__Plain_API__"));

    let items = diplomat_tool::bridge::gen_bridge(&m, Some(("MyApi", "get_my_api")));
    let root = items
        .iter()
        .find(|it| matches!(it.kind, diplomat_tool::bridge::BridgeItemKind::RootStruct))
        .expect("aggregate struct");
    assert!(root.text.contains("  pub Handle: __Handle_API__,\n"));
    assert!(!root.text.contains("__Plain_API__"));
}
