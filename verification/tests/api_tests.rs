//! API-table mode end to end: the producer-side items, the single
//! destructor per type, and the stability of the generated table across
//! repeated renderings.

use diplomat_tool::attrs::{decide_decoration, AttrTag, AttributeInfo, Decoration, HostItemKind};
use diplomat_tool::bridge::{bridge, gen_bridge, ArgValue, BridgeArg, BridgeItemKind};
use diplomat_tool::model::{
    MethodDescriptor, PrimKind, ReturnDescriptor, SuccessKind, TypeDef, TypeDefKind,
    TypeDescriptor, TypeModel, ParamDescriptor,
};

fn small_model() -> TypeModel {
    TypeModel {
        types: vec![TypeDef {
            name: "Counter".to_string(),
            kind: TypeDefKind::Opaque,
            methods: vec![MethodDescriptor {
                name: "add".to_string(),
                full_path_name: "Counter_add".to_string(),
                self_param: None,
                params: vec![ParamDescriptor {
                    name: "n".to_string(),
                    ty: TypeDescriptor::Primitive(PrimKind::U32),
                }],
                output: ReturnDescriptor::Infallible(SuccessKind::Unit),
                disabled: false,
                cfgs: Vec::new(),
            }],
            disabled: false,
            cfgs: Vec::new(),
            has_repr: false,
        }],
    }
}

#[test]
fn entrypoint_rendering_is_stable_across_calls() {
    // rendering twice in the same process yields identical items, so
    // the entrypoint returns structurally identical tables every call
    let m = small_model();
    let one = gen_bridge(&m, Some(("MyApi", "get_my_api")));
    let two = gen_bridge(&m, Some(("MyApi", "get_my_api")));
    assert_eq!(one.len(), two.len());
    for (a, b) in one.iter().zip(two.iter()) {
        assert_eq!(a.kind, b.kind);
        assert_eq!(a.text, b.text);
    }
}

#[test]
fn exactly_one_destructor_item_per_type() {
    let m = small_model();
    let items = gen_bridge(&m, Some(("MyApi", "get_my_api")));
    let dtors = items
        .iter()
        .filter(|it| matches!(it.kind, BridgeItemKind::Dtor(0)))
        .count();
    assert_eq!(dtors, 1);
}

#[test]
fn destructor_takes_the_handle_by_value_and_does_nothing_else() {
    let m = small_model();
    let items = gen_bridge(&m, None);
    let dtor = items
        .iter()
        .find(|it| matches!(it.kind, BridgeItemKind::Dtor(0)))
        .expect("destructor item");
    assert_eq!(dtor.text, "CAbi fn Counter_destroy(this: Box<Counter>) {}\n\n");
}

#[test]
fn table_items_hold_every_method_and_the_core_slot() {
    let m = small_model();
    let items = gen_bridge(&m, Some(("MyApi", "get_my_api")));
    let table = items
        .iter()
        .find(|it| matches!(it.kind, BridgeItemKind::ApiStruct(0)))
        .expect("table type");
    assert!(table.text.contains("  pub add: CAbi fn(n: u32),\n"));
    assert!(table.text.contains("  pub Counter_destroy: CAbi fn(this: Box<Counter>),\n"));
    let root = items
        .iter()
        .find(|it| matches!(it.kind, BridgeItemKind::RootStruct))
        .expect("aggregate");
    assert!(root.text.contains("  pub core: __core__::__Core_API__,\n"));
    assert!(root.text.contains("  pub Counter: __Counter_API__,\n"));
    let entry = items
        .iter()
        .find(|it| matches!(it.kind, BridgeItemKind::Entrypoint))
        .expect("entrypoint");
    assert!(entry.text.contains("pub CAbi fn get_my_api() -> MyApi"));
    assert!(entry.text.contains("    Counter: __get_Counter_api__(),\n"));
}

#[test]
fn bridge_accepts_table_names_and_rejects_unknown_keys() {
    let m = small_model();
    let good = vec![
        BridgeArg { key: "apiname".to_string(), value: ArgValue::IdentVal("MyApi".to_string()) },
        BridgeArg {
            key: "refresh_api_fn".to_string(),
            value: ArgValue::IdentVal("get_my_api".to_string()),
        },
    ];
    let items = bridge(&m, &good).expect("accepted");
    assert!(items.iter().any(|it| matches!(it.kind, BridgeItemKind::Entrypoint)));

    let bad = vec![BridgeArg {
        key: "apinam".to_string(),
        value: ArgValue::IdentVal("MyApi".to_string()),
    }];
    assert!(bridge(&m, &bad).is_err());
}

#[test]
fn attribute_extraction_consumes_markers() {
    let attrs = vec![
        AttrTag { segments: vec!["repr".to_string()] },
        AttrTag { segments: vec!["diplomat".to_string(), "opaque".to_string()] },
        AttrTag { segments: vec!["diplomat".to_string(), "rust_link".to_string()] },
        AttrTag { segments: vec!["derive".to_string()] },
    ];
    let (info, kept) = AttributeInfo::extract(&attrs).expect("no fatal marker");
    assert!(info.repr);
    assert!(info.opaque);
    assert!(!info.is_out);
    let kept_roots: Vec<String> = kept.iter().map(|a| a.segments[0].clone()).collect();
    assert_eq!(kept_roots, vec!["repr".to_string(), "derive".to_string()]);

    let bad = vec![AttrTag { segments: vec!["diplomat".to_string(), "mystery".to_string()] }];
    assert!(AttributeInfo::extract(&bad).is_err());
}

#[test]
fn decoration_decisions_follow_the_markers() {
    let plain = AttributeInfo { repr: false, opaque: false, is_out: false };
    let d = decide_decoration(HostItemKind::StructItem, &plain).unwrap();
    assert_eq!(d, Decoration { add_repr_c: true, add_value_derives: true });

    let out_only = AttributeInfo { repr: false, opaque: false, is_out: true };
    let d = decide_decoration(HostItemKind::StructItem, &out_only).unwrap();
    assert_eq!(d, Decoration { add_repr_c: true, add_value_derives: false });

    let opaque = AttributeInfo { repr: false, opaque: true, is_out: false };
    let d = decide_decoration(HostItemKind::StructItem, &opaque).unwrap();
    assert_eq!(d, Decoration { add_repr_c: false, add_value_derives: false });

    assert!(decide_decoration(HostItemKind::EnumItem, &opaque).is_err());
    assert!(decide_decoration(HostItemKind::MethodItem, &opaque).is_err());
    let e = decide_decoration(HostItemKind::EnumItem, &plain).unwrap();
    assert_eq!(e, Decoration { add_repr_c: true, add_value_derives: true });
}

#[test]
fn decimal_rendering_handles_signs() {
    assert_eq!(diplomat_tool::text::dec_i64(0), "0");
    assert_eq!(diplomat_tool::text::dec_i64(123), "123");
    assert_eq!(diplomat_tool::text::dec_i64(-45), "-45");
    assert_eq!(diplomat_tool::text::dec_i64(i64::MIN), "-9223372036854775808");
}
