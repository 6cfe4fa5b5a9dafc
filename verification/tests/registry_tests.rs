//! The wrapper registry: canonical names depend on the pair alone, and
//! each distinct name is defined exactly once whatever order pairs are
//! discovered in.

use diplomat_tool::model::{TypeDef, TypeDefKind, TypeDescriptor, TypeModel};
use diplomat_tool::registry::ResultTypeRegistry;

fn model_with_enum(name: &str) -> TypeModel {
    TypeModel {
        types: vec![TypeDef {
            name: name.to_string(),
            kind: TypeDefKind::Enum(Vec::new()),
            methods: Vec::new(),
            disabled: false,
            cfgs: Vec::new(),
            has_repr: false,
        }],
    }
}

#[test]
fn canonical_name_derives_from_the_pair() {
    let m = model_with_enum("ErrorKind");
    let mut reg = ResultTypeRegistry::new();
    let err = TypeDescriptor::Enum(0);
    let name = reg.get_or_create(&m, None, Some(&err));
    assert_eq!(name, "diplomat_result_void_ErrorKind");
}

#[test]
fn repeated_requests_keep_one_definition() {
    let m = model_with_enum("ErrorKind");
    let mut reg = ResultTypeRegistry::new();
    let err = TypeDescriptor::Enum(0);
    let n1 = reg.get_or_create(&m, None, Some(&err));
    let n2 = reg.get_or_create(&m, None, Some(&err));
    let n3 = reg.get_or_create(&m, None, Some(&err));
    assert_eq!(n1, n2);
    assert_eq!(n2, n3);
    assert_eq!(reg.entries.len(), 1);
}

#[test]
fn discovery_order_does_not_change_the_definitions() {
    let m = model_with_enum("ErrorKind");
    let err = TypeDescriptor::Enum(0);
    let ok = TypeDescriptor::Primitive(diplomat_tool::model::PrimKind::U32);

    let mut one = ResultTypeRegistry::new();
    one.get_or_create(&m, None, Some(&err));
    one.get_or_create(&m, Some(&ok), Some(&err));
    one.get_or_create(&m, None, Some(&err));

    let mut two = ResultTypeRegistry::new();
    two.get_or_create(&m, Some(&ok), Some(&err));
    two.get_or_create(&m, None, Some(&err));

    let mut names_one: Vec<String> = one.entries.iter().map(|e| e.name.clone()).collect();
    let mut names_two: Vec<String> = two.entries.iter().map(|e| e.name.clone()).collect();
    names_one.sort();
    names_two.sort();
    assert_eq!(names_one, names_two);
    assert_eq!(names_one.len(), 2);
}
