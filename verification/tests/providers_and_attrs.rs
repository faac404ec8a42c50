use artifact_registry::attrs::{AnyAttrType, AttrLiteral};
use artifact_registry::dependency::{
    Dependency, DependencyError, Label, ProviderCollection, SubTarget,
};

fn create_collection() -> Dependency {
    let label = Label::new("root//foo:bar".to_string()).push("baz");
    let collection = ProviderCollection::new(vec!["DefaultInfo".to_string()], vec![]);
    Dependency::new(label, collection)
}

#[test]
fn dependency_works() {
    let notfrozen = create_collection();
    let frozen = create_collection();
    let expect = "<dependency root//foo:bar[baz]>";

    assert_eq!(expect, notfrozen.display_string());
    assert!(notfrozen.is_in("DefaultInfo"));
    assert!(notfrozen.provider_collection().sub_targets.is_empty());
    assert_eq!(vec!["baz".to_string()], notfrozen.label().sub_target);

    assert_eq!(expect, frozen.display_string());
    assert!(frozen.is_in("DefaultInfo"));
    assert!(frozen.provider_collection().sub_targets.is_empty());
    assert_eq!(vec!["baz".to_string()], frozen.label().sub_target);
}

#[test]
fn sub_target_lookup() {
    let label = Label::new("root//foo:bar".to_string());
    let sub = SubTarget {
        name: "docs".to_string(),
        providers: vec!["DefaultInfo".to_string(), "RunInfo".to_string()],
    };
    let collection = ProviderCollection::new(vec!["DefaultInfo".to_string()], vec![sub]);
    let dep = Dependency::new(label, collection);

    let docs = dep.sub_target("docs").unwrap();
    assert_eq!("<dependency root//foo:bar[docs]>", docs.display_string());
    assert_eq!(vec!["docs".to_string()], docs.label().sub_target);
    assert!(docs.is_in("RunInfo"));
    assert!(!docs.is_in("OtherInfo"));
}

#[test]
fn unknown_sub_target_is_an_error() {
    let dep = create_collection();
    let err = dep.sub_target("missing").unwrap_err();
    assert!(matches!(err, DependencyError::UnknownSubtarget(_)));
    assert_eq!(
        "Unknown subtarget, could not find `missing`",
        err.message()
    );
}

#[test]
fn empty_string_attr() {
    let attr = AnyAttrType::empty_string();
    match attr.lit {
        AttrLiteral::Str(s) => assert_eq!("", s),
        AttrLiteral::List(_) => panic!("expected a string literal"),
    }
}

#[test]
fn empty_list_attr() {
    let attr = AnyAttrType::empty_list();
    match attr.lit {
        AttrLiteral::List(items) => assert!(items.is_empty()),
        AttrLiteral::Str(_) => panic!("expected a list literal"),
    }
}
