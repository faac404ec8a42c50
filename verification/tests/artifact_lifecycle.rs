use artifact_registry::artifact::{ActionKey, ArtifactError, BaseArtifact, OutputType, UnitLabel};
use artifact_registry::assoc::{Artifact, AssociatedArtifacts};
use artifact_registry::path::PathSeparator;
use artifact_registry::registry::BindingRegistry;
use artifact_registry::resolver::OutputRootResolver;

fn unit() -> UnitLabel {
    UnitLabel::new(
        1,
        "root//foo:bar".to_string(),
        "foo/__bar__".to_string(),
    )
}

fn source(package: &str, path: &str) -> BaseArtifact {
    BaseArtifact::new_source("root".to_string(), package.to_string(), path.to_string())
}

fn bound(path: &str) -> BaseArtifact {
    BaseArtifact::new_bound(unit(), 0, path.to_string(), 0)
}

fn declare(registry: &mut BindingRegistry, path: &str) -> BaseArtifact {
    registry
        .declare(path.to_string(), OutputType::File)
        .unwrap()
}

fn bind(registry: &mut BindingRegistry, artifact: &BaseArtifact) -> ActionKey {
    let output = registry.as_output(artifact).unwrap();
    registry
        .register(vec![], vec![output], "fake_action".to_string())
        .unwrap()
}

fn assoc_string(artifact: &Artifact) -> String {
    let mut s = String::new();
    let n = artifact.assoc.len();
    for i in 0..n {
        s.push_str(&artifact.assoc.get(i).full_path_string());
    }
    s
}

#[test]
fn source_artifact() {
    let a1 = source("foo/bar", "baz/quz.h");
    let a2 = source("foo/bar", "baz/file1");
    let a3 = source("foo/bar", "baz/quz.cpp");
    let a4 = source("foo/bar", "baz/file2");

    assert_eq!("<source foo/bar/baz/quz.h>", a1.display_string());
    assert_eq!("quz.h", a1.basename());
    assert_eq!("baz/quz.h", a1.short_path());
    assert_eq!(".h", a1.extension());
    assert!(a1.is_source());
    assert_eq!(None, a1.frozen_owner());

    assert_eq!("<source foo/bar/baz/file1>", a2.display_string());
    assert_eq!("file1", a2.basename());
    assert_eq!("baz/file1", a2.short_path());
    assert_eq!("", a2.extension());
    assert!(a2.is_source());
    assert_eq!(None, a2.frozen_owner());

    assert_eq!("<source foo/bar/baz/quz.cpp>", a3.display_string());
    assert_eq!("quz.cpp", a3.basename());
    assert_eq!("baz/quz.cpp", a3.short_path());
    assert_eq!(".cpp", a3.extension());
    assert!(a3.is_source());
    assert_eq!(None, a3.frozen_owner());

    assert_eq!("<source foo/bar/baz/file2>", a4.display_string());
    assert_eq!("file2", a4.basename());
    assert_eq!("baz/file2", a4.short_path());
    assert_eq!("", a4.extension());
    assert!(a4.is_source());
    assert_eq!(None, a4.frozen_owner());

    let registry = BindingRegistry::new(unit());
    let err = registry
        .as_output(&source("foo/bar", "baz/quz.cpp"))
        .unwrap_err();
    assert_eq!(ArtifactError::SourceArtifactAsOutput, err);
    assert!(err.message().contains("Source artifacts may not be outputs"));
}

#[test]
fn bound_artifact() {
    let a1 = bound("baz/quz.h");
    let a2 = bound("baz/file1");
    let a3 = bound("baz/quz.cpp");
    let a4 = bound("baz/file2");

    assert_eq!(
        "<build artifact baz/quz.h bound to root//foo:bar>",
        a1.display_string()
    );
    assert_eq!("quz.h", a1.basename());
    assert_eq!("baz/quz.h", a1.short_path());
    assert_eq!(".h", a1.extension());
    assert!(!a1.is_source());
    assert_eq!(Some(ActionKey { unit: 1, action: 0 }), a1.frozen_owner());

    assert_eq!(
        "<build artifact baz/file1 bound to root//foo:bar>",
        a2.display_string()
    );
    assert_eq!("file1", a2.basename());
    assert_eq!("baz/file1", a2.short_path());
    assert_eq!("", a2.extension());
    assert!(!a2.is_source());
    assert_eq!(Some(ActionKey { unit: 1, action: 0 }), a2.frozen_owner());

    assert_eq!(
        "<build artifact baz/quz.cpp bound to root//foo:bar>",
        a3.display_string()
    );
    assert_eq!("quz.cpp", a3.basename());
    assert_eq!("baz/quz.cpp", a3.short_path());
    assert_eq!(".cpp", a3.extension());
    assert!(!a3.is_source());

    assert_eq!(
        "<build artifact baz/file2 bound to root//foo:bar>",
        a4.display_string()
    );
    assert_eq!("file2", a4.basename());
    assert_eq!("baz/file2", a4.short_path());
    assert_eq!("", a4.extension());
    assert!(!a4.is_source());

    let registry = BindingRegistry::new(unit());
    let err = registry.as_output(&bound("baz/quz.cpp")).unwrap_err();
    assert!(matches!(err, ArtifactError::BoundArtifactAsOutput { .. }));
    assert!(err.message().contains("already used"));
}

#[test]
fn declared_artifact() {
    let mut registry = BindingRegistry::new(unit());
    let a1 = declare(&mut registry, "baz/quz.cpp");
    let a2 = declare(&mut registry, "baz/file2");

    assert_eq!("<build artifact baz/quz.cpp>", a1.display_string());
    assert_eq!("quz.cpp", a1.basename());
    assert_eq!(".cpp", a1.extension());
    assert!(!a1.is_source());
    assert_eq!(None, registry.owner(&a1));
    assert_eq!(
        "<output artifact for baz/quz.cpp>",
        registry.as_output(&a1).unwrap().display_string()
    );

    assert_eq!("<build artifact baz/file2>", a2.display_string());
    assert_eq!("file2", a2.basename());
    assert_eq!("", a2.extension());
    assert!(!a2.is_source());
    assert_eq!(None, registry.owner(&a2));
    assert_eq!(
        "<output artifact for baz/file2>",
        registry.as_output(&a2).unwrap().display_string()
    );
}

#[test]
fn declared_bound() {
    let mut registry = BindingRegistry::new(unit());
    let a1 = declare(&mut registry, "baz/quz.h");
    let a2 = declare(&mut registry, "baz/file1");
    let a3 = declare(&mut registry, "baz/quz.cpp");
    let a4 = declare(&mut registry, "baz/file2");
    let k1 = bind(&mut registry, &a1);
    let k2 = bind(&mut registry, &a2);
    let k3 = bind(&mut registry, &a3);
    let k4 = bind(&mut registry, &a4);

    let b1 = registry.ensure_bound(&a1).unwrap();
    assert_eq!(
        "<build artifact baz/quz.h bound to root//foo:bar>",
        b1.display_string()
    );
    assert_eq!("quz.h", b1.basename());
    assert_eq!("baz/quz.h", b1.short_path());
    assert_eq!(".h", b1.extension());
    assert!(!b1.is_source());
    assert_eq!(Some(k1), registry.owner(&a1));

    let b2 = registry.ensure_bound(&a2).unwrap();
    assert_eq!(
        "<build artifact baz/file1 bound to root//foo:bar>",
        b2.display_string()
    );
    assert_eq!("file1", b2.basename());
    assert_eq!("baz/file1", b2.short_path());
    assert_eq!("", b2.extension());
    assert_eq!(Some(k2), registry.owner(&a2));

    let b3 = registry.ensure_bound(&a3).unwrap();
    assert_eq!(
        "<build artifact baz/quz.cpp bound to root//foo:bar>",
        b3.display_string()
    );
    assert_eq!("quz.cpp", b3.basename());
    assert_eq!("baz/quz.cpp", b3.short_path());
    assert_eq!(".cpp", b3.extension());
    assert_eq!(Some(k3), registry.owner(&a3));

    let b4 = registry.ensure_bound(&a4).unwrap();
    assert_eq!(
        "<build artifact baz/file2 bound to root//foo:bar>",
        b4.display_string()
    );
    assert_eq!("file2", b4.basename());
    assert_eq!("baz/file2", b4.short_path());
    assert_eq!("", b4.extension());
    assert_eq!(Some(k4), registry.owner(&a4));
}

#[test]
fn project_declared_artifact() {
    let mut registry = BindingRegistry::new(unit());
    let out = declare(&mut registry, "out");
    bind(&mut registry, &out);
    let projected = out.project("baz.o", false).unwrap();
    let bound_projection = registry.ensure_bound(&projected).unwrap();
    assert_eq!(
        "<build artifact out/baz.o bound to root//foo:bar>",
        bound_projection.display_string()
    );
    assert_eq!("baz.o", projected.basename());
    assert_eq!(".o", projected.extension());

    let mut registry2 = BindingRegistry::new(unit());
    let unbound = declare(&mut registry2, "out").project("qux.so", false).unwrap();
    assert_eq!("<build artifact out/qux.so>", unbound.display_string());
    assert_eq!(
        "<output artifact for out/qux.so>",
        registry2.as_output(&unbound).unwrap().display_string()
    );
    assert_eq!("qux.so", unbound.basename());
    assert_eq!(".so", unbound.extension());
}

#[test]
fn test_short_path() {
    let mut registry = BindingRegistry::new(unit());

    let test = declare(&mut registry, "foo/bar/baz");
    assert_eq!("foo/bar/baz", test.short_path());

    let test = declare(&mut registry, "foo1");
    let test = test.project("bar/baz", false).unwrap();
    assert_eq!("foo1/bar/baz", test.short_path());

    let test = declare(&mut registry, "foo");
    assert_eq!(
        "foo/bar/baz",
        test.project("bar", false)
            .unwrap()
            .project("baz", false)
            .unwrap()
            .short_path()
    );
    assert_eq!(
        "bar/baz",
        test.project("bar/baz", true).unwrap().short_path()
    );
    assert_eq!(
        "baz",
        test.project("bar", false)
            .unwrap()
            .project("baz", true)
            .unwrap()
            .short_path()
    );
    assert_eq!(
        "bar/baz",
        test.project("bar", true)
            .unwrap()
            .project("baz", false)
            .unwrap()
            .short_path()
    );
    assert_eq!(
        "baz",
        test.project("bar", true)
            .unwrap()
            .project("baz", true)
            .unwrap()
            .short_path()
    );
}

#[test]
fn project_source_artifact() {
    let err = source("foo/bar", "baz").project("foo", false).unwrap_err();
    assert_eq!(ArtifactError::NotProjectable, err);
    assert!(err.message().contains("Source artifacts cannot be projected"));
}

#[test]
fn project_artifact() {
    let err = bound("baz").project("foo", false).unwrap_err();
    assert_eq!(ArtifactError::CrossOwnerProjection, err);
    assert!(err
        .message()
        .contains("This artifact was declared by another rule"));
}

#[test]
fn stringifies_for_command_line() {
    let fs = OutputRootResolver::new(
        String::new(),
        "buck-out/v2/gen/root".to_string(),
        PathSeparator::Unix,
    );
    let a1 = bound("baz/quz.h");
    let a2 = source("foo/bar", "baz/file1");
    let a3 = bound("baz/quz.cpp");
    let a4 = source("foo/bar", "baz/file2");

    assert_eq!(
        "buck-out/v2/gen/root/foo/__bar__/baz/quz.h",
        fs.resolve(&a1)
    );
    assert_eq!("foo/bar/baz/file1", fs.resolve(&a2));
    assert_eq!(
        "buck-out/v2/gen/root/foo/__bar__/baz/quz.cpp",
        fs.resolve(&a3)
    );
    assert_eq!("foo/bar/baz/file2", fs.resolve(&a4));
}

#[test]
fn bound_artifact_with_associated_artifacts() {
    // Declare an artifact (a2), bind it, and attach an associated source (a1).
    let a1 = source("foo/bar", "baz/file1");
    let mut registry = BindingRegistry::new(unit());
    let d = declare(&mut registry, "baz/quz.h");
    bind(&mut registry, &d);
    let extras = AssociatedArtifacts::from_artifacts(&vec![a1.duplicate()]);
    let a2 = Artifact::new(registry.ensure_bound(&d).unwrap()).attach(&extras);
    assert_eq!(a2.base.short_path(), "baz/quz.h");
    assert_eq!(assoc_string(&Artifact::new(a1)), "");
    assert_eq!(assoc_string(&a2), "root//foo/bar/baz/file1");

    // Use a predeclared artifact (a3) and attach an associated source (a4).
    let a3 = declare(&mut registry, "wom/bat.h");
    let a4 = source("foo/bar", "baz/file2");
    let extras = AssociatedArtifacts::from_artifacts(&vec![a4]);
    let a5 = Artifact::new(a3.duplicate()).attach(&extras);
    assert_eq!(a3.short_path(), "wom/bat.h");
    assert_eq!(a5.base.short_path(), "wom/bat.h");
    assert_eq!(assoc_string(&Artifact::new(a3.duplicate())), "");
    assert_eq!(assoc_string(&a5), "root//foo/bar/baz/file2");

    // The same predeclared artifact with no associated artifacts.
    let a6 = Artifact::new(a3).attach(&AssociatedArtifacts::new());
    assert_eq!(a6.base.short_path(), "wom/bat.h");
    assert_eq!(assoc_string(&a6), "");

    let a7 = a5.strip();
    assert_eq!(a5.base.short_path(), a7.base.short_path());
    assert_eq!(assoc_string(&a7), "");
}

#[test]
fn owner_appears_only_after_registration() {
    let mut registry = BindingRegistry::new(unit());
    let a = declare(&mut registry, "gen/out.txt");
    assert_eq!(None, registry.owner(&a));
    let key = bind(&mut registry, &a);
    assert_eq!(Some(key), registry.owner(&a));

    // The owner survives later declarations and registrations.
    let b = declare(&mut registry, "gen/other.txt");
    assert_eq!(Some(key), registry.owner(&a));
    bind(&mut registry, &b);
    assert_eq!(Some(key), registry.owner(&a));
}

#[test]
fn rebinding_always_fails_and_binds_nothing() {
    let mut registry = BindingRegistry::new(unit());
    let a = declare(&mut registry, "gen/a");
    let stale = registry.as_output(&a).unwrap();
    let key = bind(&mut registry, &a);

    // A second registration listing `a` fails with the existing owner...
    let fresh = declare(&mut registry, "gen/b");
    let fresh_output = registry.as_output(&fresh).unwrap();
    let err = registry
        .register(vec![], vec![fresh_output, stale], "another_action".to_string())
        .unwrap_err();
    assert_eq!(
        ArtifactError::BoundArtifactAsOutput { existing_owner: key },
        err
    );

    // ...and binds nothing at all: the fresh artifact is still unbound.
    assert_eq!(None, registry.owner(&fresh));
    let retry = registry.as_output(&fresh).unwrap();
    let second = registry
        .register(vec![], vec![retry], "another_action".to_string())
        .unwrap();
    assert_eq!(Some(second), registry.owner(&fresh));
}

#[test]
fn duplicate_output_in_one_registration_fails() {
    let mut registry = BindingRegistry::new(unit());
    let a = declare(&mut registry, "gen/a");
    let o1 = registry.as_output(&a).unwrap();
    let o2 = registry.as_output(&a).unwrap();
    let err = registry
        .register(vec![], vec![o1, o2], "fake_action".to_string())
        .unwrap_err();
    assert!(matches!(err, ArtifactError::BoundArtifactAsOutput { .. }));
    assert_eq!(None, registry.owner(&a));
}

#[test]
fn duplicate_declaration_fails() {
    let mut registry = BindingRegistry::new(unit());
    declare(&mut registry, "gen/a");
    let err = registry
        .declare("gen/a".to_string(), OutputType::File)
        .unwrap_err();
    assert_eq!(ArtifactError::DuplicateDeclaration, err);
    // A different path is still accepted afterwards.
    declare(&mut registry, "gen/b");
}

#[test]
fn extension_edge_cases() {
    let mut registry = BindingRegistry::new(unit());
    assert_eq!(".h", declare(&mut registry, "quz.h").extension());
    assert_eq!("", declare(&mut registry, "file1").extension());
    assert_eq!("", declare(&mut registry, "dir/.bashrc").extension());
    assert_eq!(".gz", declare(&mut registry, "a.tar.gz").extension());
    assert_eq!("a.tar.gz", declare(&mut registry, "b/a.tar.gz").basename());
}

#[test]
fn associated_artifacts_union_dedup_and_order() {
    let x = source("p", "x");
    let y = source("p", "y");
    let first = AssociatedArtifacts::from_artifacts(&vec![x.duplicate(), y.duplicate()]);
    // Attaching duplicates and one new element keeps order: existing first.
    let more = AssociatedArtifacts::from_artifacts(&vec![
        y.duplicate(),
        source("p", "z"),
        x.duplicate(),
    ]);
    let all = first.union(&more);
    assert_eq!(3, all.len());
    assert_eq!("root//p/x", all.get(0).full_path_string());
    assert_eq!("root//p/y", all.get(1).full_path_string());
    assert_eq!("root//p/z", all.get(2).full_path_string());
    assert!(all.contains(&x));
    assert!(!all.contains(&source("p", "w")));
}

#[test]
fn resolution_formula_and_separators() {
    let fs = OutputRootResolver::new(
        "srcroot".to_string(),
        "outroot".to_string(),
        PathSeparator::Unix,
    );
    assert_eq!("srcroot/p/q", fs.resolve(&source("p", "q")));

    let windows = OutputRootResolver::new(
        "srcroot".to_string(),
        "outroot".to_string(),
        PathSeparator::Windows,
    );
    assert_eq!("srcroot\\p\\q", windows.resolve(&source("p", "q")));

    let mut registry = BindingRegistry::new(unit());
    let d = declare(&mut registry, "gen/out");
    assert_eq!("outroot/foo/__bar__/gen/out", fs.resolve(&d));
}

#[test]
fn resolution_is_stable_across_binding_and_repetition() {
    let fs = OutputRootResolver::new(
        String::new(),
        "buck-out/v2/gen/root".to_string(),
        PathSeparator::Unix,
    );
    let mut registry = BindingRegistry::new(unit());
    let d = declare(&mut registry, "gen/out");
    let before = fs.resolve(&d);
    bind(&mut registry, &d);
    let after = fs.resolve(&d);
    let frozen = fs.resolve(&registry.ensure_bound(&d).unwrap());
    assert_eq!(before, after);
    assert_eq!(before, frozen);
    assert_eq!(before, fs.resolve(&d));
}

#[test]
fn finalize_reports_dead_declarations() {
    let mut registry = BindingRegistry::new(unit());
    let a = declare(&mut registry, "gen/a");
    let b = declare(&mut registry, "gen/b");
    bind(&mut registry, &a);
    let unbound = registry.finalize();
    assert_eq!(1, unbound.len());
    assert_eq!("gen/b", unbound[0].short_path());

    let err = registry.ensure_bound(&b).unwrap_err();
    assert_eq!(ArtifactError::DeclaredArtifactWasNotBound, err);
}

#[test]
fn registered_actions_are_recorded() {
    let mut registry = BindingRegistry::new(unit());
    let a = declare(&mut registry, "gen/a");
    assert_eq!(0, registry.action_count());
    let input = source("p", "in.txt");
    let output = registry.as_output(&a).unwrap();
    let key = registry
        .register(vec![input], vec![output], "copy".to_string())
        .unwrap();
    assert_eq!(1, registry.action_count());
    let record = registry.action(key.action).unwrap();
    assert_eq!(key, record.key);
    assert_eq!("copy", record.category);
    assert_eq!(vec![0u64], record.outputs);
    assert_eq!(1, record.inputs.len());
    assert!(registry.action(7).is_none());
    assert_eq!("root//foo:bar", registry.unit().label);
}
