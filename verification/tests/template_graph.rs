use macro_collection::collection::MacroCollection;
use macro_collection::collection::MacroError;
use macro_collection::template::MacroDefinition;
use macro_collection::template::Registry;
use macro_collection::template::Template;

fn mdef(name: &str) -> MacroDefinition {
    MacroDefinition {
        name: name.to_string(),
        args: vec!["arg".to_string()],
        body: format!("body of {}", name),
    }
}

fn build(registry: &Registry, root: &str) -> Result<MacroCollection, MacroError> {
    let tpl = registry.get_template(root).expect("root template must be registered");
    MacroCollection::from_original_template(tpl, registry)
}

#[test]
fn lone_template_with_macros() {
    let mut registry = Registry::new();
    let mut a = Template::new("a.html".to_string());
    a.add_macro(mdef("greet"));
    registry.add_template(a);

    let collection = build(&registry, "a.html").unwrap();
    assert_eq!(collection.len(), 1);
    assert!(collection.contains_template("a.html"));

    let (origin, def) = collection.lookup_macro("a.html", "self", "greet").unwrap();
    assert_eq!(origin, "a.html");
    assert_eq!(def.name, "greet");
    assert_eq!(def.body, "body of greet");
}

#[test]
fn lone_template_without_macros() {
    let mut registry = Registry::new();
    registry.add_template(Template::new("a.html".to_string()));

    let collection = build(&registry, "a.html").unwrap();
    assert_eq!(collection.len(), 1);
    assert!(collection.contains_template("a.html"));

    // No own macros: not even the "self" namespace exists.
    match collection.lookup_macro("a.html", "self", "greet") {
        Err(MacroError::NamespaceNotFound { namespace, template }) => {
            assert_eq!(namespace, "self");
            assert_eq!(template, "a.html");
        },
        other => panic!("expected NamespaceNotFound, got {:?}", other),
    }
}

#[test]
fn import_resolves_through_alias() {
    let mut registry = Registry::new();
    let mut f = Template::new("f.html".to_string());
    f.add_macro(mdef("hello"));
    registry.add_template(f);
    let mut t = Template::new("t.html".to_string());
    t.add_import("f.html".to_string(), "f".to_string());
    registry.add_template(t);

    let collection = build(&registry, "t.html").unwrap();
    let (origin, def) = collection.lookup_macro("t.html", "f", "hello").unwrap();
    assert_eq!(origin, "f.html");
    assert_eq!(def.name, "hello");

    // The imported file gets a top-level entry of its own.
    assert!(collection.contains_template("f.html"));
    let (origin2, _) = collection.lookup_macro("f.html", "self", "hello").unwrap();
    assert_eq!(origin2, "f.html");
    assert_eq!(collection.len(), 2);
}

#[test]
fn diamond_graph_visits_shared_template_once() {
    let mut registry = Registry::new();
    let mut d = Template::new("d.html".to_string());
    d.add_macro(mdef("shared"));
    registry.add_template(d);
    let mut b = Template::new("b.html".to_string());
    b.add_import("d.html".to_string(), "d".to_string());
    registry.add_template(b);
    let mut c = Template::new("c.html".to_string());
    c.add_import("d.html".to_string(), "d".to_string());
    registry.add_template(c);
    let mut a = Template::new("a.html".to_string());
    a.add_import("b.html".to_string(), "b".to_string());
    a.add_import("c.html".to_string(), "c".to_string());
    registry.add_template(a);

    let mut collection = build(&registry, "a.html").unwrap();
    assert_eq!(collection.len(), 4);
    let (origin, _) = collection.lookup_macro("d.html", "self", "shared").unwrap();
    assert_eq!(origin, "d.html");

    // Re-visiting the shared template must not alter or duplicate its
    // namespace map.
    let d_again = registry.get_template("d.html").unwrap();
    collection.add_macros_from_template(&registry, d_again).unwrap();
    assert_eq!(collection.len(), 4);
    let (origin, def) = collection.lookup_macro("d.html", "self", "shared").unwrap();
    assert_eq!(origin, "d.html");
    assert_eq!(def.name, "shared");
}

#[test]
fn namespace_not_found_names_namespace_and_template() {
    let mut registry = Registry::new();
    let mut a = Template::new("a.html".to_string());
    a.add_macro(mdef("m"));
    registry.add_template(a);

    let collection = build(&registry, "a.html").unwrap();
    match collection.lookup_macro("a.html", "helpers", "m") {
        Err(MacroError::NamespaceNotFound { namespace, template }) => {
            assert_eq!(namespace, "helpers");
            assert_eq!(template, "a.html");
        },
        other => panic!("expected NamespaceNotFound, got {:?}", other),
    }
    // A template that was never collected is reported the same way.
    match collection.lookup_macro("other.html", "self", "m") {
        Err(MacroError::NamespaceNotFound { namespace, template }) => {
            assert_eq!(namespace, "self");
            assert_eq!(template, "other.html");
        },
        other => panic!("expected NamespaceNotFound, got {:?}", other),
    }
}

#[test]
fn macro_not_found_names_macro_namespace_and_template() {
    let mut registry = Registry::new();
    let mut a = Template::new("a.html".to_string());
    a.add_macro(mdef("m"));
    registry.add_template(a);

    let collection = build(&registry, "a.html").unwrap();
    match collection.lookup_macro("a.html", "self", "absent") {
        Err(MacroError::MacroNotFound { namespace, name, template }) => {
            assert_eq!(namespace, "self");
            assert_eq!(name, "absent");
            assert_eq!(template, "a.html");
        },
        other => panic!("expected MacroNotFound, got {:?}", other),
    }
}

#[test]
fn parent_imports_stay_with_the_parent() {
    let mut registry = Registry::new();
    let mut f = Template::new("f.html".to_string());
    f.add_macro(mdef("helper"));
    registry.add_template(f);
    let mut parent = Template::new("parent.html".to_string());
    parent.add_import("f.html".to_string(), "f".to_string());
    registry.add_template(parent);
    let mut child = Template::new("child.html".to_string());
    child.add_parent("parent.html".to_string());
    registry.add_template(child);

    let collection = build(&registry, "child.html").unwrap();

    // The parent is reachable and indexed on its own behalf.
    assert!(collection.contains_template("parent.html"));
    let (origin, _) = collection.lookup_macro("parent.html", "f", "helper").unwrap();
    assert_eq!(origin, "f.html");

    // But the child's namespace map holds only what the child declares:
    // parent macros are not merged in at collection time.
    match collection.lookup_macro("child.html", "f", "helper") {
        Err(MacroError::NamespaceNotFound { namespace, template }) => {
            assert_eq!(namespace, "f");
            assert_eq!(template, "child.html");
        },
        other => panic!("expected NamespaceNotFound, got {:?}", other),
    }
}

#[test]
fn building_twice_is_deterministic() {
    let mut registry = Registry::new();
    let mut f = Template::new("f.html".to_string());
    f.add_macro(mdef("one"));
    f.add_macro(mdef("two"));
    registry.add_template(f);
    let mut t = Template::new("t.html".to_string());
    t.add_macro(mdef("own"));
    t.add_import("f.html".to_string(), "f".to_string());
    t.add_parent("p.html".to_string());
    registry.add_template(t);
    let mut p = Template::new("p.html".to_string());
    p.add_macro(mdef("inherited"));
    registry.add_template(p);

    let c1 = build(&registry, "t.html").unwrap();
    let c2 = build(&registry, "t.html").unwrap();

    assert_eq!(c1.len(), c2.len());
    for name in ["t.html", "f.html", "p.html"] {
        assert_eq!(c1.contains_template(name), c2.contains_template(name));
    }
    for (tpl, ns, m) in [
        ("t.html", "self", "own"),
        ("t.html", "f", "one"),
        ("t.html", "f", "two"),
        ("f.html", "self", "one"),
        ("p.html", "self", "inherited"),
    ] {
        let (o1, d1) = c1.lookup_macro(tpl, ns, m).unwrap();
        let (o2, d2) = c2.lookup_macro(tpl, ns, m).unwrap();
        assert_eq!(o1, o2);
        assert_eq!(d1.name, d2.name);
        assert_eq!(d1.body, d2.body);
    }
}

#[test]
fn unresolved_import_aborts_construction() {
    let mut registry = Registry::new();
    let mut t = Template::new("t.html".to_string());
    t.add_import("missing.html".to_string(), "m".to_string());
    registry.add_template(t);

    match build(&registry, "t.html") {
        Err(MacroError::UnresolvedTemplate { name }) => assert_eq!(name, "missing.html"),
        other => panic!("expected UnresolvedTemplate, got {:?}", other),
    }
}

#[test]
fn unresolved_parent_aborts_construction() {
    let mut registry = Registry::new();
    let mut t = Template::new("t.html".to_string());
    t.add_parent("missing_base.html".to_string());
    registry.add_template(t);

    match build(&registry, "t.html") {
        Err(MacroError::UnresolvedTemplate { name }) => assert_eq!(name, "missing_base.html"),
        other => panic!("expected UnresolvedTemplate, got {:?}", other),
    }
}

#[test]
fn import_cycle_is_reported() {
    let mut registry = Registry::new();
    let mut a = Template::new("a.html".to_string());
    a.add_import("b.html".to_string(), "b".to_string());
    registry.add_template(a);
    let mut b = Template::new("b.html".to_string());
    b.add_import("a.html".to_string(), "a".to_string());
    registry.add_template(b);

    match build(&registry, "a.html") {
        Err(MacroError::CyclicImport { name }) => assert_eq!(name, "a.html"),
        other => panic!("expected CyclicImport, got {:?}", other),
    }
}

#[test]
fn self_import_cycle_is_reported() {
    let mut registry = Registry::new();
    let mut a = Template::new("a.html".to_string());
    a.add_import("a.html".to_string(), "me".to_string());
    registry.add_template(a);

    match build(&registry, "a.html") {
        Err(MacroError::CyclicImport { name }) => assert_eq!(name, "a.html"),
        other => panic!("expected CyclicImport, got {:?}", other),
    }
}

#[test]
fn parent_cycle_still_builds() {
    let mut registry = Registry::new();
    let mut a = Template::new("a.html".to_string());
    a.add_macro(mdef("ma"));
    a.add_parent("b.html".to_string());
    registry.add_template(a);
    let mut b = Template::new("b.html".to_string());
    b.add_macro(mdef("mb"));
    b.add_parent("a.html".to_string());
    registry.add_template(b);

    let collection = build(&registry, "a.html").unwrap();
    assert_eq!(collection.len(), 2);
    let (origin, _) = collection.lookup_macro("b.html", "self", "mb").unwrap();
    assert_eq!(origin, "b.html");
}

#[test]
fn later_import_wins_the_alias() {
    let mut registry = Registry::new();
    let mut f = Template::new("f.html".to_string());
    f.add_macro(mdef("from_f"));
    registry.add_template(f);
    let mut g = Template::new("g.html".to_string());
    g.add_macro(mdef("from_g"));
    registry.add_template(g);
    let mut t = Template::new("t.html".to_string());
    t.add_import("f.html".to_string(), "x".to_string());
    t.add_import("g.html".to_string(), "x".to_string());
    registry.add_template(t);

    let collection = build(&registry, "t.html").unwrap();
    let (origin, _) = collection.lookup_macro("t.html", "x", "from_g").unwrap();
    assert_eq!(origin, "g.html");
    match collection.lookup_macro("t.html", "x", "from_f") {
        Err(MacroError::MacroNotFound { namespace, name, template }) => {
            assert_eq!(namespace, "x");
            assert_eq!(name, "from_f");
            assert_eq!(template, "t.html");
        },
        other => panic!("expected MacroNotFound, got {:?}", other),
    }
    // Both imported files are still indexed at top level.
    assert!(collection.contains_template("f.html"));
    assert!(collection.contains_template("g.html"));
}

#[test]
fn import_alias_can_shadow_self() {
    let mut registry = Registry::new();
    let mut f = Template::new("f.html".to_string());
    f.add_macro(mdef("fm"));
    registry.add_template(f);
    let mut t = Template::new("t.html".to_string());
    t.add_macro(mdef("own"));
    t.add_import("f.html".to_string(), "self".to_string());
    registry.add_template(t);

    let collection = build(&registry, "t.html").unwrap();
    // The import is inserted after the template's own macros, so the
    // alias takes the "self" namespace over.
    let (origin, def) = collection.lookup_macro("t.html", "self", "fm").unwrap();
    assert_eq!(origin, "f.html");
    assert_eq!(def.name, "fm");
    match collection.lookup_macro("t.html", "self", "own") {
        Err(MacroError::MacroNotFound { name, .. }) => assert_eq!(name, "own"),
        other => panic!("expected MacroNotFound, got {:?}", other),
    }
}

#[test]
fn adding_a_second_root_extends_the_collection() {
    let mut registry = Registry::new();
    let mut a = Template::new("a.html".to_string());
    a.add_macro(mdef("ma"));
    registry.add_template(a);
    let mut b = Template::new("b.html".to_string());
    b.add_macro(mdef("mb"));
    registry.add_template(b);

    let mut collection = build(&registry, "a.html").unwrap();
    assert_eq!(collection.len(), 1);
    let b_tpl = registry.get_template("b.html").unwrap();
    collection.add_macros_from_template(&registry, b_tpl).unwrap();
    assert_eq!(collection.len(), 2);
    let (origin, _) = collection.lookup_macro("a.html", "self", "ma").unwrap();
    assert_eq!(origin, "a.html");
    let (origin, _) = collection.lookup_macro("b.html", "self", "mb").unwrap();
    assert_eq!(origin, "b.html");
}

#[test]
fn clone_preserves_the_index() {
    let mut registry = Registry::new();
    let mut f = Template::new("f.html".to_string());
    f.add_macro(mdef("hello"));
    registry.add_template(f);
    let mut t = Template::new("t.html".to_string());
    t.add_import("f.html".to_string(), "f".to_string());
    registry.add_template(t);

    let collection = build(&registry, "t.html").unwrap();
    let copy = collection.clone();
    assert_eq!(copy.len(), collection.len());
    let (origin, def) = copy.lookup_macro("t.html", "f", "hello").unwrap();
    assert_eq!(origin, "f.html");
    assert_eq!(def.name, "hello");
}

#[test]
fn default_collection_is_empty() {
    let collection = MacroCollection::default();
    assert_eq!(collection.len(), 0);
    assert!(!collection.contains_template("a.html"));
}

#[test]
fn deep_inheritance_chain_is_indexed() {
    let mut registry = Registry::new();
    let mut base = Template::new("base.html".to_string());
    base.add_macro(mdef("root_macro"));
    registry.add_template(base);
    let mut mid = Template::new("mid.html".to_string());
    mid.add_parent("base.html".to_string());
    registry.add_template(mid);
    let mut leaf = Template::new("leaf.html".to_string());
    leaf.add_parent("mid.html".to_string());
    registry.add_template(leaf);

    let collection = build(&registry, "leaf.html").unwrap();
    assert_eq!(collection.len(), 3);
    assert!(collection.contains_template("base.html"));
    let (origin, _) = collection.lookup_macro("base.html", "self", "root_macro").unwrap();
    assert_eq!(origin, "base.html");
}
