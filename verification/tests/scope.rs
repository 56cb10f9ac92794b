use diagram_model::cpp_model::Scope;
use diagram_model::scope::{callable_scope_of, namespace_id_of, ParentKind, SemanticParent};

fn parent(kind: ParentKind, name: &str) -> SemanticParent {
    SemanticParent {
        kind,
        name: name.to_string(),
    }
}

#[test]
fn method_of_nested_type_keeps_namespace_and_type_paths_apart() {
    // Innermost first: Inner, Outer, detail, app.
    let parents = vec![
        parent(ParentKind::Type, "Inner"),
        parent(ParentKind::Type, "Outer"),
        parent(ParentKind::Other, "helper"),
        parent(ParentKind::Namespace, "detail"),
        parent(ParentKind::Namespace, "app"),
    ];
    match callable_scope_of(&parents) {
        Scope::Type {
            namespace,
            type_path,
        } => {
            assert_eq!(namespace, vec!["app".to_string(), "detail".to_string()]);
            assert_eq!(type_path, vec!["Outer".to_string(), "Inner".to_string()]);
        }
        other => panic!("expected a type scope, got {:?}", other),
    }
    assert_eq!(namespace_id_of(&parents).as_deref(), Some("app::detail"));
}

#[test]
fn free_function_in_namespace_has_namespace_scope() {
    let parents = vec![
        parent(ParentKind::Namespace, "__1"),
        parent(ParentKind::Namespace, "std"),
    ];
    assert_eq!(
        callable_scope_of(&parents),
        Scope::Namespace(vec!["std".to_string(), "__1".to_string()])
    );
    assert_eq!(namespace_id_of(&parents).as_deref(), Some("std::__1"));
}

#[test]
fn global_function_has_global_scope_and_no_namespace() {
    let parents = vec![parent(ParentKind::Other, "extern_block")];
    assert_eq!(callable_scope_of(&parents), Scope::Global);
    assert_eq!(namespace_id_of(&parents), None);
    assert_eq!(callable_scope_of(&Vec::new()), Scope::Global);
}

#[test]
fn type_at_global_namespace_has_empty_namespace_path() {
    let parents = vec![parent(ParentKind::Type, "Widget")];
    assert_eq!(
        callable_scope_of(&parents),
        Scope::Type {
            namespace: vec![],
            type_path: vec!["Widget".to_string()],
        }
    );
    assert_eq!(namespace_id_of(&parents), None);
}
