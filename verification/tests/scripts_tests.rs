use mngr::WorkspaceError;
use mngr::scripts::{ScriptTable, namespace_key, rewrite_command};

#[test]
fn namespace_key_joins_prefix_and_name() {
    assert_eq!(namespace_key("web", "dev"), "web:dev");
    assert_eq!(namespace_key("my-app", "start"), "my-app:start");
    assert_eq!(namespace_key("", "build"), ":build");
}

#[test]
fn rewrite_command_changes_directory_first() {
    assert_eq!(rewrite_command("apps/web", "vite"), "cd apps/web && vite");
    assert_eq!(rewrite_command("libs/hello", "tsc"), "cd libs/hello && tsc");
    assert_eq!(rewrite_command("apps/my-app", ""), "cd apps/my-app && ");
}

#[test]
fn table_insert_and_lookup() {
    let mut t = ScriptTable::new();
    assert_eq!(t.len(), 0);
    t.insert(String::from("web:dev"), String::from("cd apps/web && vite"))
        .expect("fresh key inserts");
    assert_eq!(t.len(), 1);
    assert!(t.contains_key(&String::from("web:dev")));
    assert!(!t.contains_key(&String::from("web:build")));
    let row = t.row(0);
    assert_eq!(row.0, "web:dev");
    assert_eq!(row.1, "cd apps/web && vite");
}

#[test]
fn table_refuses_duplicate_key() {
    let mut t = ScriptTable::new();
    t.insert(String::from("web:dev"), String::from("a")).unwrap();
    let err = t.insert(String::from("web:dev"), String::from("b")).unwrap_err();
    match err {
        WorkspaceError::DuplicateScriptKey(k) => assert_eq!(k, "web:dev"),
        other => panic!("unexpected error: {:?}", other),
    }
    // The collision was surfaced, not silently overwritten.
    assert_eq!(t.len(), 1);
    assert_eq!(t.row(0).1, "a");
}

#[test]
fn merge_pairs_namespaces_every_script() {
    let mut t = ScriptTable::new();
    let scripts = vec![
        (String::from("dev"), String::from("vite")),
        (String::from("build"), String::from("vite build")),
    ];
    t.merge_pairs(&String::from("web"), &String::from("apps/web"), &scripts)
        .expect("no collisions");
    assert_eq!(t.len(), 2);
    assert_eq!(t.row(0).0, "web:dev");
    assert_eq!(t.row(0).1, "cd apps/web && vite");
    assert_eq!(t.row(1).0, "web:build");
    assert_eq!(t.row(1).1, "cd apps/web && vite build");
}

#[test]
fn merge_pairs_surfaces_collision_and_keeps_table() {
    let mut t = ScriptTable::new();
    t.insert(String::from("web:dev"), String::from("old")).unwrap();
    let scripts = vec![
        (String::from("build"), String::from("vite build")),
        (String::from("dev"), String::from("vite")),
    ];
    let err = t
        .merge_pairs(&String::from("web"), &String::from("apps/web"), &scripts)
        .unwrap_err();
    assert!(matches!(err, WorkspaceError::DuplicateScriptKey(_)));
    // On failure the table is unchanged: no half-merged rows.
    assert_eq!(t.len(), 1);
    assert_eq!(t.row(0).1, "old");
}

#[test]
fn merge_pairs_refuses_duplicate_within_one_manifest() {
    let mut t = ScriptTable::new();
    let scripts = vec![
        (String::from("dev"), String::from("a")),
        (String::from("dev"), String::from("b")),
    ];
    let err = t
        .merge_pairs(&String::from("web"), &String::from("apps/web"), &scripts)
        .unwrap_err();
    assert!(matches!(err, WorkspaceError::DuplicateScriptKey(_)));
    assert_eq!(t.len(), 0);
}

#[test]
fn error_messages_name_the_failure() {
    assert_eq!(
        WorkspaceError::DuplicateScriptKey(String::from("web:dev")).message(),
        "duplicate script key: web:dev"
    );
    assert_eq!(WorkspaceError::RootNotFound.message(), "cannot find workspace root");
    assert_eq!(WorkspaceError::TemplateMissing.message(), "template manifest not found");
    assert_eq!(WorkspaceError::InvalidManifestPath.message(), "invalid manifest path");
    assert_eq!(WorkspaceError::ManifestParseError.message(), "manifest is not well-formed");
}
