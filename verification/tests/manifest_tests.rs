use mngr::WorkspaceError;
use mngr::manifest::{
    RootManifest, SubProject, has_script_key, kind_marker_of, merge_scripts, parse_manifest,
    script_entries, synthesize, synthesize_table,
};
use mngr::scan::RelPath;
use mngr::scripts::ScriptTable;

fn sub(name: &str, dir: &str, scripts: &[(&str, &str)]) -> SubProject {
    SubProject {
        name: String::from(name),
        dir: String::from(dir),
        scripts: scripts
            .iter()
            .map(|(k, v)| (String::from(*k), String::from(*v)))
            .collect(),
    }
}

fn rows(t: &ScriptTable) -> Vec<(String, String)> {
    let mut r = Vec::new();
    let mut i = 0;
    while i < t.len() {
        r.push(t.row(i));
        i += 1;
    }
    r
}

#[test]
fn parse_rejects_ill_formed_manifests() {
    assert!(parse_manifest("{\"scripts\": {\"dev\": \"vite\"}}").is_ok());
    let err = parse_manifest("{not json").unwrap_err();
    assert!(matches!(err, WorkspaceError::ManifestParseError));
}

#[test]
fn scripts_extraction_reads_the_scripts_member() {
    let scripts = script_entries(
        "{\"name\": \"web\", \"scripts\": {\"dev\": \"vite\", \"build\": \"vite build\"}}",
    )
    .unwrap();
    // Entries come out in sorted key order.
    assert_eq!(
        scripts,
        vec![
            (String::from("build"), String::from("vite build")),
            (String::from("dev"), String::from("vite")),
        ]
    );
}

#[test]
fn absent_scripts_member_reads_as_no_entries() {
    assert!(script_entries("{\"name\": \"web\"}").unwrap().is_empty());
}

#[test]
fn scripts_extraction_rejects_ill_formed_text() {
    let err = script_entries("{broken").unwrap_err();
    assert!(matches!(err, WorkspaceError::ManifestParseError));
}

#[test]
fn kind_marker_extraction() {
    let npm = parse_manifest("{\"project\": {\"kind\": \"npm\"}}").unwrap();
    assert_eq!(kind_marker_of(&npm), Some(String::from("npm")));
    let plain = parse_manifest("{\"name\": \"web\"}").unwrap();
    assert_eq!(kind_marker_of(&plain), None);
}

#[test]
fn synthesis_fails_without_a_template() {
    let err = synthesize(None, &Vec::new(), &Vec::new(), &Vec::new()).unwrap_err();
    assert!(matches!(err, WorkspaceError::TemplateMissing));
    let content = String::from("{\"name\": \"root\"}");
    assert!(synthesize(Some(&content), &Vec::new(), &Vec::new(), &Vec::new()).is_ok());
    let bad = String::from("{broken");
    let err = synthesize(Some(&bad), &Vec::new(), &Vec::new(), &Vec::new()).unwrap_err();
    assert!(matches!(err, WorkspaceError::ManifestParseError));
}

#[test]
fn merge_scripts_namespaces_a_manifest_into_the_table() {
    let mut table = ScriptTable::new();
    let manifest_path = RelPath::subproject_manifest("apps", "web", "package.json");
    let content = String::from("{\"scripts\": {\"dev\": \"vite\"}}");
    merge_scripts(&mut table, &manifest_path, &String::from("web"), Some(&content)).unwrap();
    assert_eq!(
        rows(&table),
        vec![(String::from("web:dev"), String::from("cd apps/web && vite"))]
    );
}

#[test]
fn merge_scripts_skips_an_absent_manifest() {
    let mut table = ScriptTable::new();
    let manifest_path = RelPath::subproject_manifest("apps", "web", "package.json");
    merge_scripts(&mut table, &manifest_path, &String::from("web"), None).unwrap();
    assert_eq!(table.len(), 0);
}

#[test]
fn merge_scripts_surfaces_parse_and_path_errors() {
    let mut table = ScriptTable::new();
    let manifest_path = RelPath::subproject_manifest("apps", "web", "package.json");
    let bad = String::from("{broken");
    let err = merge_scripts(&mut table, &manifest_path, &String::from("web"), Some(&bad))
        .unwrap_err();
    assert!(matches!(err, WorkspaceError::ManifestParseError));

    let bare = RelPath { segments: vec![String::from("package.json")] };
    let content = String::from("{\"scripts\": {}}");
    let err = merge_scripts(&mut table, &bare, &String::from("web"), Some(&content)).unwrap_err();
    assert!(matches!(err, WorkspaceError::InvalidManifestPath));
    assert_eq!(table.len(), 0);
}

#[test]
fn workspace_scenario_builds_the_expected_table() {
    // Workspace: libs/hello with {build: tsc}, apps/web with {dev: vite},
    // empty exclusion list.
    let apps = vec![sub("web", "apps/web", &[("dev", "vite")])];
    let libs = vec![sub("libs", "libs/hello", &[("build", "tsc")])];
    let table = synthesize_table(&apps, &libs, &Vec::new()).unwrap();
    let got = rows(&table);
    assert_eq!(got.len(), 3);
    assert_eq!(got[0], (String::from("web:dev"), String::from("cd apps/web && vite")));
    assert_eq!(got[1], (String::from("libs:build"), String::from("cd libs/hello && tsc")));
    // The aggregate dev script runs the libraries and every app.
    assert_eq!(
        got[2],
        (
            String::from("dev"),
            String::from("concurrently \"npm run libs:dev\" \"npm run web:dev\"")
        )
    );
}

#[test]
fn aggregate_dev_script_honors_the_exclusion_list() {
    // The excluded app declares a dev script, yet the aggregate never
    // runs it.
    let apps = vec![
        sub("web", "apps/web", &[("dev", "vite")]),
        sub("web-e2e", "apps/web-e2e", &[("dev", "playwright")]),
    ];
    let exclude = vec![String::from("web-e2e")];
    let table = synthesize_table(&apps, &Vec::new(), &exclude).unwrap();
    let got = rows(&table);
    let dev = got.iter().find(|r| r.0 == "dev").expect("aggregate dev row");
    assert_eq!(dev.1, "concurrently \"npm run libs:dev\" \"npm run web:dev\"");
    assert!(!dev.1.contains("web-e2e"));
}

#[test]
fn watch_aggregate_appears_only_when_an_app_qualifies() {
    let apps = vec![
        sub("web", "apps/web", &[("dev", "vite"), ("test:watch", "jest --watch")]),
        sub("admin", "apps/admin", &[("dev", "vite")]),
    ];
    let table = synthesize_table(&apps, &Vec::new(), &Vec::new()).unwrap();
    let got = rows(&table);
    let watch = got.iter().find(|r| r.0 == "test:watch").expect("watch aggregate row");
    assert_eq!(watch.1, "npm-run-all --parallel web:test:watch");

    // When the only qualifying app is excluded, no watch aggregate is added.
    let exclude = vec![String::from("web")];
    let table = synthesize_table(&apps, &Vec::new(), &exclude).unwrap();
    assert!(rows(&table).iter().all(|r| r.0 != "test:watch"));
}

#[test]
fn colliding_sub_project_names_are_surfaced() {
    let apps = vec![
        sub("web", "apps/web", &[("dev", "vite")]),
        sub("web", "apps/web-copy", &[("dev", "next dev")]),
    ];
    let err = synthesize_table(&apps, &Vec::new(), &Vec::new()).unwrap_err();
    match err {
        WorkspaceError::DuplicateScriptKey(k) => assert_eq!(k, "web:dev"),
        other => panic!("unexpected error: {:?}", other),
    }
}

#[test]
fn has_script_key_checks_the_declared_scripts() {
    let s = sub("web", "apps/web", &[("dev", "vite"), ("test:watch", "jest --watch")]);
    assert!(has_script_key(&s, &String::from("test:watch")));
    assert!(!has_script_key(&s, &String::from("lint")));
}

#[test]
fn synthesis_replaces_only_the_scripts_member() {
    // Round trip on a workspace with zero sub-projects: the rendered
    // manifest is the template with an aggregate-only scripts member and
    // nothing else changed.
    let template = String::from(
        "{\"name\": \"root\", \"version\": \"1.0.0\", \"private\": true, \
         \"dependencies\": {\"lodash\": \"^4.0.0\"}, \
         \"scripts\": {\"stale\": \"echo old\"}}",
    );
    let manifest = synthesize(Some(&template), &Vec::new(), &Vec::new(), &Vec::new()).unwrap();
    let rendered = manifest.render().unwrap();
    let reread: serde_json::Value = serde_json::from_str(&rendered).unwrap();
    assert_eq!(reread.get("name").and_then(|v| v.as_str()), Some("root"));
    assert_eq!(reread.get("version").and_then(|v| v.as_str()), Some("1.0.0"));
    assert_eq!(reread.get("private").and_then(|v| v.as_bool()), Some(true));
    assert_eq!(
        reread
            .get("dependencies")
            .and_then(|d| d.get("lodash"))
            .and_then(|v| v.as_str()),
        Some("^4.0.0")
    );
    let scripts = reread.get("scripts").and_then(|s| s.as_object()).unwrap();
    assert_eq!(scripts.len(), 1);
    assert_eq!(
        scripts.get("dev").and_then(|v| v.as_str()),
        Some("concurrently \"npm run libs:dev\"")
    );
}

#[test]
fn rendering_an_ill_formed_template_is_a_parse_error() {
    let manifest = RootManifest { template: String::from("{broken"), scripts: ScriptTable::new() };
    assert!(matches!(manifest.render().unwrap_err(), WorkspaceError::ManifestParseError));
}

#[test]
fn repeated_synthesis_with_unchanged_inputs_is_identical() {
    let template = String::from("{\"name\": \"root\"}");
    let apps = vec![sub("web", "apps/web", &[("dev", "vite")])];
    let first = synthesize(Some(&template), &apps, &Vec::new(), &Vec::new()).unwrap();
    let second = synthesize(Some(&template), &apps, &Vec::new(), &Vec::new()).unwrap();
    assert_eq!(first.template, second.template);
    assert_eq!(first.render().unwrap(), second.render().unwrap());
}
