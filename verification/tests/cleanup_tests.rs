use mngr::cleanup::{artifact_dir_name, clean_snapshot, path_has_segment, should_descend};
use mngr::scan::RelPath;

fn path(segments: &[&str]) -> RelPath {
    RelPath { segments: segments.iter().map(|s| String::from(*s)).collect() }
}

fn rendered(paths: &[RelPath]) -> Vec<String> {
    paths.iter().map(|p| p.joined()).collect()
}

#[test]
fn cleanup_skips_descending_into_the_artifact_directory() {
    let artifact = artifact_dir_name();
    assert_eq!(artifact, "node_modules");
    assert!(should_descend(&String::from("src"), &artifact));
    assert!(should_descend(&String::from("apps"), &artifact));
    assert!(!should_descend(&String::from("node_modules"), &artifact));
}

#[test]
fn path_segment_lookup() {
    let artifact = artifact_dir_name();
    assert!(path_has_segment(&path(&["apps", "web", "node_modules"]), &artifact));
    assert!(path_has_segment(&path(&["node_modules", "lodash"]), &artifact));
    assert!(!path_has_segment(&path(&["apps", "web", "src"]), &artifact));
    assert!(!path_has_segment(&path(&[]), &artifact));
}

#[test]
fn clean_removes_every_artifact_subtree() {
    let artifact = artifact_dir_name();
    let snapshot = vec![
        path(&["apps", "web"]),
        path(&["apps", "web", "node_modules"]),
        path(&["apps", "web", "node_modules", "lodash"]),
        path(&["apps", "web", "src"]),
        path(&["libs", "hello"]),
        path(&["node_modules"]),
    ];
    let cleaned = clean_snapshot(&snapshot, &artifact);
    assert_eq!(
        rendered(&cleaned),
        vec!["apps/web", "apps/web/src", "libs/hello"]
    );
}

#[test]
fn clean_twice_changes_nothing_more() {
    // Deleting artifact directories is idempotent: the second pass finds
    // nothing left to remove and reports no error.
    let artifact = artifact_dir_name();
    let snapshot = vec![
        path(&["apps", "web", "node_modules"]),
        path(&["apps", "web", "src"]),
        path(&["libs", "hello", "node_modules", "x", "y"]),
    ];
    let once = clean_snapshot(&snapshot, &artifact);
    let twice = clean_snapshot(&once, &artifact);
    assert_eq!(rendered(&once), rendered(&twice));
    assert_eq!(rendered(&twice), vec!["apps/web/src"]);
}

#[test]
fn clean_of_a_clean_workspace_is_a_no_op() {
    let artifact = artifact_dir_name();
    let snapshot = vec![path(&["apps", "web"]), path(&["libs", "hello"])];
    let cleaned = clean_snapshot(&snapshot, &artifact);
    assert_eq!(rendered(&cleaned), vec!["apps/web", "libs/hello"]);
    let empty = clean_snapshot(&Vec::new(), &artifact);
    assert!(empty.is_empty());
}
