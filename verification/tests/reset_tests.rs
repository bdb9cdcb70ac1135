use mngr::batch::{OpOutcome, summarize};
use mngr::manifest::synthesize_table;
use mngr::reset::{ResetPhase, next_phase};
use mngr::scan::RelPath;
use mngr::cleanup::{artifact_dir_name, clean_snapshot};

#[test]
fn reset_advances_through_the_fixed_sequence() {
    let p = ResetPhase::RemoveManifest;
    let p = next_phase(&p, true);
    assert_eq!(p, ResetPhase::ClearArtifacts);
    let p = next_phase(&p, true);
    assert_eq!(p, ResetPhase::Synthesize);
    let p = next_phase(&p, true);
    assert_eq!(p, ResetPhase::InstallLibs);
    let p = next_phase(&p, true);
    assert_eq!(p, ResetPhase::InstallApps);
    let p = next_phase(&p, true);
    assert_eq!(p, ResetPhase::Done);
    assert_eq!(next_phase(&p, true), ResetPhase::Done);
}

#[test]
fn a_failing_step_abandons_the_rest() {
    let p = next_phase(&ResetPhase::Synthesize, false);
    assert_eq!(p, ResetPhase::Stopped);
    assert_eq!(next_phase(&p, true), ResetPhase::Stopped);
    assert_eq!(next_phase(&ResetPhase::RemoveManifest, false), ResetPhase::Stopped);
}

#[test]
fn reset_on_an_empty_workspace_completes() {
    // No manifest and no artifact directories: every deletion is a no-op,
    // synthesis succeeds with the aggregate-only table, and the install
    // batches are empty and successful.
    let artifact = artifact_dir_name();
    let snapshot: Vec<RelPath> = Vec::new();
    let cleaned = clean_snapshot(&snapshot, &artifact);
    assert!(cleaned.is_empty());

    let table = synthesize_table(&Vec::new(), &Vec::new(), &Vec::new()).unwrap();
    assert_eq!(table.len(), 1);
    let dev = table.row(0);
    assert_eq!(dev.0, "dev");
    assert_eq!(dev.1, "concurrently \"npm run libs:dev\"");

    let installs = summarize(&Vec::<(String, OpOutcome)>::new());
    assert!(installs.is_success());

    let mut p = ResetPhase::RemoveManifest;
    for _ in 0..5 {
        p = next_phase(&p, true);
    }
    assert_eq!(p, ResetPhase::Done);
}
