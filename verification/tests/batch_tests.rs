use mngr::batch::{
    BatchReport, OpOutcome, all_checks_passed, install_plan, is_installable, summarize,
    worker_count,
};

fn outcome(name: &str, o: OpOutcome) -> (String, OpOutcome) {
    (String::from(name), o)
}

#[test]
fn batch_reports_exact_counts_with_failures_in_the_middle() {
    // Five items, two engineered to fail: exactly 3 successes and 2
    // enumerated failures, and every item is attempted.
    let results = vec![
        outcome("a", OpOutcome::Succeeded),
        outcome("b", OpOutcome::Failed(String::from("exit status 1"))),
        outcome("c", OpOutcome::Succeeded),
        outcome("d", OpOutcome::Failed(String::from("exit status 2"))),
        outcome("e", OpOutcome::Succeeded),
    ];
    let r: BatchReport = summarize(&results);
    assert_eq!(r.total, 5);
    assert_eq!(r.succeeded, 3);
    assert_eq!(r.skipped, 0);
    assert_eq!(r.failures.len(), 2);
    assert_eq!(r.failures[0].0, "b");
    assert_eq!(r.failures[0].1, "exit status 1");
    assert_eq!(r.failures[1].0, "d");
    assert_eq!(r.failures[1].1, "exit status 2");
    assert!(!r.is_success());
}

#[test]
fn batch_failures_first_and_last_are_still_counted() {
    let results = vec![
        outcome("first", OpOutcome::Failed(String::from("boom"))),
        outcome("mid", OpOutcome::Succeeded),
        outcome("last", OpOutcome::Failed(String::from("bang"))),
    ];
    let r = summarize(&results);
    assert_eq!(r.total, 3);
    assert_eq!(r.succeeded, 1);
    assert_eq!(r.failures.len(), 2);
    assert_eq!(r.failures[0].0, "first");
    assert_eq!(r.failures[1].0, "last");
}

#[test]
fn batch_with_no_failures_succeeds() {
    let results = vec![
        outcome("a", OpOutcome::Succeeded),
        outcome("b", OpOutcome::Skipped),
        outcome("c", OpOutcome::Succeeded),
    ];
    let r = summarize(&results);
    assert_eq!(r.total, 3);
    assert_eq!(r.succeeded, 2);
    assert_eq!(r.skipped, 1);
    assert!(r.failures.is_empty());
    assert!(r.is_success());
}

#[test]
fn empty_batch_succeeds_trivially() {
    let r = summarize(&Vec::new());
    assert_eq!(r.total, 0);
    assert_eq!(r.succeeded, 0);
    assert_eq!(r.skipped, 0);
    assert!(r.is_success());
}

#[test]
fn worker_pool_leaves_one_processor_free_but_never_starves() {
    assert_eq!(worker_count(0), 1);
    assert_eq!(worker_count(1), 1);
    assert_eq!(worker_count(2), 1);
    assert_eq!(worker_count(8), 7);
}

#[test]
fn install_plan_orders_libraries_before_apps() {
    let libs = vec![String::from("hello"), String::from("util")];
    let apps = vec![String::from("web"), String::from("admin")];
    let plan = install_plan("libs", &libs, "apps", &apps);
    let rendered: Vec<String> = plan.iter().map(|p| p.joined()).collect();
    assert_eq!(
        rendered,
        vec!["libs/hello", "libs/util", "apps/web", "apps/admin"]
    );
}

#[test]
fn installable_rule_permissive_needs_only_a_manifest() {
    assert!(is_installable(true, &None, false));
    assert!(!is_installable(false, &None, false));
    assert!(is_installable(true, &Some(String::from("deno")), false));
}

#[test]
fn installable_rule_strict_needs_the_npm_kind_marker() {
    assert!(is_installable(true, &Some(String::from("npm")), true));
    assert!(!is_installable(true, &Some(String::from("deno")), true));
    assert!(!is_installable(true, &None, true));
    assert!(!is_installable(false, &Some(String::from("npm")), true));
}

#[test]
fn doctor_checks_pass_only_when_every_tool_is_present() {
    assert!(all_checks_passed(&vec![true, true, true]));
    assert!(!all_checks_passed(&vec![true, false, true]));
    assert!(all_checks_passed(&Vec::new()));
}
