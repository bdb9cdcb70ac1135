//! Bulk operation accounting. A batch runs one external operation per
//! sub-project; each item independently ends skipped, succeeded or failed,
//! and a failure never blocks the other items. The library decides which
//! items are eligible, sizes the worker pool, fixes the install order, and
//! turns the per-item outcomes into the batch report.

use vstd::prelude::*;
use crate::scan::RelPath;
use crate::scripts::{pair_views, views_of};

verus! {

use vstd::string::StringExecFns;

/// How one item of a batch ended.
pub enum OpOutcome {
    /// The item was not an eligible project and was not operated on.
    Skipped,
    /// The external operation finished successfully.
    Succeeded,
    /// The external operation failed; the payload is its error detail.
    Failed(String),
}

/// How many outcomes succeeded.
pub open spec fn succeeded_count(rs: Seq<(String, OpOutcome)>) -> int
    decreases rs.len(),
{
    if rs.len() == 0 {
        0
    } else {
        succeeded_count(rs.drop_last()) + (if rs.last().1 is Succeeded {
            1int
        } else {
            0int
        })
    }
}

/// How many outcomes were skipped.
pub open spec fn skipped_count(rs: Seq<(String, OpOutcome)>) -> int
    decreases rs.len(),
{
    if rs.len() == 0 {
        0
    } else {
        skipped_count(rs.drop_last()) + (if rs.last().1 is Skipped {
            1int
        } else {
            0int
        })
    }
}

/// How many outcomes failed.
pub open spec fn failed_count(rs: Seq<(String, OpOutcome)>) -> int
    decreases rs.len(),
{
    if rs.len() == 0 {
        0
    } else {
        failed_count(rs.drop_last()) + (if rs.last().1 is Failed {
            1int
        } else {
            0int
        })
    }
}

/// The failure row an outcome contributes: the item's identity and the
/// error detail, or nothing.
pub open spec fn failure_rows_of(name: Seq<char>, o: OpOutcome) -> Seq<(Seq<char>, Seq<char>)> {
    match o {
        OpOutcome::Failed(d) => seq![(name, d@)],
        _ => Seq::<(Seq<char>, Seq<char>)>::empty(),
    }
}

/// The (item, detail) rows of all failed outcomes, in batch order.
pub open spec fn failures_spec(rs: Seq<(String, OpOutcome)>) -> Seq<(Seq<char>, Seq<char>)>
    decreases rs.len(),
{
    if rs.len() == 0 {
        Seq::empty()
    } else {
        failures_spec(rs.drop_last()) + failure_rows_of(rs.last().0@, rs.last().1)
    }
}

/// The report of a whole batch: every item was attempted, failures are
/// enumerated, and the batch as a whole succeeded only if none failed.
pub struct BatchReport {
    /// How many items the batch held.
    pub total: usize,
    /// How many items succeeded.
    pub succeeded: usize,
    /// How many items were skipped.
    pub skipped: usize,
    /// One (item, error detail) row per failed item, in batch order.
    pub failures: Vec<(String, String)>,
}

impl BatchReport {
    /// The batch succeeded as a whole: no item failed.
    pub open spec fn is_success_spec(&self) -> bool {
        self.failures@.len() == 0
    }

    /// Whether the batch succeeded as a whole.
    pub fn is_success(&self) -> (r: bool)
        ensures
            r == self.is_success_spec(),
    {
        self.failures.len() == 0
    }
}

/// Every count of the report is non-negative and they partition the batch.
pub proof fn lemma_batch_counts(rs: Seq<(String, OpOutcome)>)
    ensures
        0 <= succeeded_count(rs),
        0 <= skipped_count(rs),
        0 <= failed_count(rs),
        succeeded_count(rs) + skipped_count(rs) + failed_count(rs) == rs.len(),
        failures_spec(rs).len() == failed_count(rs),
    decreases rs.len(),
{
    if rs.len() > 0 {
        lemma_batch_counts(rs.drop_last());
    }
}

/// Partial-failure tolerance: in a batch of N items where K fail and none
/// is skipped, exactly N - K succeed, exactly K failures are enumerated,
/// and every item carries an outcome, wherever the failures sit.
pub proof fn lemma_partial_failure_accounting(rs: Seq<(String, OpOutcome)>)
    requires
        skipped_count(rs) == 0,
    ensures
        succeeded_count(rs) == rs.len() - failed_count(rs),
        failures_spec(rs).len() == failed_count(rs),
{
    lemma_batch_counts(rs);
}

/// Summarizes the per-item outcomes of a batch into its report.
pub fn summarize(results: &Vec<(String, OpOutcome)>) -> (r: BatchReport)
    ensures
        r.total == results@.len(),
        r.succeeded == succeeded_count(results@),
        r.skipped == skipped_count(results@),
        pair_views(r.failures@) == failures_spec(results@),
        r.is_success_spec() <==> failed_count(results@) == 0,
{
    let mut succeeded: usize = 0;
    let mut skipped: usize = 0;
    let mut failures: Vec<(String, String)> = Vec::new();
    proof {
        assert(pair_views(failures@) =~= failures_spec(results@.take(0)));
        lemma_batch_counts(results@);
    }
    let mut i: usize = 0;
    while i < results.len()
        invariant
            i <= results@.len(),
            succeeded == succeeded_count(results@.take(i as int)),
            skipped == skipped_count(results@.take(i as int)),
            pair_views(failures@) == failures_spec(results@.take(i as int)),
            succeeded + skipped + failures@.len() == i,
            pair_views(failures@).len() == failures@.len(),
        decreases results@.len() - i,
    {
        proof {
            assert(results@.take(i + 1).drop_last() =~= results@.take(i as int));
            assert(results@.take(i + 1).last() == results@[i as int]);
        }
        match &results[i].1 {
            OpOutcome::Succeeded => {
                succeeded += 1;
                proof {
                    assert(failures_spec(results@.take(i + 1)) =~= pair_views(failures@));
                }
            },
            OpOutcome::Skipped => {
                skipped += 1;
                proof {
                    assert(failures_spec(results@.take(i + 1)) =~= pair_views(failures@));
                }
            },
            OpOutcome::Failed(d) => {
                let ghost prior = failures@;
                failures.push((results[i].0.clone(), d.clone()));
                proof {
                    assert(pair_views(failures@)
                        =~= pair_views(prior).push((results@[i as int].0@, results@[i as int].1->Failed_0@)));
                    assert(pair_views(failures@) =~= failures_spec(results@.take(i + 1)));
                }
            },
        }
        i += 1;
    }
    proof {
        assert(results@.take(results@.len() as int) =~= results@);
        lemma_batch_counts(results@);
    }
    BatchReport { total: results.len(), succeeded, skipped, failures }
}

/// Sizes the bounded worker pool: all detected processors but one, and
/// always at least one worker.
pub fn worker_count(cpu_count: usize) -> (r: usize)
    ensures
        cpu_count <= 1 ==> r == 1,
        cpu_count > 1 ==> r == cpu_count - 1,
        r >= 1,
{
    if cpu_count <= 1 {
        1
    } else {
        cpu_count - 1
    }
}

/// The directories of one collection's install items, in listing order.
pub open spec fn plan_spec(collection: Seq<char>, names: Seq<Seq<char>>) -> Seq<Seq<Seq<char>>> {
    names.map_values(|n: Seq<char>| seq![collection, n])
}

/// Lays out one install pass: every library sub-project first, in listing
/// order, then every app sub-project. Libraries install strictly before
/// apps; within a collection no order is promised to the executor.
pub fn install_plan(
    libs_dir: &str,
    libs: &Vec<String>,
    apps_dir: &str,
    apps: &Vec<String>,
) -> (r: Vec<RelPath>)
    ensures
        r@.len() == libs@.len() + apps@.len(),
        forall|i: int|
            0 <= i < libs@.len() ==> #[trigger] r@[i]@ == plan_spec(libs_dir@, views_of(libs@))[i],
        forall|j: int|
            libs@.len() <= j < r@.len()
                ==> #[trigger] r@[j]@ == plan_spec(apps_dir@, views_of(apps@))[j - libs@.len()],
    {
    let mut r: Vec<RelPath> = Vec::new();
    let mut i: usize = 0;
    while i < libs.len()
        invariant
            i <= libs@.len(),
            r@.len() == i,
            forall|k: int|
                0 <= k < i ==> #[trigger] r@[k]@ == plan_spec(libs_dir@, views_of(libs@))[k],
        decreases libs@.len() - i,
    {
        let p = RelPath::subproject_dir(libs_dir, libs[i].as_str());
        r.push(p);
        proof {
            assert(views_of(libs@)[i as int] == libs@[i as int]@);
        }
        i += 1;
    }
    let mut j: usize = 0;
    while j < apps.len()
        invariant
            j <= apps@.len(),
            r@.len() == libs@.len() + j,
            forall|k: int|
                0 <= k < libs@.len() ==> #[trigger] r@[k]@ == plan_spec(libs_dir@, views_of(libs@))[k],
            forall|k: int|
                libs@.len() <= k < r@.len()
                    ==> #[trigger] r@[k]@ == plan_spec(apps_dir@, views_of(apps@))[k - libs@.len()],
        decreases apps@.len() - j,
    {
        let p = RelPath::subproject_dir(apps_dir, apps[j].as_str());
        r.push(p);
        proof {
            assert(views_of(apps@)[j as int] == apps@[j as int]@);
        }
        j += 1;
    }
    r
}

/// In the install plan, every library item stands before every app item:
/// the fixed cross-collection ordering the later phases rely on.
pub proof fn lemma_install_order(
    libs_dir: Seq<char>,
    libs: Seq<Seq<char>>,
    apps_dir: Seq<char>,
    apps: Seq<Seq<char>>,
)
    ensures
        forall|i: int, j: int|
            0 <= i < libs.len() && 0 <= j < apps.len()
                ==> (#[trigger] plan_spec(libs_dir, libs)[i])[0] == libs_dir
                    && (#[trigger] plan_spec(apps_dir, apps)[j])[0] == apps_dir,
{
    assert forall|i: int, j: int| 0 <= i < libs.len() && 0 <= j < apps.len()
        implies (#[trigger] plan_spec(libs_dir, libs)[i])[0] == libs_dir
            && (#[trigger] plan_spec(apps_dir, apps)[j])[0] == apps_dir
    by {
        assert(plan_spec(libs_dir, libs)[i] == seq![libs_dir, libs[i]]);
        assert(plan_spec(apps_dir, apps)[j] == seq![apps_dir, apps[j]]);
    }
}

/// Whether a sub-project is an installable project under the configured
/// rule: a manifest must be present, and under the stricter rule the
/// manifest's kind marker must also name an npm project.
pub fn is_installable(has_manifest: bool, kind: &Option<String>, require_kind: bool) -> (r: bool)
    ensures
        !require_kind ==> r == has_manifest,
        require_kind ==> r == (has_manifest && (kind matches Some(k) && k@ == "npm"@)),
{
    if !has_manifest {
        return false;
    }
    if !require_kind {
        return true;
    }
    match kind {
        Some(k) => {
            let npm = String::from_str("npm");
            k.eq(&npm)
        },
        None => false,
    }
}

/// Whether every environment check passed.
pub fn all_checks_passed(results: &Vec<bool>) -> (r: bool)
    ensures
        r <==> (forall|i: int| 0 <= i < results@.len() ==> results@[i]),
{
    let mut i: usize = 0;
    while i < results.len()
        invariant
            i <= results@.len(),
            forall|j: int| 0 <= j < i ==> results@[j],
        decreases results@.len() - i,
    {
        if !results[i] {
            return false;
        }
        i += 1;
    }
    true
}

} // verus!
