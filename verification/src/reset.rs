//! Reset sequencing. A reset tears the workspace down and rebuilds it:
//! delete the generated root manifest (absence is not an error), clear the
//! artifact directories, then run the full initialization pipeline —
//! synthesize the manifest, install the libraries, install the apps. Any
//! failing step aborts the remaining steps; the outside work of each step
//! is performed by the caller, which reports each step's outcome back.

use vstd::prelude::*;

verus! {

/// The steps of a reset, in their fixed order, plus the two final states.
#[derive(PartialEq, Eq, Structural, Clone, Copy, Debug)]
pub enum ResetPhase {
    /// Delete the generated root manifest if it exists.
    RemoveManifest,
    /// Delete the artifact directories under the root and both collections.
    ClearArtifacts,
    /// Synthesize and write the root manifest afresh.
    Synthesize,
    /// Install every library sub-project.
    InstallLibs,
    /// Install every app sub-project.
    InstallApps,
    /// The reset completed.
    Done,
    /// A step failed; the remaining steps were abandoned.
    Stopped,
}

/// The phase that follows one completed step: success advances the fixed
/// sequence, failure abandons the rest; the final states absorb.
pub open spec fn next_phase_spec(p: ResetPhase, step_ok: bool) -> ResetPhase {
    match p {
        ResetPhase::Done => ResetPhase::Done,
        ResetPhase::Stopped => ResetPhase::Stopped,
        _ => if step_ok {
            match p {
                ResetPhase::RemoveManifest => ResetPhase::ClearArtifacts,
                ResetPhase::ClearArtifacts => ResetPhase::Synthesize,
                ResetPhase::Synthesize => ResetPhase::InstallLibs,
                ResetPhase::InstallLibs => ResetPhase::InstallApps,
                _ => ResetPhase::Done,
            }
        } else {
            ResetPhase::Stopped
        },
    }
}

/// Advances the reset by one step, given whether that step succeeded.
pub fn next_phase(p: &ResetPhase, step_ok: bool) -> (r: ResetPhase)
    ensures
        r == next_phase_spec(*p, step_ok),
{
    match p {
        ResetPhase::Done => ResetPhase::Done,
        ResetPhase::Stopped => ResetPhase::Stopped,
        ResetPhase::RemoveManifest => if step_ok {
            ResetPhase::ClearArtifacts
        } else {
            ResetPhase::Stopped
        },
        ResetPhase::ClearArtifacts => if step_ok {
            ResetPhase::Synthesize
        } else {
            ResetPhase::Stopped
        },
        ResetPhase::Synthesize => if step_ok {
            ResetPhase::InstallLibs
        } else {
            ResetPhase::Stopped
        },
        ResetPhase::InstallLibs => if step_ok {
            ResetPhase::InstallApps
        } else {
            ResetPhase::Stopped
        },
        ResetPhase::InstallApps => if step_ok {
            ResetPhase::Done
        } else {
            ResetPhase::Stopped
        },
    }
}

/// A failure at any running step abandons the remaining steps for good:
/// the machine stops and stays stopped.
pub proof fn lemma_failure_aborts(p: ResetPhase, later_ok: bool)
    requires
        !(p is Done),
    ensures
        next_phase_spec(p, false) == ResetPhase::Stopped,
        next_phase_spec(next_phase_spec(p, false), later_ok) == ResetPhase::Stopped,
{
}

/// Five successful steps run a reset from its start to completion, in the
/// fixed order: teardown, cleanup, synthesis, library installs, app
/// installs.
pub proof fn lemma_reset_runs_to_done()
    ensures
        next_phase_spec(
            next_phase_spec(
                next_phase_spec(
                    next_phase_spec(
                        next_phase_spec(ResetPhase::RemoveManifest, true),
                        true,
                    ),
                    true,
                ),
                true,
            ),
            true,
        ) == ResetPhase::Done,
{
}

} // verus!
