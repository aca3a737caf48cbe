//! Advisory file-lock protocol: the decision core of a named,
//! timeout-bounded, stale-reclaiming mutual-exclusion primitive built on
//! exclusive file creation.
//!
//! The runner that touches the filesystem attempts an exclusive create,
//! reports what it observed, and follows the step this module decides:
//! reclaim a stale marker, back off and retry, give up at timeout, or
//! stop once the marker was created.

use vstd::prelude::*;
use crate::strutil::concat2;

verus! {

/// A marker older than this many milliseconds is treated as abandoned
/// by a crashed process and reclaimed.
pub const STALE_LOCK_MS: u64 = 30000;

/// Fixed backoff between acquisition attempts, in milliseconds.
pub const LOCK_POLL_MS: u64 = 100;

/// What one exclusive-creation attempt on the marker observed.
pub enum LockObservation {
    /// The marker did not exist and was created: the lock is ours.
    Created,
    /// The marker already exists; its age in milliseconds, where the
    /// filesystem could report it.
    Held { age_ms: Option<u64> },
    /// Creation failed for a reason other than the marker existing.
    Failed(String),
}

/// What the runner must do next.
pub enum LockStep {
    /// Stop: the lock is held.
    Acquired,
    /// Delete the stale marker and attempt creation again at once.
    Reclaim,
    /// Wait `LOCK_POLL_MS` and attempt creation again.
    Backoff,
    /// Give up: acquisition returns without the lock.
    TimedOut,
    /// Surface the unexpected error.
    Fail(String),
}

/// The acquisition policy. The staleness test comes before the timeout
/// test: an abandoned marker is reclaimed even on the last attempt.
pub open spec fn spec_acquire_step(
    obs: LockObservation,
    elapsed_ms: u64,
    timeout_ms: u64,
) -> LockStep {
    match obs {
        LockObservation::Created => LockStep::Acquired,
        LockObservation::Held { age_ms } => if age_ms is Some && age_ms->0 > STALE_LOCK_MS {
            LockStep::Reclaim
        } else if elapsed_ms > timeout_ms {
            LockStep::TimedOut
        } else {
            LockStep::Backoff
        },
        LockObservation::Failed(e) => LockStep::Fail(e),
    }
}

/// Decide the next step of one acquisition attempt.
pub fn acquire_step(obs: LockObservation, elapsed_ms: u64, timeout_ms: u64) -> (r: LockStep)
    ensures
        r == spec_acquire_step(obs, elapsed_ms, timeout_ms),
{
    match obs {
        LockObservation::Created => LockStep::Acquired,
        LockObservation::Held { age_ms } => {
            let stale = match age_ms {
                Some(age) => age > STALE_LOCK_MS,
                None => false,
            };
            if stale {
                LockStep::Reclaim
            } else if elapsed_ms > timeout_ms {
                LockStep::TimedOut
            } else {
                LockStep::Backoff
            }
        },
        LockObservation::Failed(e) => LockStep::Fail(e),
    }
}

/// The sibling marker file that guards `path`.
pub fn lock_marker_path(path: &str) -> (r: String)
    ensures
        r@ == path@ + ".lock"@,
{
    concat2(path, ".lock")
}

/// A marker older than the staleness threshold is reclaimed on the next
/// attempt — never backed off from, never timed out on — whatever the
/// elapsed time and the timeout. Acquisition on an abandoned marker
/// therefore proceeds even though no matching release ever ran.
pub proof fn stale_marker_always_reclaimed(age_ms: u64, elapsed_ms: u64, timeout_ms: u64)
    requires
        age_ms > STALE_LOCK_MS,
    ensures
        spec_acquire_step(
            LockObservation::Held { age_ms: Some(age_ms) },
            elapsed_ms,
            timeout_ms,
        ) is Reclaim,
{
}

/// A fresh marker is never reclaimed: within the staleness threshold the
/// holder is respected, and the only exits are backoff or timeout.
pub proof fn fresh_marker_never_reclaimed(age_ms: u64, elapsed_ms: u64, timeout_ms: u64)
    requires
        age_ms <= STALE_LOCK_MS,
    ensures
        !(spec_acquire_step(
            LockObservation::Held { age_ms: Some(age_ms) },
            elapsed_ms,
            timeout_ms,
        ) is Reclaim),
        !(spec_acquire_step(
            LockObservation::Held { age_ms: Some(age_ms) },
            elapsed_ms,
            timeout_ms,
        ) is Acquired),
{
}

} // verus!
