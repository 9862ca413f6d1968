//! Advisory locks between processes: a lock is a file that only its holder can create.
//!
//! Moments and durations are nanoseconds.
use vstd::prelude::*;
use vstd::string::*;

use crate::error::ConfigError;
use crate::path::{FilePath, Part};
use crate::text::{decimal, decimal_text};

verus! {

/// A kind of lock: how long it is waited for, when its holder is taken for dead, and how long a
/// waiter sleeps between two tries.
#[derive(Clone, Copy, Debug, Eq, PartialEq, Structural)]
pub struct LockTiming {
    pub timeout: u64,
    pub stale_after: u64,
    pub retry_delay: u64,
}

/// The timing of the lock over remembered state.
pub open spec fn state_timing() -> LockTiming {
    LockTiming { timeout: 2_000_000_000, stale_after: 30_000_000_000, retry_delay: 5_000_000 }
}

/// The timing of the lock over the rotation of a log.
pub open spec fn rotation_timing() -> LockTiming {
    LockTiming { timeout: 500_000_000, stale_after: 30_000_000_000, retry_delay: 2_000_000 }
}

/// The timing of the lock over remembered state.
pub fn state_lock_timing() -> (timing: LockTiming)
    ensures
        timing == state_timing(),
{
    LockTiming { timeout: 2_000_000_000, stale_after: 30_000_000_000, retry_delay: 5_000_000 }
}

/// The timing of the lock over the rotation of a log.
pub fn rotation_lock_timing() -> (timing: LockTiming)
    ensures
        timing == rotation_timing(),
{
    LockTiming { timeout: 500_000_000, stale_after: 30_000_000_000, retry_delay: 2_000_000 }
}

/// What trying to create the lock file gave.
#[derive(Clone, Copy, Debug, Eq, PartialEq, Structural)]
pub enum LockAttempt {
    /// The lock is held now.
    Created,
    /// The name is taken, or not quite free yet.
    Taken,
    /// The file cannot be created at all.
    Failed,
}

/// How long ago the lock file was touched.
#[derive(Clone, Copy, Debug, Eq, PartialEq, Structural)]
pub enum LockAge {
    /// The file is gone.
    Gone,
    Known(u64),
    Unknown,
}

/// What is done about a lock that someone else holds.
#[derive(Clone, Copy, Debug, Eq, PartialEq, Structural)]
pub enum StaleStep {
    /// It was released meanwhile.
    Released,
    /// Its holder is gone: remove the file.
    Remove,
    /// Its holder may still be there.
    Keep,
}

/// What is done about a lock of some age. One whose age is not known is left alone.
pub open spec fn stale_step(timing: LockTiming, age: LockAge) -> StaleStep {
    match age {
        LockAge::Gone => StaleStep::Released,
        LockAge::Known(elapsed) => if elapsed > timing.stale_after {
            StaleStep::Remove
        } else {
            StaleStep::Keep
        },
        LockAge::Unknown => StaleStep::Keep,
    }
}

/// Decides whether a lock's holder is plainly gone. A lock whose age is not known is left alone.
pub fn break_stale_lock(timing: &LockTiming, age: LockAge) -> (step: StaleStep)
    ensures
        step == stale_step(*timing, age),
{
    match age {
        LockAge::Gone => StaleStep::Released,
        LockAge::Known(elapsed) => {
            if elapsed > timing.stale_after {
                StaleStep::Remove
            } else {
                StaleStep::Keep
            }
        },
        LockAge::Unknown => StaleStep::Keep,
    }
}

/// A holder that is merely slow is not robbed: a lock that was touched after a waiter began to wait
/// is left alone until that waiter's time is up.
pub proof fn law_a_slow_holder_keeps_its_lock(timing: LockTiming, elapsed: u64)
    requires
        timing == state_timing() || timing == rotation_timing(),
        elapsed <= timing.timeout,
    ensures
        stale_step(timing, LockAge::Known(elapsed)) == StaleStep::Keep,
{
}

/// What a waiter does next.
#[derive(Clone, Copy, Debug, Eq, PartialEq, Structural)]
pub enum LockStep {
    /// The lock is held.
    Hold,
    /// Try to create the file again at once.
    Retry,
    /// Sleep, then try again.
    Sleep(u64),
    /// The time is up.
    TimedOut,
    /// The file cannot be created.
    Fail,
}

/// Decides how to go on after a try. `broken` says whether the lock that stood in the way is gone
/// now. A lock that is gone is tried for once more even when the time is up.
pub fn lock_step(
    timing: &LockTiming,
    attempt: LockAttempt,
    broken: bool,
    now: u64,
    deadline: u64,
) -> (step: LockStep)
    ensures
        step == match attempt {
            LockAttempt::Created => LockStep::Hold,
            LockAttempt::Failed => LockStep::Fail,
            LockAttempt::Taken => if broken {
                LockStep::Retry
            } else if now >= deadline {
                LockStep::TimedOut
            } else {
                LockStep::Sleep(timing.retry_delay)
            },
        },
{
    match attempt {
        LockAttempt::Created => LockStep::Hold,
        LockAttempt::Failed => LockStep::Fail,
        LockAttempt::Taken => {
            if broken {
                LockStep::Retry
            } else if now >= deadline {
                LockStep::TimedOut
            } else {
                LockStep::Sleep(timing.retry_delay)
            }
        },
    }
}

/// The file that locks a state file: its name with a suffix, beside it.
pub fn lock_path(state_path: &FilePath) -> (path: FilePath)
    ensures
        ({
            let name = if state_path.named() {
                state_path@.last()->Normal_0
            } else {
                "state.toml"@
            } + ".lock"@;
            path@ == match FilePath::parent_parts(state_path@) {
                Some(directory) => directory.push(Part::Normal(name)),
                None => seq![Part::Normal(name)],
            }
        }),
{
    let mut name = match state_path.file_name() {
        Some(name) => name.clone(),
        None => "state.toml".to_owned(),
    };
    name.append(".lock");
    match state_path.parent() {
        Some(directory) => directory.join(name.as_str()),
        None => {
            let nothing = FilePath { parts: Vec::new() };
            let path = nothing.join(name.as_str());
            path
        },
    }
}

/// The error of a state lock that could not be taken in time. It carries the last attempt's error,
/// which tells a lasting obstacle from mere contention.
pub fn lock_timeout_error(path: String, last_error: &str) -> (error: ConfigError)
    ensures
        error matches ConfigError::Write { path: p, source } && p == path && source@
            == "could not take the UI state lock within "@ + decimal(2_000)
            + " ms (last attempt: "@ + last_error@ + ")"@,
{
    let mut source = "could not take the UI state lock within ".to_owned();
    source.append(decimal_text(2_000).as_str());
    source.append(" ms (last attempt: ");
    source.append(last_error);
    source.append(")");
    ConfigError::Write { path, source }
}

/// A lock on saved state is tried for two seconds and every five milliseconds, one on a log for half a
/// second and every two. Either is taken for abandoned after thirty seconds.
pub proof fn law_how_long_a_lock_is_tried()
    ensures
        state_timing().timeout == 2 * 1_000_000_000,
        state_timing().retry_delay == 5 * 1_000_000,
        rotation_timing().timeout * 2 == 1_000_000_000,
        rotation_timing().retry_delay == 2 * 1_000_000,
        state_timing().stale_after == 30 * 1_000_000_000,
        rotation_timing().stale_after == 30 * 1_000_000_000,
{
}

/// A lock is removed exactly when its holder has not touched it for longer than a holder may. One that
/// is gone is free, and one whose age is not known is kept.
pub proof fn law_an_abandoned_lock_is_removed(timing: LockTiming, age: LockAge)
    ensures
        stale_step(timing, age) is Remove <==> (age matches LockAge::Known(elapsed) && elapsed
            > timing.stale_after),
        stale_step(timing, age) is Released <==> age is Gone,
        stale_step(timing, age) is Keep <==> age is Unknown || (age matches LockAge::Known(elapsed)
            && elapsed <= timing.stale_after),
{
}

} // verus!
