//! Recovery of the capture engine: how often a lost engine is rebuilt, and after which delays.
//!
//! Moments are nanoseconds on the monotonic clock, and delays are milliseconds.
use vstd::arithmetic::power2::{lemma2_to64, pow2};
use vstd::prelude::*;

use crate::capture::CaptureErrorKind;

verus! {

/// How often one capture rebuilds a lost engine before it gives up.
pub const CAPTURE_RECOVERY_RETRIES: u32 = 3;

/// Consecutive failed rebuilds before an outage is announced.
pub const BACKEND_OUTAGE_NOTICE_ATTEMPTS: u32 = 3;

/// How long a back-off may sleep before it looks at the stop flag again.
pub const RECOVERY_BACKOFF_POLL_MS: u64 = 10;

/// Nanoseconds in a millisecond.
pub const MILLISECOND_NS: u64 = 1_000_000;

/// The delay before the next rebuild: 50 ms, doubled with each failure up to the sixth.
pub open spec fn delay_after(failed_attempts: int) -> int {
    let doublings = if failed_attempts <= 1 {
        0
    } else if failed_attempts <= 6 {
        failed_attempts - 1
    } else {
        5
    };
    50 * (pow2(doublings as nat) as int)
}

/// The delay, in milliseconds, before the next rebuild.
pub fn recovery_delay(failed_attempts: u32) -> (delay_ms: u64)
    ensures
        delay_ms == delay_after(failed_attempts as int),
        50 <= delay_ms <= 1_600,
{
    let wanted: u32 = failed_attempts.saturating_sub(1);
    let exponent: u32 = if wanted < 5 {
        wanted
    } else {
        5
    };
    proof {
        lemma2_to64();
    }
    let mut delay_ms: u64 = 50;
    let mut i: u32 = 0;
    while i < exponent
        invariant
            i <= exponent <= 5,
            delay_ms == 50 * pow2(i as nat),
            pow2(0) == 1,
            pow2(1) == 2,
            pow2(2) == 4,
            pow2(3) == 8,
            pow2(4) == 16,
            pow2(5) == 32,
        decreases exponent - i,
    {
        delay_ms = delay_ms * 2;
        i += 1;
    }
    delay_ms
}

/// A longer outage never waits less before the next rebuild.
pub proof fn law_recovery_delay_grows(earlier: int, later: int)
    requires
        0 <= earlier <= later,
    ensures
        delay_after(earlier) <= delay_after(later),
        50 <= delay_after(earlier) <= 1_600,
{
    lemma2_to64();
    let step = |n: int|
        if n <= 1 {
            0int
        } else if n <= 6 {
            n - 1
        } else {
            5
        };
    assert(pow2(step(earlier) as nat) <= 32);
    assert(pow2(step(earlier) as nat) >= 1);
}

/// Whether a failed rebuild is the one that announces the outage.
pub open spec fn announces(failed_attempts: int, already_notified: bool) -> bool {
    !already_notified && failed_attempts >= BACKEND_OUTAGE_NOTICE_ATTEMPTS
}

/// Whether a failed rebuild is the one that announces the outage.
pub fn backend_outage_needs_notice(failed_attempts: u32, already_notified: bool) -> (yes: bool)
    ensures
        yes == announces(failed_attempts as int, already_notified),
{
    !already_notified && failed_attempts >= BACKEND_OUTAGE_NOTICE_ATTEMPTS
}

/// Whether an error means that the engine's session is gone.
pub open spec fn loses_engine(kind: CaptureErrorKind) -> bool {
    kind == CaptureErrorKind::AccessLost || kind == CaptureErrorKind::DeviceRemoved || kind
        == CaptureErrorKind::TopologyChanged
}

/// Whether an error means that the engine has to be rebuilt.
pub fn requires_backend_recovery(kind: CaptureErrorKind) -> (yes: bool)
    ensures
        yes == loses_engine(kind),
{
    kind == CaptureErrorKind::AccessLost || kind == CaptureErrorKind::DeviceRemoved || kind
        == CaptureErrorKind::TopologyChanged
}

/// An outage of the capture engine.
#[derive(Clone, Copy, Debug, Eq, PartialEq, Structural)]
pub struct BackendRecovery {
    pub failed_attempts: u32,
    /// When the next rebuild is due.
    pub next_attempt: u64,
}

/// A moment some milliseconds later, at the end of the clock at the latest.
pub open spec fn later(now: u64, delay_ms: int) -> int {
    let then = now + delay_ms * MILLISECOND_NS;
    if then > u64::MAX {
        u64::MAX as int
    } else {
        then
    }
}

/// A moment some milliseconds later, at the end of the clock at the latest.
pub fn moment_after(now: u64, delay_ms: u64) -> (then: u64)
    ensures
        then == later(now, delay_ms as int),
{
    match delay_ms.checked_mul(MILLISECOND_NS) {
        Some(delay) => now.saturating_add(delay),
        None => u64::MAX,
    }
}

impl BackendRecovery {
    /// An outage whose first rebuild is due at once.
    pub fn immediate(now: u64) -> (recovery: Self)
        ensures
            recovery == (BackendRecovery { failed_attempts: 0, next_attempt: now }),
    {
        BackendRecovery { failed_attempts: 0, next_attempt: now }
    }

    /// The outage after a number of failed rebuilds.
    pub open spec fn after_failures(failed_attempts: u32, now: u64) -> BackendRecovery {
        BackendRecovery {
            failed_attempts,
            next_attempt: later(now, delay_after(failed_attempts as int)) as u64,
        }
    }

    /// The outage after a number of failed rebuilds: the next one is due after the back-off.
    pub fn backing_off(failed_attempts: u32, now: u64) -> (recovery: Self)
        ensures
            recovery == Self::after_failures(failed_attempts, now),
    {
        BackendRecovery {
            failed_attempts,
            next_attempt: moment_after(now, recovery_delay(failed_attempts)),
        }
    }
}

/// Whether a back-off ran to its end or was cut short by a shutdown.
#[derive(Clone, Copy, Debug, Eq, PartialEq, Structural)]
pub enum BackoffOutcome {
    Elapsed,
    Stopping,
}

/// What a back-off does next.
#[derive(Clone, Copy, Debug, Eq, PartialEq, Structural)]
pub enum BackoffStep {
    Ended(BackoffOutcome),
    /// Sleep this many nanoseconds and look again.
    Sleep(u64),
}

/// Waits out a back-off in short sleeps, and abandons it as soon as a stop was requested.
pub fn wait_for_backoff(deadline: u64, now: u64, stop_requested: bool) -> (step: BackoffStep)
    ensures
        step == if stop_requested {
            BackoffStep::Ended(BackoffOutcome::Stopping)
        } else if now >= deadline {
            BackoffStep::Ended(BackoffOutcome::Elapsed)
        } else if deadline - now < RECOVERY_BACKOFF_POLL_MS * MILLISECOND_NS {
            BackoffStep::Sleep((deadline - now) as u64)
        } else {
            BackoffStep::Sleep((RECOVERY_BACKOFF_POLL_MS * MILLISECOND_NS) as u64)
        },
{
    if stop_requested {
        return BackoffStep::Ended(BackoffOutcome::Stopping);
    }
    let remaining: u64 = deadline.saturating_sub(now);
    if remaining == 0 {
        return BackoffStep::Ended(BackoffOutcome::Elapsed);
    }
    let poll: u64 = RECOVERY_BACKOFF_POLL_MS * MILLISECOND_NS;
    BackoffStep::Sleep(
        if remaining < poll {
            remaining
        } else {
            poll
        },
    )
}

/// What one capture does next on its way through the recovery of the engine.
#[derive(Clone, Copy, Debug, Eq, PartialEq, Structural)]
pub enum RetryStep {
    /// Attempt the capture with the engine at hand.
    Capture,
    /// The engine is dropped; wait this many milliseconds before rebuilding it.
    BackOff { attempt: u32, delay_ms: u64 },
    /// Rebuild the engine.
    Rebuild,
    /// The last attempt stands.
    Done,
}

/// One capture, from its first attempt to the attempt that stands.
#[derive(Clone, Copy, Debug, Eq, PartialEq, Structural)]
pub struct CaptureRetry {
    /// How often the engine was dropped for this capture.
    pub recovery_attempts: u32,
    /// Whether the engine is there.
    pub engine_ready: bool,
    /// Why the last attempt failed, if it did.
    pub failure: Option<CaptureErrorKind>,
    /// Whether the last rebuild failed.
    pub reinitialize_failed: bool,
    /// What comes next.
    pub next: RetryStep,
}

impl CaptureRetry {
    /// What holds at every step: the rebuilds stay within their limit, and an engine that is gone
    /// was lost to an error that takes it.
    pub open spec fn wf(self) -> bool {
        &&& self.recovery_attempts <= CAPTURE_RECOVERY_RETRIES
        &&& !self.engine_ready ==> self.failure is Some && loses_engine(self.failure->Some_0)
            && self.recovery_attempts >= 1
        &&& self.reinitialize_failed ==> !self.engine_ready && self.next == RetryStep::Done
        &&& self.next == RetryStep::Capture ==> self.engine_ready
        &&& self.next == RetryStep::Rebuild ==> !self.engine_ready
        &&& self.next is BackOff ==> !self.engine_ready
    }

    /// How many more results the capture can take before it is done. Every result makes it less, so
    /// a capture ends, after at most one attempt more than there are retries.
    pub open spec fn remaining(self) -> int {
        let attempts = 1 + 3 * (CAPTURE_RECOVERY_RETRIES - self.recovery_attempts);
        match self.next {
            RetryStep::Done => 0,
            RetryStep::Capture => attempts,
            RetryStep::Rebuild => 1 + attempts,
            RetryStep::BackOff { .. } => 2 + attempts,
        }
    }

    /// A capture about to be attempted for the first time.
    pub fn begin() -> (retry: Self)
        ensures
            retry.wf(),
            retry == (CaptureRetry {
                recovery_attempts: 0,
                engine_ready: true,
                failure: None,
                reinitialize_failed: false,
                next: RetryStep::Capture,
            }),
    {
        CaptureRetry {
            recovery_attempts: 0,
            engine_ready: true,
            failure: None,
            reinitialize_failed: false,
            next: RetryStep::Capture,
        }
    }

    /// Takes the result of an attempt. An error that loses the engine drops it and backs off, until
    /// the retries are spent; any other result stands.
    pub fn captured(&mut self, failure: Option<CaptureErrorKind>)
        requires
            old(self).wf(),
            old(self).next == RetryStep::Capture,
        ensures
            final(self).wf(),
            0 <= final(self).remaining() < old(self).remaining(),
            ({
                let retry = failure is Some && loses_engine(failure->Some_0)
                    && old(self).recovery_attempts < CAPTURE_RECOVERY_RETRIES;
                *final(self) == if retry {
                    CaptureRetry {
                        recovery_attempts: (old(self).recovery_attempts + 1) as u32,
                        engine_ready: false,
                        failure,
                        reinitialize_failed: false,
                        next: RetryStep::BackOff {
                            attempt: (old(self).recovery_attempts + 1) as u32,
                            delay_ms: delay_after(old(self).recovery_attempts + 1) as u64,
                        },
                    }
                } else {
                    CaptureRetry { failure, next: RetryStep::Done, ..*old(self) }
                }
            }),
    {
        self.failure = failure;
        if let Some(kind) = failure {
            if requires_backend_recovery(kind) && self.recovery_attempts
                < CAPTURE_RECOVERY_RETRIES {
                self.recovery_attempts = self.recovery_attempts + 1;
                self.engine_ready = false;
                self.next = RetryStep::BackOff {
                    attempt: self.recovery_attempts,
                    delay_ms: recovery_delay(self.recovery_attempts),
                };
                return;
            }
        }
        self.next = RetryStep::Done;
    }

    /// Takes the end of a back-off. A daemon that is stopping rebuilds nothing.
    pub fn waited(&mut self, outcome: BackoffOutcome)
        requires
            old(self).wf(),
            old(self).next is BackOff,
        ensures
            final(self).wf(),
            0 <= final(self).remaining() < old(self).remaining(),
            *final(self) == (CaptureRetry {
                next: match outcome {
                    BackoffOutcome::Stopping => RetryStep::Done,
                    BackoffOutcome::Elapsed => RetryStep::Rebuild,
                },
                ..*old(self)
            }),
    {
        self.next = match outcome {
            BackoffOutcome::Stopping => RetryStep::Done,
            BackoffOutcome::Elapsed => RetryStep::Rebuild,
        };
    }

    /// Takes the result of a rebuild. A rebuilt engine is tried at once.
    pub fn rebuilt(&mut self, succeeded: bool)
        requires
            old(self).wf(),
            old(self).next == RetryStep::Rebuild,
        ensures
            final(self).wf(),
            0 <= final(self).remaining() < old(self).remaining(),
            *final(self) == if succeeded {
                CaptureRetry { engine_ready: true, next: RetryStep::Capture, ..*old(self) }
            } else {
                CaptureRetry { reinitialize_failed: true, next: RetryStep::Done, ..*old(self) }
            },
    {
        if succeeded {
            self.engine_ready = true;
            self.next = RetryStep::Capture;
        } else {
            self.reinitialize_failed = true;
            self.next = RetryStep::Done;
        }
    }
}

/// The first rebuild waits 50 milliseconds, each of the next five waits twice as long as the one
/// before it, and no later one waits longer.
pub proof fn law_the_delay_doubles_five_times(failed_attempts: int)
    ensures
        failed_attempts <= 1 ==> delay_after(failed_attempts) == 50,
        1 <= failed_attempts < 6 ==> delay_after(failed_attempts + 1) == 2 * delay_after(
            failed_attempts,
        ),
        failed_attempts >= 6 ==> delay_after(failed_attempts) == 1_600,
{
    lemma2_to64();
}

/// An outage is announced by its third failed rebuild or a later one, and by none once it was.
pub proof fn law_an_outage_is_announced_by_the_third_failure(failed_attempts: int)
    ensures
        announces(failed_attempts, false) <==> failed_attempts >= 3,
        !announces(failed_attempts, true),
{
}

/// The engine is lost with its access, its device or the arrangement of the displays, and with
/// nothing else.
pub proof fn law_what_loses_the_engine(kind: CaptureErrorKind)
    ensures
        loses_engine(kind) <==> kind is AccessLost || kind is DeviceRemoved || kind is TopologyChanged,
{
}

/// A moment later by some milliseconds is later by a million nanoseconds for each, as long as the
/// clock can tell, and never earlier.
pub proof fn law_later_is_later_by_milliseconds(now: u64, delay_ms: int)
    requires
        delay_ms >= 0,
    ensures
        now + delay_ms * 1_000_000 <= u64::MAX ==> later(now, delay_ms) == now + delay_ms * 1_000_000,
        now + delay_ms * 1_000_000 > u64::MAX ==> later(now, delay_ms) == u64::MAX,
        now <= later(now, delay_ms) <= u64::MAX,
{
}

/// After failures the next rebuild is due when its delay is over, counted from now.
pub proof fn law_the_next_rebuild_waits_its_delay(failed_attempts: u32, now: u64)
    requires
        now <= u64::MAX - 1_600_000_000,
    ensures
        BackendRecovery::after_failures(failed_attempts, now).failed_attempts == failed_attempts,
        BackendRecovery::after_failures(failed_attempts, now).next_attempt == now + delay_after(
            failed_attempts as int,
        ) * 1_000_000,
{
    law_recovery_delay_grows(failed_attempts as int, failed_attempts as int);
}

/// A capture is tried again on three engines, a wait is looked at every ten milliseconds, and times are
/// counted in nanoseconds.
pub proof fn law_how_often_a_recovery_is_tried()
    ensures
        CAPTURE_RECOVERY_RETRIES == 3,
        RECOVERY_BACKOFF_POLL_MS * 100 == 1_000,
        MILLISECOND_NS * 1_000 == 1_000_000_000,
{
}

/// An attempt rebuilds its engine at most three times, captures only with one, and waits or rebuilds
/// only without.
pub proof fn law_an_attempt_captures_only_with_an_engine(state: CaptureRetry)
    requires
        state.wf(),
    ensures
        state.recovery_attempts <= 3,
        state.next == RetryStep::Capture ==> state.engine_ready,
        state.next == RetryStep::Rebuild || state.next is BackOff ==> !state.engine_ready
            && state.recovery_attempts >= 1 && state.failure is Some,
        state.reinitialize_failed ==> !state.engine_ready && state.next == RetryStep::Done,
{
}

} // verus!
