//! The capture worker's loop, as a state machine: every event it can meet, and what it does then.
//!
//! The worker owns the capture engine. It counts attempts against the configured limit, keeps track
//! of the selections that another worker still owns, and rebuilds the engine when it is lost. The
//! thread that runs it performs the actions and hands back what came of them.
use vstd::prelude::*;
use vstd::string::*;

use crate::capture::{CaptureId, CaptureSource, DisplayId};
use crate::config::PreviewMode;
use crate::daemon::dispatch::{
    action_route, is_queued_status, output_status_or_fatal, queued_to_selection_worker,
    route_of, ActionRoute, SelectionKind,
};
use crate::daemon::notice::DaemonNotice;
use crate::daemon::recovery::{
    announces, backend_outage_needs_notice, delay_after, law_the_next_rebuild_waits_its_delay,
    loses_engine, recovery_delay,
    requires_backend_recovery, BackendRecovery, CaptureRetry, RetryStep,
    BACKEND_OUTAGE_NOTICE_ATTEMPTS,
};
use crate::error::AppError;
use crate::hotkey::HotkeyAction;

verus! {

/// Whether every permitted attempt has been dispatched.
pub open spec fn budget_spent(max_captures: Option<usize>, attempts: int) -> bool {
    max_captures is Some && attempts >= max_captures->Some_0
}

/// Whether every permitted attempt has been dispatched. Attempts may still be running, so this
/// refuses new triggers rather than stopping the daemon.
pub fn capture_budget_exhausted(max_captures: Option<usize>, attempts: usize) -> (spent: bool)
    ensures
        spent == budget_spent(max_captures, attempts as int),
{
    match max_captures {
        Some(maximum) => attempts >= maximum,
        None => false,
    }
}

/// Whether every permitted attempt has finished: the selection worker owns none of them any more.
pub fn capture_limit_reached(
    max_captures: Option<usize>,
    attempts: usize,
    selections_in_flight: usize,
) -> (reached: bool)
    ensures
        reached == (selections_in_flight == 0 && budget_spent(max_captures, attempts as int)),
{
    selections_in_flight == 0 && capture_budget_exhausted(max_captures, attempts)
}

/// What the worker was configured with.
#[derive(Clone, Copy, Debug, Eq, PartialEq, Structural)]
pub struct WorkerSettings {
    pub selection_enabled: bool,
    pub selection_preview: PreviewMode,
    pub max_captures: Option<usize>,
    pub cpu_frame: bool,
}

/// What the worker does before it takes its next command.
#[derive(Clone, Copy, Debug, Eq, PartialEq, Structural)]
pub enum LoopStep {
    /// Report success and end.
    Finish,
    /// Rebuild the capture engine.
    Reinitialize,
    /// Wait for a command, for this many nanoseconds at most where there is a limit.
    Receive(Option<u64>),
}

/// What a rebuild of the engine leads to.
#[derive(Clone, Copy, Debug, Eq, PartialEq)]
pub struct ReinitializeReport {
    pub notice: Option<DaemonNotice>,
    /// The delay before the next rebuild, in milliseconds, where this one failed.
    pub retry_in_ms: Option<u64>,
}

/// What a trigger leads to.
#[derive(Clone, Copy, Debug, Eq, PartialEq, Structural)]
pub enum TriggerStep {
    /// The permitted attempts are spent.
    Ignored,
    /// The engine is being rebuilt: the attempt ends here.
    EngineRecovering(CaptureId),
    /// Open the overlay on a live preview.
    LiveSelection(CaptureId),
    /// Capture now.
    Capture { id: CaptureId, cpu_frame: bool, retain_native_frame: bool },
}

/// Why a selection comes back to the capture worker.
#[derive(Clone, Copy, Debug, Eq, PartialEq, Structural)]
pub enum Resumption {
    /// The user confirmed a selection on a live preview.
    Confirmed(SelectionKind),
    /// The live preview failed, and a frozen one takes its place.
    FrozenFallback,
}

/// What a selection that came back needs.
#[derive(Clone, Copy, Debug, Eq, PartialEq)]
pub enum ResumeStep {
    /// The engine is being rebuilt: hand the selection back with this error.
    GiveUp(&'static str),
    /// Capture the frame that the selection is made from.
    Capture { cpu_frame: bool, retain_native_frame: bool },
}

impl Resumption {
    /// The error that a selection is handed back with while the engine is being rebuilt.
    pub open spec fn recovering_error(self) -> Seq<char> {
        match self {
            Resumption::Confirmed(_) =>
                "capture engine is recovering after live selection confirmation"@,
            Resumption::FrozenFallback =>
                "capture engine is recovering during automatic preview fallback"@,
        }
    }

    /// Why a selection was dropped that could not be handed back.
    pub open spec fn dropped_reason(self, recovering: bool) -> Seq<char> {
        match (self, recovering) {
            (Resumption::Confirmed(_), true) =>
                "its confirmed selection could not be queued while the capture engine was recovering"@,
            (Resumption::Confirmed(_), false) =>
                "it could not resume after its confirmation capture"@,
            (Resumption::FrozenFallback, true) =>
                "its preview fallback could not be queued while the capture engine was recovering"@,
            (Resumption::FrozenFallback, false) =>
                "it could not resume with its frozen preview fallback"@,
        }
    }
}

/// The state of the capture worker between two events.
#[derive(Clone, Copy, Debug, Eq, PartialEq, Structural)]
pub struct CaptureLoop {
    /// Triggers taken so far.
    pub attempts: usize,
    /// Attempts that the selection worker still owns.
    pub selections_in_flight: usize,
    pub next_capture_id: u64,
    pub engine_ready: bool,
    pub recovery: Option<BackendRecovery>,
    /// Whether the current outage was announced.
    pub recovery_notified: bool,
}

/// The number after `n`, at the type's end the same one.
pub open spec fn counted(n: int, limit: int) -> int {
    if n < limit {
        n + 1
    } else {
        limit
    }
}

/// One less, but not below zero.
pub open spec fn released(n: int) -> int {
    if n > 0 {
        n - 1
    } else {
        0
    }
}

impl CaptureLoop {
    /// What holds between any two events: there is an outage exactly while the engine is gone, and
    /// only an outage is announced.
    pub open spec fn wf(self) -> bool {
        &&& self.engine_ready == self.recovery is None
        &&& self.recovery_notified ==> self.recovery is Some
    }

    /// The state of a worker that has just created its engine.
    pub fn new() -> (state: Self)
        ensures
            state.wf(),
            state == (CaptureLoop {
                attempts: 0,
                selections_in_flight: 0,
                next_capture_id: 1,
                engine_ready: true,
                recovery: None,
                recovery_notified: false,
            }),
    {
        CaptureLoop {
            attempts: 0,
            selections_in_flight: 0,
            next_capture_id: 1,
            engine_ready: true,
            recovery: None,
            recovery_notified: false,
        }
    }

    /// Whether a rebuild is due.
    pub open spec fn rebuild_due(self, now: u64) -> bool {
        self.recovery is Some && now >= self.recovery->Some_0.next_attempt
    }

    /// How long to wait for a command: without a limit, or until the next rebuild is due.
    pub open spec fn patience(self, now: u64) -> Option<u64> {
        match self.recovery {
            None => None,
            Some(recovery) => Some(
                if recovery.next_attempt > now {
                    (recovery.next_attempt - now) as u64
                } else {
                    0
                },
            ),
        }
    }

    /// Decides what to do at the top of the loop. A requested stop comes first, the limit of
    /// captures second, a due rebuild third.
    pub fn poll(&self, settings: &WorkerSettings, stop_requested: bool, now: u64) -> (step:
        LoopStep)
        ensures
            step == if stop_requested || (self.selections_in_flight == 0 && budget_spent(
                settings.max_captures,
                self.attempts as int,
            )) {
                LoopStep::Finish
            } else if self.rebuild_due(now) {
                LoopStep::Reinitialize
            } else {
                LoopStep::Receive(self.patience(now))
            },
    {
        if stop_requested {
            return LoopStep::Finish;
        }
        if capture_limit_reached(settings.max_captures, self.attempts, self.selections_in_flight) {
            return LoopStep::Finish;
        }
        match self.recovery {
            Some(recovery) => {
                if now >= recovery.next_attempt {
                    LoopStep::Reinitialize
                } else {
                    LoopStep::Receive(Some(recovery.next_attempt - now))
                }
            },
            None => LoopStep::Receive(None),
        }
    }

    /// How long to wait for a command after a rebuild.
    pub fn wait_limit(&self, now: u64) -> (limit: Option<u64>)
        ensures
            limit == self.patience(now),
    {
        match self.recovery {
            Some(recovery) => Some(recovery.next_attempt.saturating_sub(now)),
            None => None,
        }
    }

    /// How many rebuilds have failed in a row once another one has.
    pub open spec fn failed_again(self) -> int {
        counted(self.recovery->Some_0.failed_attempts as int, u32::MAX as int)
    }

    /// Whether a rebuild that fails now announces the outage.
    pub open spec fn failure_announces(self) -> bool {
        announces(self.failed_again(), self.recovery_notified)
    }

    /// The state after a rebuild that failed.
    pub open spec fn after_failed_rebuild(self, now: u64) -> CaptureLoop {
        CaptureLoop {
            recovery: Some(BackendRecovery::after_failures(self.failed_again() as u32, now)),
            recovery_notified: self.recovery_notified || self.failure_announces(),
            ..self
        }
    }

    /// The state after rebuilds that failed one after the other, at these moments.
    pub open spec fn after_failed_rebuilds(self, moments: Seq<u64>) -> CaptureLoop
        decreases moments.len(),
    {
        if moments.len() == 0 {
            self
        } else {
            self.after_failed_rebuilds(moments.drop_last()).after_failed_rebuild(moments.last())
        }
    }

    /// How often an outage is announced while rebuilds fail at these moments.
    pub open spec fn announcements(self, moments: Seq<u64>) -> nat
        decreases moments.len(),
    {
        if moments.len() == 0 {
            0
        } else {
            let earlier = moments.drop_last();
            self.announcements(earlier) + if self.after_failed_rebuilds(
                earlier,
            ).failure_announces() {
                1nat
            } else {
                0nat
            }
        }
    }

    /// Takes the result of a rebuild. An outage that lasts is announced once, and its end is
    /// announced if and only if the outage was.
    pub fn reinitialized(&mut self, succeeded: bool, now: u64) -> (report: ReinitializeReport)
        requires
            old(self).wf(),
            old(self).recovery is Some,
        ensures
            final(self).wf(),
            succeeded ==> {
                &&& *final(self) == (CaptureLoop {
                    engine_ready: true,
                    recovery: None,
                    recovery_notified: false,
                    ..*old(self)
                })
                &&& report.retry_in_ms is None
                &&& report.notice == if old(self).recovery_notified {
                    Some(DaemonNotice::CaptureEngineRecovered)
                } else {
                    None
                }
            },
            !succeeded ==> {
                &&& *final(self) == old(self).after_failed_rebuild(now)
                &&& report.retry_in_ms matches Some(delay) && delay == delay_after(
                    old(self).failed_again(),
                )
                &&& report.notice == if old(self).failure_announces() {
                    Some(DaemonNotice::CaptureEngineUnavailable)
                } else {
                    None
                }
            },
    {
        if succeeded {
            let notice = if self.recovery_notified {
                Some(DaemonNotice::CaptureEngineRecovered)
            } else {
                None
            };
            self.engine_ready = true;
            self.recovery = None;
            self.recovery_notified = false;
            return ReinitializeReport { notice, retry_in_ms: None };
        }
        let before: u32 = match self.recovery {
            Some(recovery) => recovery.failed_attempts,
            None => 0,
        };
        let failed_attempts: u32 = before.saturating_add(1);
        self.recovery = Some(BackendRecovery::backing_off(failed_attempts, now));
        let notice = if backend_outage_needs_notice(failed_attempts, self.recovery_notified) {
            self.recovery_notified = true;
            Some(DaemonNotice::CaptureEngineUnavailable)
        } else {
            None
        };
        ReinitializeReport { notice, retry_in_ms: Some(recovery_delay(failed_attempts)) }
    }

    /// The state after a trigger, which counts unless the permitted attempts are spent.
    pub open spec fn triggered(self, max_captures: Option<usize>) -> CaptureLoop {
        if budget_spent(max_captures, self.attempts as int) {
            self
        } else {
            CaptureLoop {
                attempts: counted(self.attempts as int, usize::MAX as int) as usize,
                next_capture_id: counted(self.next_capture_id as int, u64::MAX as int) as u64,
                ..self
            }
        }
    }

    /// The state after a number of triggers.
    pub open spec fn triggered_times(self, max_captures: Option<usize>, times: nat) -> CaptureLoop
        decreases times,
    {
        if times == 0 {
            self
        } else {
            self.triggered_times(max_captures, (times - 1) as nat).triggered(max_captures)
        }
    }

    /// Takes a trigger. Every trigger within the limit counts as an attempt and gets a number of
    /// its own, whatever becomes of it.
    pub fn trigger(&mut self, settings: &WorkerSettings, action: HotkeyAction) -> (step:
        TriggerStep)
        requires
            old(self).wf(),
        ensures
            final(self).wf(),
            *final(self) == old(self).triggered(settings.max_captures),
            ({
                let id = CaptureId(old(self).next_capture_id);
                step == if budget_spent(settings.max_captures, old(self).attempts as int) {
                    TriggerStep::Ignored
                } else if !old(self).engine_ready {
                    TriggerStep::EngineRecovering(id)
                } else if settings.selection_enabled && settings.selection_preview
                    != PreviewMode::Frozen && route_of(action) is Overlay {
                    TriggerStep::LiveSelection(id)
                } else {
                    TriggerStep::Capture {
                        id,
                        cpu_frame: settings.cpu_frame,
                        retain_native_frame: settings.selection_enabled && action
                            != HotkeyAction::FullDisplay,
                    }
                }
            }),
    {
        if capture_budget_exhausted(settings.max_captures, self.attempts) {
            return TriggerStep::Ignored;
        }
        self.attempts = self.attempts.saturating_add(1);
        let id = CaptureId(self.next_capture_id);
        self.next_capture_id = self.next_capture_id.saturating_add(1);
        if !self.engine_ready {
            return TriggerStep::EngineRecovering(id);
        }
        let overlay = match action_route(action) {
            ActionRoute::Overlay(_) => true,
            _ => false,
        };
        if settings.selection_enabled && settings.selection_preview != PreviewMode::Frozen
            && overlay {
            return TriggerStep::LiveSelection(id);
        }
        TriggerStep::Capture {
            id,
            cpu_frame: settings.cpu_frame,
            retain_native_frame: settings.selection_enabled && action != HotkeyAction::FullDisplay,
        }
    }

    /// Takes the end of a capture. A failed rebuild starts an outage with its back-off, and an error
    /// that lost the engine starts one whose rebuild is due at once.
    pub fn capture_ended(&mut self, retry: &CaptureRetry, now: u64)
        requires
            old(self).wf(),
            old(self).engine_ready,
            retry.wf(),
            retry.next == RetryStep::Done,
        ensures
            final(self).wf(),
            *final(self) == if retry.reinitialize_failed {
                CaptureLoop {
                    engine_ready: false,
                    recovery: Some(
                        BackendRecovery::after_failures(retry.recovery_attempts, now),
                    ),
                    ..*old(self)
                }
            } else if retry.failure is Some && loses_engine(retry.failure->Some_0) {
                CaptureLoop {
                    engine_ready: false,
                    recovery: Some(BackendRecovery { failed_attempts: 0, next_attempt: now }),
                    ..*old(self)
                }
            } else {
                *old(self)
            },
    {
        self.engine_ready = retry.engine_ready;
        if retry.reinitialize_failed {
            self.recovery = Some(BackendRecovery::backing_off(retry.recovery_attempts, now));
        }
        if let Some(kind) = retry.failure {
            if requires_backend_recovery(kind) && self.recovery.is_none() {
                self.engine_ready = false;
                self.recovery = Some(BackendRecovery::immediate(now));
            }
        }
    }

    /// Takes what became of a capture's output. A failure of the bookkeeping alone does not end the
    /// daemon; an attempt that was queued for selection stays in flight.
    pub fn dispatched(&mut self, dispatch: Result<&'static str, AppError>) -> (status: Result<
        &'static str,
        AppError,
    >)
        requires
            old(self).wf(),
        ensures
            final(self).wf(),
            match dispatch {
                Ok(text) => status matches Ok(out) && out@ == text@,
                Err(AppError::Metrics(_)) => status matches Ok(out) && out@
                    == "metrics_validation_failed"@,
                Err(error) => status == Err::<&'static str, AppError>(error),
            },
            *final(self) == (CaptureLoop {
                selections_in_flight: if dispatch is Ok && is_queued_status(dispatch->Ok_0@) {
                    counted(old(self).selections_in_flight as int, usize::MAX as int) as usize
                } else {
                    old(self).selections_in_flight
                },
                ..*old(self)
            }),
    {
        proof {
            crate::daemon::dispatch::lemma_failed_metrics_are_not_queued();
        }
        let status = output_status_or_fatal(dispatch);
        if let Ok(text) = &status {
            if queued_to_selection_worker(text) {
                self.selections_in_flight = self.selections_in_flight.saturating_add(1);
            }
        }
        status
    }

    /// Takes back a selection that needs the engine once more.
    pub fn resume(&self, resumption: Resumption) -> (step: ResumeStep)
        ensures
            match step {
                ResumeStep::GiveUp(error) => !self.engine_ready && error@
                    == resumption.recovering_error(),
                ResumeStep::Capture { cpu_frame, retain_native_frame } => self.engine_ready
                    && cpu_frame && retain_native_frame == match resumption {
                    Resumption::Confirmed(kind) => kind == SelectionKind::Region,
                    Resumption::FrozenFallback => true,
                },
            },
    {
        if !self.engine_ready {
            return ResumeStep::GiveUp(
                match resumption {
                    Resumption::Confirmed(_) => {
                        "capture engine is recovering after live selection confirmation"
                    },
                    Resumption::FrozenFallback => {
                        "capture engine is recovering during automatic preview fallback"
                    },
                },
            );
        }
        ResumeStep::Capture {
            cpu_frame: true,
            retain_native_frame: match resumption {
                Resumption::Confirmed(kind) => kind == SelectionKind::Region,
                Resumption::FrozenFallback => true,
            },
        }
    }

    /// Takes whether a selection could be handed back to its worker. One that could not ends here:
    /// it is no longer in flight, and the user is told.
    pub fn handed_back(
        &mut self,
        capture_id: CaptureId,
        resumption: Resumption,
        recovering: bool,
        accepted: bool,
    ) -> (notice: Option<DaemonNotice>)
        requires
            old(self).wf(),
        ensures
            final(self).wf(),
            accepted ==> notice is None && *final(self) == *old(self),
            !accepted ==> {
                &&& notice matches Some(DaemonNotice::DroppedSelection { capture_id: id, reason })
                    && id == capture_id && reason@ == resumption.dropped_reason(recovering)
                &&& *final(self) == (CaptureLoop {
                    selections_in_flight: released(
                        old(self).selections_in_flight as int,
                    ) as usize,
                    ..*old(self)
                })
            },
    {
        if accepted {
            return None;
        }
        self.selections_in_flight = self.selections_in_flight.saturating_sub(1);
        let reason = match (resumption, recovering) {
            (Resumption::Confirmed(_), true) => {
                "its confirmed selection could not be queued while the capture engine was recovering"
            },
            (Resumption::Confirmed(_), false) => "it could not resume after its confirmation capture",
            (Resumption::FrozenFallback, true) => {
                "its preview fallback could not be queued while the capture engine was recovering"
            },
            (Resumption::FrozenFallback, false) => {
                "it could not resume with its frozen preview fallback"
            },
        };
        Some(DaemonNotice::DroppedSelection { capture_id, reason })
    }

    /// Takes the report that the selection worker is done with an attempt.
    pub fn selection_finished(&mut self)
        requires
            old(self).wf(),
        ensures
            final(self).wf(),
            *final(self) == (CaptureLoop {
                selections_in_flight: released(old(self).selections_in_flight as int) as usize,
                ..*old(self)
            }),
    {
        self.selections_in_flight = self.selections_in_flight.saturating_sub(1);
    }
}

/// What a selection job carries back to the selection worker after its capture.
#[derive(Debug, Eq, PartialEq)]
pub struct ResumedJob {
    pub cpu_ready_offset_ns: Option<u64>,
    /// Whether the confirmed selection goes with the job.
    pub confirmed: bool,
    pub terminal_error: Option<String>,
    pub confirmation_anchored: bool,
}

/// Completes a job with the outcome of its capture: the moment its pixels were ready, or the error
/// that ends it. A confirmed selection stays with the job either way; a frozen fallback that
/// succeeded is no longer anchored to a confirmation.
pub fn resumed_job(
    before: ResumedJob,
    resumption: Resumption,
    capture: Result<u64, String>,
) -> (job: ResumedJob)
    ensures
        match capture {
            Ok(ready_offset_ns) => {
                &&& job.cpu_ready_offset_ns == Some(ready_offset_ns)
                &&& job.terminal_error == before.terminal_error
                &&& job.confirmation_anchored == (resumption is Confirmed
                    && before.confirmation_anchored)
            },
            Err(message) => {
                &&& job.cpu_ready_offset_ns == before.cpu_ready_offset_ns
                &&& job.terminal_error == Some(message)
                &&& job.confirmation_anchored == before.confirmation_anchored
            },
        },
        job.confirmed == (resumption is Confirmed || before.confirmed),
{
    let mut job = before;
    match capture {
        Ok(ready_offset_ns) => {
            job.cpu_ready_offset_ns = Some(ready_offset_ns);
            if let Resumption::FrozenFallback = resumption {
                job.confirmation_anchored = false;
            }
        },
        Err(message) => {
            job.terminal_error = Some(message);
        },
    }
    if let Resumption::Confirmed(_) = resumption {
        job.confirmed = true;
    }
    job
}

/// A limit permits exactly so many attempts: of any number of triggers, the first ones up to the
/// limit count, and the attempts are numbered from one on.
pub proof fn law_a_limit_permits_exactly_its_attempts(
    start: CaptureLoop,
    max_captures: Option<usize>,
    times: nat,
)
    requires
        start.attempts == 0,
        start.next_capture_id == 1,
        times <= usize::MAX,
    ensures
        ({
            let after = start.triggered_times(max_captures, times);
            &&& after.attempts == match max_captures {
                Some(maximum) => if times <= maximum {
                    times as int
                } else {
                    maximum as int
                },
                None => times as int,
            }
            &&& after.attempts < u64::MAX ==> after.next_capture_id == 1 + after.attempts
        }),
    decreases times,
{
    if times > 0 {
        law_a_limit_permits_exactly_its_attempts(start, max_captures, (times - 1) as nat);
    }
}

/// However often the rebuilds of a lost engine fail, the outage is announced once, with the first
/// failure that makes it last long enough, and not at all before. As the end of an outage is
/// announced if and only if the outage was, neither notice can come twice.
pub proof fn law_an_outage_is_announced_once(outage: CaptureLoop, moments: Seq<u64>)
    requires
        outage.wf(),
        outage.recovery is Some,
        !outage.recovery_notified,
    ensures
        ({
            let failed = outage.recovery->Some_0.failed_attempts + moments.len();
            let lasts = moments.len() > 0 && failed >= BACKEND_OUTAGE_NOTICE_ATTEMPTS;
            let state = outage.after_failed_rebuilds(moments);
            &&& outage.announcements(moments) == if lasts {
                1nat
            } else {
                0nat
            }
            &&& state.recovery_notified == lasts
            &&& state.wf()
            &&& state.recovery matches Some(recovery) && recovery.failed_attempts == if failed
                <= u32::MAX {
                failed
            } else {
                u32::MAX as int
            }
        }),
    decreases moments.len(),
{
    if moments.len() > 0 {
        law_an_outage_is_announced_once(outage, moments.drop_last());
    }
}

/// The source that a display name stands for.
pub fn capture_source_of(display_id: &DisplayId) -> (source: CaptureSource)
    ensures
        source == if display_id@ == "virtual_desktop"@ {
            CaptureSource::VirtualDesktop
        } else {
            CaptureSource::Display(*display_id)
        },
{
    if display_id.is_virtual_desktop() {
        CaptureSource::VirtualDesktop
    } else {
        CaptureSource::Display(display_id.clone())
    }
}

/// While the engine is gone the worker waits exactly until the rebuild is due: it is then, and it is
/// not before. While the engine is there nothing is due and there is no limit to the wait.
pub proof fn law_the_worker_waits_until_the_rebuild_is_due(state: CaptureLoop, now: u64, then: u64)
    ensures
        state.recovery is None ==> state.patience(now) is None && !state.rebuild_due(now),
        state.recovery is Some ==> (state.patience(now) matches Some(wait) && now + wait <= u64::MAX
            && state.rebuild_due((now + wait) as u64) && (now <= then < now + wait
            ==> !state.rebuild_due(then))),
        state.rebuild_due(now) && then >= now ==> state.rebuild_due(then),
{
}

/// The permitted attempts are spent exactly when there is a limit and so many were made.
pub proof fn law_a_limit_is_spent_when_it_is_reached(limit: usize, attempts: int)
    ensures
        budget_spent(Some(limit), attempts) <==> attempts >= limit,
        !budget_spent(None, attempts),
{
}

/// Counting on adds one up to the end of the numbers, and letting go takes one away down to none.
pub proof fn law_counting_on_and_letting_go(n: int, limit: int)
    requires
        0 <= n <= limit,
    ensures
        n < limit ==> counted(n, limit) == n + 1,
        n == limit ==> counted(n, limit) == n,
        n > 0 ==> released(n) == n - 1,
        released(0) == 0,
        n < limit ==> released(counted(n, limit)) == n,
{
}

/// A trigger within the limit is one attempt more with the next number, and one beyond it changes
/// nothing. Nothing else of the worker changes.
pub proof fn law_a_trigger_is_one_attempt(state: CaptureLoop, limit: Option<usize>)
    requires
        state.attempts < usize::MAX,
        state.next_capture_id < u64::MAX,
    ensures
        ({
            let after = state.triggered(limit);
            let permitted = limit is None || state.attempts < limit->Some_0;
            &&& permitted ==> after.attempts == state.attempts + 1 && after.next_capture_id
                == state.next_capture_id + 1
            &&& !permitted ==> after == state
            &&& after.selections_in_flight == state.selections_in_flight
            &&& after.engine_ready == state.engine_ready
            &&& after.recovery == state.recovery
            &&& after.recovery_notified == state.recovery_notified
        }),
{
}

/// A rebuild that fails is one failure more and waits for the next one by its delay. It announces the
/// outage where it is the third or a later one and none was announced, and nothing else changes.
pub proof fn law_a_failed_rebuild_counts_and_waits(state: CaptureLoop, now: u64)
    requires
        state.recovery is Some,
        state.recovery->Some_0.failed_attempts < u32::MAX,
        now <= u64::MAX - 1_600_000_000,
    ensures
        ({
            let after = state.after_failed_rebuild(now);
            let failures = state.recovery->Some_0.failed_attempts + 1;
            &&& after.recovery matches Some(recovery) && recovery.failed_attempts == failures
                && recovery.next_attempt == now + delay_after(failures) * 1_000_000
            &&& after.recovery_notified <==> state.recovery_notified || failures >= 3
            &&& state.failure_announces() <==> !state.recovery_notified && failures >= 3
            &&& after.attempts == state.attempts
            &&& after.selections_in_flight == state.selections_in_flight
            &&& after.next_capture_id == state.next_capture_id
            &&& after.engine_ready == state.engine_ready
        }),
{
    law_the_next_rebuild_waits_its_delay(
        (state.recovery->Some_0.failed_attempts + 1) as u32,
        now,
    );
}

/// The engine is gone exactly during an outage, and only an outage is announced.
pub proof fn law_an_outage_is_the_time_without_an_engine(state: CaptureLoop)
    requires
        state.wf(),
    ensures
        state.engine_ready <==> state.recovery is None,
        state.recovery_notified ==> !state.engine_ready,
{
}

} // verus!
