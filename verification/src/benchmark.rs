//! Benchmark runs: what is counted while they run, whether their events are complete, and whether
//! several of them measured the same thing.
use vstd::prelude::*;
use vstd::string::*;

use crate::capture::{
    CaptureErrorKind, CaptureId, CaptureMode, CaptureRequest, CaptureSource, CursorMode,
};
use crate::cli::{BenchmarkRunArgs, CursorArg, ModeArg};
use crate::error::AppError;
use crate::fingerprint::{
    identity, identity_of, law_an_identity_is_all_that_tells_machines_apart, same_adapters, says_alike,
    DisplayFingerprint, EnvironmentFingerprint,
};
use crate::output_metrics::LatencySummary;
use crate::table::TextMap;
use crate::text::{
    decimal, decimal_text, lemma_decimal_digits, lemma_decimal_injective, same, texts,
};

verus! {

/// What a benchmark run measures.
#[derive(Debug)]
pub struct BenchmarkOptions {
    pub iterations: usize,
    pub warmup: usize,
    pub mode: CaptureMode,
    pub cpu_frame: bool,
    pub source: CaptureSource,
    pub trigger_queue_capacity: usize,
    pub metrics_capacity: usize,
    pub cursor: CursorMode,
}

/// How many events a run may record: ten for each attempt, and some to spare.
pub fn metrics_capacity(iterations: usize) -> (capacity: usize)
    ensures
        capacity == if iterations * 10 + 32 > usize::MAX {
            usize::MAX as int
        } else {
            iterations * 10 + 32
        },
{
    match iterations.checked_mul(10) {
        Some(events) => events.saturating_add(32),
        None => usize::MAX,
    }
}

/// What the command line asks of a run. A frame of any age will do where no age was named.
pub fn benchmark_options(args: &BenchmarkRunArgs, source: CaptureSource) -> (options:
    BenchmarkOptions)
    ensures
        options.iterations == args.iterations,
        options.warmup == args.warmup,
        options.mode == match args.mode {
            ModeArg::Fresh => CaptureMode::Fresh { timeout_ms: 100 },
            ModeArg::Latest => CaptureMode::Latest {
                max_age_ms: if args.max_frame_age_ms == 0 {
                    None
                } else {
                    Some(args.max_frame_age_ms)
                },
            },
        },
        options.cpu_frame == args.cpu_frame,
        options.source == source,
        options.trigger_queue_capacity == 4,
        options.metrics_capacity == if args.iterations * 10 + 32 > usize::MAX {
            usize::MAX as int
        } else {
            args.iterations * 10 + 32
        },
        options.cursor == match args.cursor {
            CursorArg::Include => CursorMode::Include,
            CursorArg::Exclude => CursorMode::Exclude,
        },
{
    BenchmarkOptions {
        iterations: args.iterations,
        warmup: args.warmup,
        mode: match args.mode {
            ModeArg::Fresh => CaptureMode::Fresh { timeout_ms: 100 },
            ModeArg::Latest => CaptureMode::Latest {
                max_age_ms: if args.max_frame_age_ms == 0 {
                    None
                } else {
                    Some(args.max_frame_age_ms)
                },
            },
        },
        cpu_frame: args.cpu_frame,
        source,
        trigger_queue_capacity: 4,
        metrics_capacity: metrics_capacity(args.iterations),
        cursor: match args.cursor {
            CursorArg::Include => CursorMode::Include,
            CursorArg::Exclude => CursorMode::Exclude,
        },
    }
}

/// Refuses a run that would measure nothing.
pub fn check_iterations(options: &BenchmarkOptions) -> (result: Result<(), AppError>)
    ensures
        match result {
            Ok(()) => options.iterations > 0,
            Err(error) => options.iterations == 0 && (error matches AppError::InvalidArgument(text)
                && text@ == "iterations must be greater than zero"@),
        },
{
    if options.iterations == 0 {
        return Err(AppError::InvalidArgument("iterations must be greater than zero".to_owned()));
    }
    Ok(())
}

/// Refuses a run whose triggers have nowhere to wait.
pub fn check_queue(options: &BenchmarkOptions) -> (result: Result<(), AppError>)
    ensures
        match result {
            Ok(()) => options.trigger_queue_capacity > 0,
            Err(error) => options.trigger_queue_capacity == 0 && (error matches AppError::InvalidArgument(
                text,
            ) && text@ == "benchmark trigger queue capacity must be greater than zero"@),
        },
{
    if options.trigger_queue_capacity == 0 {
        return Err(
            AppError::InvalidArgument(
                "benchmark trigger queue capacity must be greater than zero".to_owned(),
            ),
        );
    }
    Ok(())
}

/// The frame that an attempt asks for.
pub fn request(id: u64, options: &BenchmarkOptions) -> (request: CaptureRequest)
    ensures
        request == (CaptureRequest {
            id: CaptureId(id),
            source: options.source,
            mode: options.mode,
            cpu_frame: options.cpu_frame,
            retain_native_frame: false,
            cursor: options.cursor,
        }),
{
    CaptureRequest {
        id: CaptureId(id),
        source: options.source.clone(),
        mode: options.mode,
        cpu_frame: options.cpu_frame,
        retain_native_frame: false,
        cursor: options.cursor,
    }
}

/// Why a pointer is missing from a capture.
#[derive(Clone, Copy, Debug, Eq, PartialEq, Structural)]
pub enum CursorAbsence {
    NotVisible,
    SourceCannotCompose,
    SuppressedForSelection,
    ShapeNotYetKnown,
    PositionNotYetKnown,
}

/// What became of the pointer in a capture.
#[derive(Clone, Copy, Debug, Eq, PartialEq, Structural)]
pub enum CursorCapture {
    Excluded,
    Composited,
    Absent { reason: CursorAbsence },
}

/// What became of the pointer, as it is counted.
pub open spec fn cursor_name(cursor: Option<CursorCapture>) -> Seq<char> {
    match cursor {
        None => "not_recorded"@,
        Some(CursorCapture::Excluded) => "excluded"@,
        Some(CursorCapture::Composited) => "composited"@,
        Some(CursorCapture::Absent { reason }) => match reason {
            CursorAbsence::NotVisible => "absent_not_visible"@,
            CursorAbsence::SourceCannotCompose => "absent_source_cannot_compose"@,
            CursorAbsence::SuppressedForSelection => "absent_suppressed_for_selection"@,
            CursorAbsence::ShapeNotYetKnown => "absent_shape_not_yet_known"@,
            CursorAbsence::PositionNotYetKnown => "absent_position_not_yet_known"@,
        },
    }
}

/// What became of the pointer, as it is counted.
pub fn cursor_outcome_label(cursor: Option<CursorCapture>) -> (label: &'static str)
    ensures
        label@ == cursor_name(cursor),
{
    match cursor {
        None => "not_recorded",
        Some(CursorCapture::Excluded) => "excluded",
        Some(CursorCapture::Composited) => "composited",
        Some(CursorCapture::Absent { reason }) => match reason {
            CursorAbsence::NotVisible => "absent_not_visible",
            CursorAbsence::SourceCannotCompose => "absent_source_cannot_compose",
            CursorAbsence::SuppressedForSelection => "absent_suppressed_for_selection",
            CursorAbsence::ShapeNotYetKnown => "absent_shape_not_yet_known",
            CursorAbsence::PositionNotYetKnown => "absent_position_not_yet_known",
        },
    }
}

/// Why a capture failed, as it is counted.
pub fn capture_error_kind_label(kind: CaptureErrorKind) -> (label: &'static str)
    ensures
        label@ == kind.name(),
{
    match kind {
        CaptureErrorKind::Unsupported => "unsupported",
        CaptureErrorKind::PermissionDenied => "permission_denied",
        CaptureErrorKind::SourceUnavailable => "source_unavailable",
        CaptureErrorKind::DesktopUnavailable => "desktop_unavailable",
        CaptureErrorKind::Timeout => "timeout",
        CaptureErrorKind::AccessLost => "access_lost",
        CaptureErrorKind::DeviceRemoved => "device_removed",
        CaptureErrorKind::TopologyChanged => "topology_changed",
        CaptureErrorKind::BufferExhausted => "buffer_exhausted",
        CaptureErrorKind::WorkersExhausted => "workers_exhausted",
        CaptureErrorKind::PointerOutsideDisplays => "pointer_outside_displays",
        CaptureErrorKind::InvalidFrame => "invalid_frame",
        CaptureErrorKind::NativeFailure => "native_failure",
        CaptureErrorKind::ShuttingDown => "shutting_down",
    }
}

/// What an attempt gave.
#[derive(Clone, Copy, Debug, Eq, PartialEq, Structural)]
pub enum AttemptOutcome {
    Captured {
        native_ready_offset_ns: u64,
        cpu_ready_offset_ns: Option<u64>,
        frame_age_ns: Option<u64>,
        cursor: Option<CursorCapture>,
    },
    Failed(CaptureErrorKind),
}

/// What a run has counted so far.
#[derive(Debug)]
pub struct BenchmarkTally {
    pub attempts: usize,
    pub trigger_to_dequeue_samples: Vec<u64>,
    pub native_samples: Vec<u64>,
    pub cpu_samples: Vec<u64>,
    pub readback_samples: Vec<u64>,
    pub frame_age_samples: Vec<u64>,
    pub failures: usize,
    pub timeouts: usize,
    pub failures_by_kind: TextMap<usize>,
    pub cursor_outcomes: TextMap<usize>,
    pub successful_ids: Vec<CaptureId>,
}

/// A count under a name.
pub open spec fn count_of(counts: Map<Seq<char>, usize>, name: Seq<char>) -> int {
    if counts.dom().contains(name) {
        counts[name] as int
    } else {
        0
    }
}

/// Whether no count is larger than a limit.
pub open spec fn counts_within(counts: Map<Seq<char>, usize>, limit: int) -> bool {
    forall|name: Seq<char>| count_of(counts, name) <= limit
}

/// All counts together.
pub open spec fn count_total(counts: Map<Seq<char>, usize>) -> int
    decreases counts.dom().len(),
    when counts.dom().finite()
{
    if counts.dom().len() == 0 {
        0
    } else {
        let name = counts.dom().choose();
        counts[name] + count_total(counts.remove(name))
    }
}

/// Any count can be taken out of the total.
proof fn lemma_count_total(counts: Map<Seq<char>, usize>, name: Seq<char>)
    requires
        counts.dom().finite(),
        counts.dom().contains(name),
    ensures
        count_total(counts) == counts[name] + count_total(counts.remove(name)),
    decreases counts.dom().len(),
{
    let chosen = counts.dom().choose();
    if chosen != name {
        lemma_count_total(counts.remove(chosen), name);
        lemma_count_total(counts.remove(name), chosen);
        assert(counts.remove(chosen).remove(name) =~= counts.remove(name).remove(chosen));
    }
}

/// One more under a name is one more in all.
proof fn lemma_one_more(counts: Map<Seq<char>, usize>, name: Seq<char>)
    requires
        counts.dom().finite(),
        count_of(counts, name) < usize::MAX,
    ensures
        ({
            let after = counts.insert(name, (count_of(counts, name) + 1) as usize);
            after.dom().finite() && count_total(after) == count_total(counts) + 1
        }),
{
    let after = counts.insert(name, (count_of(counts, name) + 1) as usize);
    lemma_count_total(after, name);
    assert(after.remove(name) =~= counts.remove(name));
    if counts.dom().contains(name) {
        lemma_count_total(counts, name);
    } else {
        assert(counts.remove(name) =~= counts);
    }
}

/// Only a timeout is called one.
proof fn lemma_timeout_name(kind: CaptureErrorKind)
    ensures
        kind.name() == "timeout"@ <==> kind == CaptureErrorKind::Timeout,
{
    reveal_strlit("timeout");
    reveal_strlit("unsupported");
    reveal_strlit("permission_denied");
    reveal_strlit("source_unavailable");
    reveal_strlit("desktop_unavailable");
    reveal_strlit("access_lost");
    reveal_strlit("device_removed");
    reveal_strlit("topology_changed");
    reveal_strlit("buffer_exhausted");
    reveal_strlit("workers_exhausted");
    reveal_strlit("pointer_outside_displays");
    reveal_strlit("invalid_frame");
    reveal_strlit("native_failure");
    reveal_strlit("shutting_down");
    assert("timeout"@.len() == 7);
    assert(kind != CaptureErrorKind::Timeout ==> kind.name().len() > 7);
}

/// A sample added where there is one.
pub open spec fn with_sample(samples: Seq<u64>, value: Option<u64>) -> Seq<u64> {
    match value {
        Some(value) => samples.push(value),
        None => samples,
    }
}

/// How much later one moment is than another.
pub open spec fn time_between(later: u64, earlier: u64) -> u64 {
    if later > earlier {
        (later - earlier) as u64
    } else {
        0
    }
}

/// Counts one more under a name.
fn add_one(counts: &mut TextMap<usize>, name: &str)
    requires
        count_of(old(counts)@, name@) < usize::MAX,
    ensures
        final(counts)@ == old(counts)@.insert(name@, (count_of(old(counts)@, name@) + 1) as usize),
{
    let before: usize = match counts.get(name) {
        Some(count) => *count,
        None => 0,
    };
    let _ = counts.insert(name.to_owned(), before + 1);
}

impl BenchmarkTally {
    /// Whether the samples fit the counts: every attempt was dequeued, and every one either failed,
    /// for one reason, or has its native frame and one pointer outcome.
    pub open spec fn wf(self) -> bool {
        &&& self.trigger_to_dequeue_samples@.len() == self.attempts
        &&& self.failures <= self.attempts
        &&& self.native_samples@.len() == self.attempts - self.failures
        &&& self.successful_ids@.len() == self.attempts - self.failures
        &&& self.cpu_samples@.len() <= self.native_samples@.len()
        &&& self.readback_samples@.len() == self.cpu_samples@.len()
        &&& self.frame_age_samples@.len() <= self.native_samples@.len()
        &&& self.timeouts == count_of(self.failures_by_kind@, "timeout"@)
        &&& self.timeouts <= self.failures
        &&& self.failures_by_kind@.dom().finite()
        &&& count_total(self.failures_by_kind@) == self.failures
        &&& self.cursor_outcomes@.dom().finite()
        &&& count_total(self.cursor_outcomes@) == self.attempts - self.failures
        &&& counts_within(self.failures_by_kind@, self.attempts as int)
        &&& counts_within(self.cursor_outcomes@, self.attempts as int)
    }

    /// Nothing counted yet.
    pub fn new() -> (tally: Self)
        ensures
            tally.wf(),
            tally.attempts == 0,
            tally.failures_by_kind@ == Map::<Seq<char>, usize>::empty(),
            tally.cursor_outcomes@ == Map::<Seq<char>, usize>::empty(),
    {
        BenchmarkTally {
            attempts: 0,
            trigger_to_dequeue_samples: Vec::new(),
            native_samples: Vec::new(),
            cpu_samples: Vec::new(),
            readback_samples: Vec::new(),
            frame_age_samples: Vec::new(),
            failures: 0,
            timeouts: 0,
            failures_by_kind: TextMap::new(),
            cursor_outcomes: TextMap::new(),
            successful_ids: Vec::new(),
        }
    }

    /// Counts an attempt.
    pub fn attempt(&mut self, id: CaptureId, dequeued_ns: u64, outcome: AttemptOutcome)
        requires
            old(self).wf(),
            old(self).attempts < usize::MAX,
        ensures
            final(self).wf(),
            final(self).attempts == old(self).attempts + 1,
            final(self).trigger_to_dequeue_samples@ == old(self).trigger_to_dequeue_samples@.push(
                dequeued_ns,
            ),
            match outcome {
                AttemptOutcome::Captured {
                    native_ready_offset_ns,
                    cpu_ready_offset_ns,
                    frame_age_ns,
                    cursor,
                } => {
                    &&& final(self).successful_ids@ == old(self).successful_ids@.push(id)
                    &&& final(self).native_samples@ == old(self).native_samples@.push(
                        native_ready_offset_ns,
                    )
                    &&& final(self).cpu_samples@ == with_sample(
                        old(self).cpu_samples@,
                        cpu_ready_offset_ns,
                    )
                    &&& final(self).readback_samples@ == with_sample(
                        old(self).readback_samples@,
                        match cpu_ready_offset_ns {
                            Some(ready) => Some(time_between(ready, native_ready_offset_ns)),
                            None => None,
                        },
                    )
                    &&& final(self).frame_age_samples@ == with_sample(
                        old(self).frame_age_samples@,
                        frame_age_ns,
                    )
                    &&& final(self).cursor_outcomes@ == old(self).cursor_outcomes@.insert(
                        cursor_name(cursor),
                        (count_of(old(self).cursor_outcomes@, cursor_name(cursor)) + 1) as usize,
                    )
                    &&& final(self).failures == old(self).failures
                    &&& final(self).timeouts == old(self).timeouts
                    &&& final(self).failures_by_kind@ == old(self).failures_by_kind@
                },
                AttemptOutcome::Failed(kind) => {
                    &&& final(self).successful_ids@ == old(self).successful_ids@
                    &&& final(self).native_samples@ == old(self).native_samples@
                    &&& final(self).cpu_samples@ == old(self).cpu_samples@
                    &&& final(self).readback_samples@ == old(self).readback_samples@
                    &&& final(self).frame_age_samples@ == old(self).frame_age_samples@
                    &&& final(self).cursor_outcomes@ == old(self).cursor_outcomes@
                    &&& final(self).failures == old(self).failures + 1
                    &&& final(self).timeouts == old(self).timeouts + if kind
                        == CaptureErrorKind::Timeout {
                        1int
                    } else {
                        0
                    }
                    &&& final(self).failures_by_kind@ == old(self).failures_by_kind@.insert(
                        kind.name(),
                        (count_of(old(self).failures_by_kind@, kind.name()) + 1) as usize,
                    )
                },
            },
    {
        self.attempts = self.attempts + 1;
        self.trigger_to_dequeue_samples.push(dequeued_ns);
        match outcome {
            AttemptOutcome::Captured {
                native_ready_offset_ns,
                cpu_ready_offset_ns,
                frame_age_ns,
                cursor,
            } => {
                self.successful_ids.push(id);
                add_one(&mut self.cursor_outcomes, cursor_outcome_label(cursor));
                self.native_samples.push(native_ready_offset_ns);
                if let Some(ready) = cpu_ready_offset_ns {
                    self.cpu_samples.push(ready);
                    self.readback_samples.push(ready.saturating_sub(native_ready_offset_ns));
                }
                if let Some(age) = frame_age_ns {
                    self.frame_age_samples.push(age);
                }
                proof {
                    lemma_one_more(old(self).cursor_outcomes@, cursor_name(cursor));
                    lemma_counted(
                        old(self).cursor_outcomes@,
                        cursor_name(cursor),
                        old(self).attempts as int,
                    );
                }
            },
            AttemptOutcome::Failed(kind) => {
                self.failures = self.failures + 1;
                if kind == CaptureErrorKind::Timeout {
                    self.timeouts = self.timeouts + 1;
                }
                add_one(&mut self.failures_by_kind, capture_error_kind_label(kind));
                proof {
                    lemma_timeout_name(kind);
                    lemma_one_more(old(self).failures_by_kind@, kind.name());
                    lemma_counted(
                        old(self).failures_by_kind@,
                        kind.name(),
                        old(self).attempts as int,
                    );
                }
            },
        }
    }
}

/// One more under a name is at most one more than the limit.
proof fn lemma_counted(counts: Map<Seq<char>, usize>, name: Seq<char>, limit: int)
    requires
        counts_within(counts, limit),
        limit < usize::MAX,
    ensures
        counts_within(counts.insert(name, (count_of(counts, name) + 1) as usize), limit + 1),
{
    let after = counts.insert(name, (count_of(counts, name) + 1) as usize);
    assert forall|other: Seq<char>| count_of(after, other) <= limit + 1 by {
        assert(count_of(counts, other) <= limit);
    }
}

/// Something that happened during a capture.
#[derive(Clone, Copy, Debug, Eq, PartialEq, Structural)]
pub enum PerfEventKind {
    HotkeyReceived,
    TriggerEnqueued,
    TriggerDequeued,
    CaptureRequested,
    NativeFrameReady,
    ReadbackStarted,
    CpuFrameReady,
    SelectionStarted,
    SelectionConfirmed,
    CropFinished,
    ClipboardStarted,
    ClipboardCommitted,
    EncodeStarted,
    EncodeFinished,
    FileWriteStarted,
    FileWriteFinished,
    AttemptFinished,
}

/// When it happened.
#[derive(Clone, Copy, Debug, Eq, PartialEq, Structural)]
pub struct PerfEvent {
    pub capture_id: CaptureId,
    pub kind: PerfEventKind,
    pub ticks_ns: u64,
    pub value: u64,
}

/// Whether an event of a kind was recorded for a capture.
pub open spec fn happened(events: Seq<PerfEvent>, id: CaptureId, kind: PerfEventKind) -> bool {
    exists|i: int| 0 <= i < events.len() && #[trigger] events[i].capture_id == id && events[i].kind
        == kind
}

/// Whether all that has to happen for a capture was recorded for it.
pub open spec fn path_complete(events: Seq<PerfEvent>, id: CaptureId, cpu_frame: bool) -> bool {
    &&& happened(events, id, PerfEventKind::HotkeyReceived)
    &&& happened(events, id, PerfEventKind::TriggerEnqueued)
    &&& happened(events, id, PerfEventKind::TriggerDequeued)
    &&& happened(events, id, PerfEventKind::CaptureRequested)
    &&& happened(events, id, PerfEventKind::NativeFrameReady)
    &&& happened(events, id, PerfEventKind::AttemptFinished)
    &&& cpu_frame ==> happened(events, id, PerfEventKind::ReadbackStarted) && happened(
        events,
        id,
        PerfEventKind::CpuFrameReady,
    )
}

/// Whether an event of a kind was recorded for a capture.
fn recorded(events: &Vec<PerfEvent>, id: CaptureId, kind: PerfEventKind) -> (yes: bool)
    ensures
        yes == happened(events@, id, kind),
{
    let mut i: usize = 0;
    while i < events.len()
        invariant
            i <= events@.len(),
            forall|j: int|
                0 <= j < i ==> !(#[trigger] events@[j].capture_id == id && events@[j].kind == kind),
        decreases events@.len() - i,
    {
        if events[i].capture_id == id && events[i].kind == kind {
            return true;
        }
        i += 1;
    }
    false
}

/// Whether all that has to happen for a capture was recorded for it.
pub fn has_complete_capture_path(events: &Vec<PerfEvent>, id: CaptureId, cpu_frame: bool) -> (yes:
    bool)
    ensures
        yes == path_complete(events@, id, cpu_frame),
{
    recorded(events, id, PerfEventKind::HotkeyReceived) && recorded(
        events,
        id,
        PerfEventKind::TriggerEnqueued,
    ) && recorded(events, id, PerfEventKind::TriggerDequeued) && recorded(
        events,
        id,
        PerfEventKind::CaptureRequested,
    ) && recorded(events, id, PerfEventKind::NativeFrameReady) && recorded(
        events,
        id,
        PerfEventKind::AttemptFinished,
    ) && (!cpu_frame || (recorded(events, id, PerfEventKind::ReadbackStarted) && recorded(
        events,
        id,
        PerfEventKind::CpuFrameReady,
    )))
}

/// Whether nothing is missing from the events of a run: none was lost, and every capture that
/// succeeded has all of its own.
pub fn critical_path_order_verified(
    lost_events: u64,
    successful_ids: &Vec<CaptureId>,
    events: &Vec<PerfEvent>,
    cpu_frame: bool,
) -> (yes: bool)
    ensures
        yes == (lost_events == 0 && forall|i: int|
            0 <= i < successful_ids@.len() ==> path_complete(
                events@,
                #[trigger] successful_ids@[i],
                cpu_frame,
            )),
{
    if lost_events != 0 {
        return false;
    }
    let mut i: usize = 0;
    while i < successful_ids.len()
        invariant
            i <= successful_ids@.len(),
            forall|j: int|
                0 <= j < i ==> path_complete(events@, #[trigger] successful_ids@[j], cpu_frame),
        decreases successful_ids@.len() - i,
    {
        if !has_complete_capture_path(events, successful_ids[i], cpu_frame) {
            return false;
        }
        i += 1;
    }
    true
}

/// The version of the report format.
pub const REPORT_SCHEMA_VERSION: u32 = 3;

/// A benchmark run, as it is written out and read back.
#[derive(Debug)]
pub struct BenchmarkReport {
    pub schema_version: u32,
    pub backend: String,
    pub mode: String,
    /// Whether the pointer was drawn into the captures.
    pub cursor: String,
    pub synthetic: bool,
    pub warmup_iterations: usize,
    pub timed_iterations: usize,
    pub successes: usize,
    pub failures: usize,
    pub timeouts: usize,
    pub failures_by_kind: TextMap<usize>,
    /// What became of the pointer in each successful capture.
    pub cursor_outcomes: TextMap<usize>,
    pub trigger_to_dequeue_latency: LatencySummary,
    pub native_frame_latency: LatencySummary,
    pub cpu_frame_latency: Option<LatencySummary>,
    pub readback_latency: Option<LatencySummary>,
    pub frame_age: LatencySummary,
    pub lost_metric_events: u64,
    pub critical_path_order_verified: bool,
    pub environment: EnvironmentFingerprint,
}

/// The spreads of a run's samples.
#[derive(Clone, Copy, Debug, Eq, PartialEq, Structural)]
pub struct RunSummaries {
    pub trigger_to_dequeue: LatencySummary,
    pub native_frame: LatencySummary,
    pub cpu_frame: LatencySummary,
    pub readback: LatencySummary,
    pub frame_age: LatencySummary,
}

/// What a mode is called in reports.
pub open spec fn mode_name(mode: CaptureMode) -> Seq<char> {
    match mode {
        CaptureMode::Fresh { .. } => "fresh"@,
        CaptureMode::Latest { .. } => "latest"@,
    }
}

/// The report of a run.
pub fn report(
    options: &BenchmarkOptions,
    tally: BenchmarkTally,
    backend: &str,
    summaries: RunSummaries,
    lost_metric_events: u64,
    critical_path_order_verified: bool,
    environment: EnvironmentFingerprint,
) -> (report: BenchmarkReport)
    ensures
        report.schema_version == REPORT_SCHEMA_VERSION,
        report.backend@ == backend@,
        report.mode@ == mode_name(options.mode),
        report.cursor@ == match options.cursor {
            CursorMode::Include => "include"@,
            CursorMode::Exclude => "exclude"@,
        },
        report.synthetic == (backend@ == "fake"@),
        report.warmup_iterations == options.warmup,
        report.timed_iterations == options.iterations,
        report.successes == if options.iterations > tally.failures {
            options.iterations - tally.failures
        } else {
            0
        },
        report.failures == tally.failures,
        report.timeouts == tally.timeouts,
        report.failures_by_kind == tally.failures_by_kind,
        report.cursor_outcomes == tally.cursor_outcomes,
        report.trigger_to_dequeue_latency == summaries.trigger_to_dequeue,
        report.native_frame_latency == summaries.native_frame,
        report.cpu_frame_latency == if options.cpu_frame {
            Some(summaries.cpu_frame)
        } else {
            None
        },
        report.readback_latency == if options.cpu_frame {
            Some(summaries.readback)
        } else {
            None
        },
        report.frame_age == summaries.frame_age,
        report.lost_metric_events == lost_metric_events,
        report.critical_path_order_verified == critical_path_order_verified,
        report.environment == environment,
{
    BenchmarkReport {
        schema_version: REPORT_SCHEMA_VERSION,
        backend: backend.to_owned(),
        mode: match options.mode {
            CaptureMode::Fresh { .. } => "fresh".to_owned(),
            CaptureMode::Latest { .. } => "latest".to_owned(),
        },
        cursor: match options.cursor {
            CursorMode::Include => "include".to_owned(),
            CursorMode::Exclude => "exclude".to_owned(),
        },
        synthetic: same(backend, "fake"),
        warmup_iterations: options.warmup,
        timed_iterations: options.iterations,
        successes: options.iterations.saturating_sub(tally.failures),
        failures: tally.failures,
        timeouts: tally.timeouts,
        failures_by_kind: tally.failures_by_kind,
        cursor_outcomes: tally.cursor_outcomes,
        trigger_to_dequeue_latency: summaries.trigger_to_dequeue,
        native_frame_latency: summaries.native_frame,
        cpu_frame_latency: if options.cpu_frame {
            Some(summaries.cpu_frame)
        } else {
            None
        },
        readback_latency: if options.cpu_frame {
            Some(summaries.readback)
        } else {
            None
        },
        frame_age: summaries.frame_age,
        lost_metric_events,
        critical_path_order_verified,
        environment,
    }
}

/// Every attempt of a whole run is counted once, as a success or as a failure, and only a success
/// has samples. Every failure has one kind and every success one pointer outcome, and the timeouts
/// are the failures of that kind.
pub proof fn law_every_attempt_is_counted_once(tally: BenchmarkTally, iterations: usize)
    requires
        tally.wf(),
        tally.attempts == iterations,
    ensures
        iterations - tally.failures == tally.native_samples@.len(),
        tally.native_samples@.len() + tally.failures == iterations,
        tally.timeouts <= tally.failures,
        tally.readback_samples@.len() == tally.cpu_samples@.len(),
        count_total(tally.failures_by_kind@) == tally.failures,
        count_total(tally.cursor_outcomes@) == iterations - tally.failures,
        count_of(tally.failures_by_kind@, "timeout"@) == tally.timeouts,
{
}

/// What has to match before two runs may be compared: whether they asked the same question.
#[derive(Debug, Eq, PartialEq)]
pub struct RunCompatibility {
    pub backend: String,
    pub mode: String,
    pub cursor: String,
    pub cpu_frame: bool,
    pub synthetic: bool,
    pub build: String,
    pub debug_assertions: bool,
    pub displays: Vec<String>,
}

/// A truth value as it is shown.
pub open spec fn truth(value: bool) -> Seq<char> {
    if value {
        "true"@
    } else {
        "false"@
    }
}

/// A truth value as it is shown.
pub(crate) fn shown_truth(value: bool) -> (text: String)
    ensures
        text@ == truth(value),
{
    if value {
        "true".to_owned()
    } else {
        "false".to_owned()
    }
}

/// Texts with a separator between them.
pub open spec fn joined(list: Seq<String>, separator: Seq<char>) -> Seq<char>
    decreases list.len(),
{
    if list.len() == 0 {
        Seq::empty()
    } else if list.len() == 1 {
        list[0]@
    } else {
        joined(list.drop_last(), separator) + separator + list.last()@
    }
}

/// Texts with a separator between them.
pub fn join_texts(list: &Vec<String>, separator: &str) -> (text: String)
    ensures
        text@ == joined(list@, separator@),
{
    let mut text = String::new();
    let mut i: usize = 0;
    while i < list.len()
        invariant
            i <= list@.len(),
            text@ == joined(list@.take(i as int), separator@),
        decreases list@.len() - i,
    {
        if i > 0 {
            text.append(separator);
        }
        text.append(list[i].as_str());
        proof {
            let some = list@.take(i + 1);
            assert(some.drop_last() =~= list@.take(i as int));
        }
        i += 1;
    }
    proof {
        assert(list@.take(i as int) =~= list@);
    }
    text
}

/// Where two lists of answers differ, with both sides of each difference.
pub open spec fn differing(
    first: Seq<(Seq<char>, Seq<char>)>,
    second: Seq<(Seq<char>, Seq<char>)>,
) -> Seq<Seq<char>>
    decreases first.len(),
{
    if first.len() == 0 || second.len() == 0 {
        Seq::empty()
    } else {
        let before = differing(first.drop_last(), second.drop_last());
        if first.last().1 == second.last().1 {
            before
        } else {
            before.push(
                first.last().0 + " ("@ + first.last().1 + " vs "@ + second.last().1 + ")"@,
            )
        }
    }
}

/// The answers that a list of texts holds.
pub open spec fn answers_in(list: Seq<(&'static str, String)>) -> Seq<(Seq<char>, Seq<char>)> {
    Seq::new(list.len(), |i: int| (list[i].0@, list[i].1@))
}

/// Where two lists of answers differ.
pub fn name_differences(
    first: &Vec<(&'static str, String)>,
    second: &Vec<(&'static str, String)>,
) -> (differences: Vec<String>)
    requires
        first@.len() == second@.len(),
    ensures
        texts(differences@) == differing(answers_in(first@), answers_in(second@)),
{
    let mut differences: Vec<String> = Vec::new();
    let mut i: usize = 0;
    let ghost (a, b) = (answers_in(first@), answers_in(second@));
    while i < first.len()
        invariant
            i <= first@.len(),
            first@.len() == second@.len(),
            a == answers_in(first@),
            b == answers_in(second@),
            texts(differences@) == differing(a.take(i as int), b.take(i as int)),
        decreases first@.len() - i,
    {
        proof {
            assert(a.take(i + 1).drop_last() =~= a.take(i as int));
            assert(b.take(i + 1).drop_last() =~= b.take(i as int));
        }
        if !same(first[i].1.as_str(), second[i].1.as_str()) {
            let mut text = first[i].0.to_owned();
            text.append(" (");
            text.append(first[i].1.as_str());
            text.append(" vs ");
            text.append(second[i].1.as_str());
            text.append(")");
            differences.push(text);
        }
        i += 1;
    }
    proof {
        assert(a.take(i as int) =~= a);
        assert(b.take(i as int) =~= b);
    }
    differences
}

/// A display as it is compared.
pub open spec fn display_label(display: DisplayFingerprint) -> Seq<char> {
    display.id@ + ":"@ + decimal(display.width as nat) + "x"@ + decimal(display.height as nat) + "@"@
        + decimal(display.rotation_degrees as nat)
}

impl RunCompatibility {
    /// What was asked, by name and as it is shown.
    pub open spec fn answers(self) -> Seq<(Seq<char>, Seq<char>)> {
        seq![
            ("backend"@, self.backend@),
            ("mode"@, self.mode@),
            ("cursor"@, self.cursor@),
            ("cpu_frame"@, truth(self.cpu_frame)),
            ("synthetic"@, truth(self.synthetic)),
            ("build"@, self.build@),
            ("debug_assertions"@, truth(self.debug_assertions)),
            ("displays"@, joined(self.displays@, ","@)),
        ]
    }

    /// What a run was asking.
    pub fn of(report: &BenchmarkReport) -> (compatibility: Self)
        ensures
            compatibility.is_of(*report),
    {
        let displays = &report.environment.displays;
        let mut labels: Vec<String> = Vec::new();
        let mut i: usize = 0;
        while i < displays.len()
            invariant
                i <= displays@.len(),
                labels@.len() == i,
                displays@ == report.environment.displays@,
                forall|j: int| 0 <= j < i ==> (#[trigger] labels@[j])@ == display_label(displays@[j]),
            decreases displays@.len() - i,
        {
            let mut label = displays[i].id.clone();
            label.append(":");
            label.append(decimal_text(displays[i].width as u64).as_str());
            label.append("x");
            label.append(decimal_text(displays[i].height as u64).as_str());
            label.append("@");
            label.append(decimal_text(displays[i].rotation_degrees as u64).as_str());
            labels.push(label);
            i += 1;
        }
        RunCompatibility {
            backend: report.backend.clone(),
            mode: report.mode.clone(),
            cursor: report.cursor.clone(),
            cpu_frame: report.cpu_frame_latency.is_some(),
            synthetic: report.synthetic,
            build: report.environment.build.version.clone(),
            debug_assertions: report.environment.debug_assertions,
            displays: labels,
        }
    }

    /// Whether this is what a run was asking.
    pub open spec fn is_of(self, report: BenchmarkReport) -> bool {
        &&& self.backend == report.backend
        &&& self.mode == report.mode
        &&& self.cursor == report.cursor
        &&& self.cpu_frame == (report.cpu_frame_latency is Some)
        &&& self.synthetic == report.synthetic
        &&& self.build == report.environment.build.version
        &&& self.debug_assertions == report.environment.debug_assertions
        &&& self.displays@.len() == report.environment.displays@.len()
        &&& forall|i: int|
            0 <= i < self.displays@.len() ==> (#[trigger] self.displays@[i])@ == display_label(
                report.environment.displays@[i],
            )
    }

    /// What was asked, as texts.
    fn shown(&self) -> (list: Vec<(&'static str, String)>)
        ensures
            answers_in(list@) == self.answers(),
            list@.len() == 8,
    {
        let mut list: Vec<(&'static str, String)> = Vec::new();
        list.push(("backend", self.backend.clone()));
        list.push(("mode", self.mode.clone()));
        list.push(("cursor", self.cursor.clone()));
        list.push(("cpu_frame", shown_truth(self.cpu_frame)));
        list.push(("synthetic", shown_truth(self.synthetic)));
        list.push(("build", self.build.clone()));
        list.push(("debug_assertions", shown_truth(self.debug_assertions)));
        list.push(("displays", join_texts(&self.displays, ",")));
        list
    }

    /// Names every difference between what two runs were asking.
    pub fn differences(&self, other: &Self) -> (differences: Vec<String>)
        ensures
            texts(differences@) == differing(self.answers(), other.answers()),
    {
        name_differences(&self.shown(), &other.shown())
    }
}

/// Lists of answers to the same questions have no differences exactly where they are the same.
pub proof fn law_no_difference_means_the_same_answers(
    first: Seq<(Seq<char>, Seq<char>)>,
    second: Seq<(Seq<char>, Seq<char>)>,
)
    requires
        first.len() == second.len(),
        forall|i: int| 0 <= i < first.len() ==> (#[trigger] first[i]).0 == second[i].0,
    ensures
        differing(first, second).len() == 0 <==> first == second,
    decreases first.len(),
{
    if first.len() == 0 {
        assert(first =~= second);
    } else {
        let (a, b) = (first.drop_last(), second.drop_last());
        law_no_difference_means_the_same_answers(a, b);
        assert(first =~= a.push(first.last()));
        assert(second =~= b.push(second.last()));
        if first == second {
            assert(a == b);
        }
    }
}

/// How closely several runs agreed.
#[derive(Debug, Eq, PartialEq)]
pub struct RepeatAgreement {
    pub runs: usize,
    pub native_p50_ns: Vec<u64>,
    pub cpu_p50_ns: Vec<u64>,
    pub total_successes: usize,
    pub total_failures: usize,
}

/// Several runs of the same question, and what they agree on.
#[derive(Debug)]
pub struct RepeatedBenchmark {
    pub schema_version: u32,
    pub runs: Vec<BenchmarkReport>,
    pub compatibility: RunCompatibility,
    /// Empty where every run matched.
    pub incompatibilities: Vec<String>,
    /// Only where every run matched.
    pub agreement: Option<RepeatAgreement>,
}

/// Refuses to repeat a run no times.
pub fn check_repeat(repeat: usize) -> (result: Result<(), AppError>)
    ensures
        match result {
            Ok(()) => repeat > 0,
            Err(error) => repeat == 0 && (error matches AppError::InvalidArgument(text) && text@
                == "repeat must be greater than zero"@),
        },
{
    if repeat == 0 {
        return Err(AppError::InvalidArgument("repeat must be greater than zero".to_owned()));
    }
    Ok(())
}

/// The medians of the native frames of runs.
pub open spec fn native_medians(runs: Seq<BenchmarkReport>) -> Seq<u64> {
    Seq::new(runs.len(), |i: int| runs[i].native_frame_latency.p50_ns)
}

/// The medians of the pixels of runs, of those that read them back.
pub open spec fn cpu_medians(runs: Seq<BenchmarkReport>) -> Seq<u64>
    decreases runs.len(),
{
    if runs.len() == 0 {
        Seq::empty()
    } else {
        match runs.last().cpu_frame_latency {
            Some(summary) => cpu_medians(runs.drop_last()).push(summary.p50_ns),
            None => cpu_medians(runs.drop_last()),
        }
    }
}

/// The captures of runs that succeeded.
pub open spec fn successes_of(runs: Seq<BenchmarkReport>) -> int
    decreases runs.len(),
{
    if runs.len() == 0 {
        0
    } else {
        successes_of(runs.drop_last()) + runs.last().successes
    }
}

/// The captures of runs that failed.
pub open spec fn failures_of(runs: Seq<BenchmarkReport>) -> int
    decreases runs.len(),
{
    if runs.len() == 0 {
        0
    } else {
        failures_of(runs.drop_last()) + runs.last().failures
    }
}

/// What a run was asking, by name and as it is shown.
pub open spec fn asked(report: BenchmarkReport) -> Seq<(Seq<char>, Seq<char>)> {
    seq![
        ("backend"@, report.backend@),
        ("mode"@, report.mode@),
        ("cursor"@, report.cursor@),
        ("cpu_frame"@, truth(report.cpu_frame_latency is Some)),
        ("synthetic"@, truth(report.synthetic)),
        ("build"@, report.environment.build.version@),
        ("debug_assertions"@, truth(report.environment.debug_assertions)),
        ("displays"@, display_labels(report.environment.displays@)),
    ]
}

/// Displays as they are compared.
pub open spec fn display_labels(displays: Seq<DisplayFingerprint>) -> Seq<char>
    decreases displays.len(),
{
    if displays.len() == 0 {
        Seq::empty()
    } else if displays.len() == 1 {
        display_label(displays[0])
    } else {
        display_labels(displays.drop_last()) + ","@ + display_label(displays.last())
    }
}

/// What a run was asking determines how it is compared.
pub proof fn lemma_asked(compatibility: RunCompatibility, report: BenchmarkReport)
    requires
        compatibility.is_of(report),
    ensures
        compatibility.answers() == asked(report),
{
    lemma_labels(compatibility.displays@, report.environment.displays@);
}

/// Labels joined are displays as they are compared.
proof fn lemma_labels(
    labels: Seq<String>,
    displays: Seq<DisplayFingerprint>,
)
    requires
        labels.len() == displays.len(),
        forall|i: int|
            0 <= i < labels.len() ==> (#[trigger] labels[i])@ == display_label(displays[i]),
    ensures
        joined(labels, ","@) == display_labels(displays),
    decreases labels.len(),
{
    if labels.len() > 1 {
        lemma_labels(labels.drop_last(), displays.drop_last());
    } else if labels.len() == 1 {
        assert(labels[0]@ == display_label(displays[0]));
    }
}

/// Where two runs differ in what they asked, and in the machine that answered.
pub open spec fn all_differences(a: BenchmarkReport, b: BenchmarkReport) -> Seq<Seq<char>> {
    differing(asked(a), asked(b)) + differing(identity(a.environment), identity(b.environment))
}

/// Where two machines differ.
fn machine_differences(a: &EnvironmentFingerprint, b: &EnvironmentFingerprint) -> (list: Vec<String>)
    ensures
        texts(list@) == differing(identity(*a), identity(*b)),
{
    let first = identity_of(a);
    let second = identity_of(b);
    proof {
        assert(answers_in(first@) =~= identity(*a));
        assert(answers_in(second@) =~= identity(*b));
    }
    name_differences(&first, &second)
}

/// Where two runs differ in what they asked, and in the machine that answered.
pub fn name_all_differences(a: &BenchmarkReport, b: &BenchmarkReport) -> (differences: Vec<String>)
    ensures
        texts(differences@) == all_differences(*a, *b),
{
    let (first, second) = (RunCompatibility::of(a), RunCompatibility::of(b));
    proof {
        lemma_asked(first, *a);
        lemma_asked(second, *b);
    }
    let mut differences = first.differences(&second);
    let mut more = machine_differences(&a.environment, &b.environment);
    let ghost (own, machine) = (texts(differences@), texts(more@));
    differences.append(&mut more);
    proof {
        assert(texts(differences@) =~= own + machine);
    }
    differences
}

/// Runs without a difference asked the same and ran on the same machine.
pub proof fn lemma_all_differences(a: BenchmarkReport, b: BenchmarkReport)
    ensures
        all_differences(a, b).len() == 0 <==> asked(a) == asked(b) && identity(a.environment)
            == identity(b.environment),
{
    law_no_difference_means_the_same_answers(asked(a), asked(b));
    law_no_difference_means_the_same_answers(identity(a.environment), identity(b.environment));
}

/// The differences of one run, each with the number of the run.
pub open spec fn numbered(differences: Seq<Seq<char>>, number: int) -> Seq<Seq<char>> {
    Seq::new(
        differences.len(),
        |i: int| "run "@ + decimal(number as nat) + " differs in "@ + differences[i],
    )
}

/// Where runs differ from the first one.
pub open spec fn mismatches(runs: Seq<BenchmarkReport>) -> Seq<Seq<char>>
    decreases runs.len(),
{
    if runs.len() <= 1 {
        Seq::empty()
    } else {
        mismatches(runs.drop_last()) + numbered(
            all_differences(runs[0], runs.last()),
            runs.len() as int,
        )
    }
}

/// Where runs differ from the first one.
fn name_mismatches(runs: &Vec<BenchmarkReport>) -> (list: Vec<String>)
    requires
        runs@.len() > 0,
    ensures
        texts(list@) == mismatches(runs@),
{
    let mut list: Vec<String> = Vec::new();
    let count: usize = runs.len();
    let mut i: usize = 1;
    while i < count
        invariant
            1 <= i <= count,
            count == runs@.len(),
            texts(list@) == mismatches(runs@.take(i as int)),
        decreases runs@.len() - i,
    {
        let differences = name_all_differences(&runs[0], &runs[i]);
        let ghost before = texts(list@);
        let ghost named = texts(differences@);
        let mut j: usize = 0;
        while j < differences.len()
            invariant
                j <= differences@.len(),
                i < count,
                named == texts(differences@),
                texts(list@) == before + numbered(named, i + 1).take(j as int),
            decreases differences@.len() - j,
        {
            let mut text = "run ".to_owned();
            text.append(decimal_text(i as u64 + 1).as_str());
            text.append(" differs in ");
            text.append(differences[j].as_str());
            let ghost so_far = texts(list@);
            list.push(text);
            proof {
                assert(texts(list@) =~= so_far.push(text@));
            }
            j += 1;
        }
        proof {
            assert(runs@.take(i + 1).drop_last() =~= runs@.take(i as int));
        }
        i += 1;
    }
    proof {
        assert(runs@.take(i as int) =~= runs@);
    }
    list
}

/// What runs agree on.
fn agreement_of(runs: &Vec<BenchmarkReport>) -> (agreement: RepeatAgreement)
    requires
        successes_of(runs@) <= usize::MAX,
        failures_of(runs@) <= usize::MAX,
    ensures
        agreement.runs == runs@.len(),
        agreement.native_p50_ns@ == native_medians(runs@),
        agreement.cpu_p50_ns@ == cpu_medians(runs@),
        agreement.total_successes == successes_of(runs@),
        agreement.total_failures == failures_of(runs@),
{
    let mut native: Vec<u64> = Vec::new();
    let mut cpu: Vec<u64> = Vec::new();
    let mut successes: usize = 0;
    let mut failures: usize = 0;
    let mut i: usize = 0;
    while i < runs.len()
        invariant
            i <= runs@.len(),
            successes_of(runs@) <= usize::MAX,
            failures_of(runs@) <= usize::MAX,
            native@ == native_medians(runs@).take(i as int),
            cpu@ == cpu_medians(runs@.take(i as int)),
            successes == successes_of(runs@.take(i as int)),
            failures == failures_of(runs@.take(i as int)),
        decreases runs@.len() - i,
    {
        proof {
            assert(runs@.take(i + 1).drop_last() =~= runs@.take(i as int));
            lemma_totals_grow(runs@, i + 1);
        }
        native.push(runs[i].native_frame_latency.p50_ns);
        if let Some(summary) = &runs[i].cpu_frame_latency {
            cpu.push(summary.p50_ns);
        }
        successes = successes + runs[i].successes;
        failures = failures + runs[i].failures;
        i += 1;
    }
    proof {
        assert(runs@.take(i as int) =~= runs@);
    }
    RepeatAgreement {
        runs: runs.len(),
        native_p50_ns: native,
        cpu_p50_ns: cpu,
        total_successes: successes,
        total_failures: failures,
    }
}

/// Totals only grow.
proof fn lemma_totals_grow(runs: Seq<BenchmarkReport>, n: int)
    requires
        0 <= n <= runs.len(),
    ensures
        0 <= successes_of(runs.take(n)) <= successes_of(runs),
        0 <= failures_of(runs.take(n)) <= failures_of(runs),
    decreases runs.len(),
{
    if n == runs.len() {
        assert(runs.take(n) =~= runs);
        if n > 0 {
            lemma_totals_grow(runs.drop_last(), n - 1);
        }
    } else {
        assert(runs.drop_last().take(n) =~= runs.take(n));
        lemma_totals_grow(runs.drop_last(), n);
    }
}

/// Puts runs together, or says where they differ: runs that did not measure the same thing are never
/// summed up.
pub fn run_repeated(runs: Vec<BenchmarkReport>) -> (repeated: RepeatedBenchmark)
    requires
        runs@.len() > 0,
        successes_of(runs@) <= usize::MAX,
        failures_of(runs@) <= usize::MAX,
    ensures
        repeated.schema_version == 1,
        repeated.runs == runs,
        repeated.compatibility.is_of(runs@[0]),
        texts(repeated.incompatibilities@) == mismatches(runs@),
        match repeated.agreement {
            Some(agreement) => mismatches(runs@).len() == 0 && agreement.runs == runs@.len()
                && agreement.native_p50_ns@ == native_medians(runs@) && agreement.cpu_p50_ns@
                == cpu_medians(runs@) && agreement.total_successes == successes_of(runs@)
                && agreement.total_failures == failures_of(runs@),
            None => mismatches(runs@).len() > 0,
        },
{
    let compatibility = RunCompatibility::of(&runs[0]);
    let incompatibilities = name_mismatches(&runs);
    let agreement = if incompatibilities.len() == 0 {
        Some(agreement_of(&runs))
    } else {
        None
    };
    RepeatedBenchmark { schema_version: 1, runs, compatibility, incompatibilities, agreement }
}

/// Runs are summed up only where every one of them asked what the first one asked, on the same
/// machine.
pub proof fn law_only_matching_runs_are_summed_up(runs: Seq<BenchmarkReport>, i: int)
    requires
        mismatches(runs).len() == 0,
        0 <= i < runs.len(),
    ensures
        asked(runs[i]) == asked(runs[0]),
        identity(runs[i].environment) == identity(runs[0].environment),
    decreases runs.len(),
{
    if runs.len() > 1 {
        let last = runs.len() - 1;
        if i == last {
            lemma_all_differences(runs[0], runs.last());
        } else {
            law_only_matching_runs_are_summed_up(runs.drop_last(), i);
        }
    }
}

/// Two displays of the same name are labelled the same only if they have the same size and rotation.
#[verifier::rlimit(40)]
pub proof fn law_display_labels_tell_sizes_apart(a: DisplayFingerprint, b: DisplayFingerprint)
    requires
        a.id@ == b.id@,
        display_label(a) == display_label(b),
    ensures
        a.width == b.width,
        a.height == b.height,
        a.rotation_degrees == b.rotation_degrees,
{
    reveal_strlit(":");
    reveal_strlit("x");
    reveal_strlit("@");
    let n = a.id@.len() as int + 1;
    let (p, q) = (display_label(a).skip(n), display_label(b).skip(n));
    let (aw, ah, ar) = (
        decimal(a.width as nat),
        decimal(a.height as nat),
        decimal(a.rotation_degrees as nat),
    );
    let (bw, bh, br) = (
        decimal(b.width as nat),
        decimal(b.height as nat),
        decimal(b.rotation_degrees as nat),
    );
    assert(p =~= aw + seq!['x'] + (ah + seq!['@'] + ar));
    assert(q =~= bw + seq!['x'] + (bh + seq!['@'] + br));
    lemma_decimal_digits(a.width as nat);
    lemma_decimal_digits(b.width as nat);
    lemma_decimal_digits(a.height as nat);
    lemma_decimal_digits(b.height as nat);
    lemma_digits_end_at(aw, ah + seq!['@'] + ar, bw, bh + seq!['@'] + br, 'x');
    lemma_digits_end_at(ah, ar, bh, br, '@');
    lemma_decimal_injective(a.width as nat, b.width as nat);
    lemma_decimal_injective(a.height as nat, b.height as nat);
    lemma_decimal_injective(a.rotation_degrees as nat, b.rotation_degrees as nat);
}

/// Digits up to the same mark in the same text are the same, and so is what follows.
proof fn lemma_digits_end_at(
    a: Seq<char>,
    after_a: Seq<char>,
    b: Seq<char>,
    after_b: Seq<char>,
    mark: char,
)
    requires
        a + seq![mark] + after_a == b + seq![mark] + after_b,
        forall|i: int| 0 <= i < a.len() ==> '0' <= #[trigger] a[i] <= '9',
        forall|i: int| 0 <= i < b.len() ==> '0' <= #[trigger] b[i] <= '9',
        mark > '9',
    ensures
        a == b,
        after_a == after_b,
{
    let (p, q) = (a + seq![mark] + after_a, b + seq![mark] + after_b);
    assert(p[a.len() as int] == mark);
    assert(q[b.len() as int] == mark);
    if a.len() < b.len() {
        assert(q[a.len() as int] == b[a.len() as int]);
    }
    if b.len() < a.len() {
        assert(p[b.len() as int] == a[b.len() as int]);
    }
    assert(p.take(a.len() as int) =~= a);
    assert(q.take(b.len() as int) =~= b);
    assert(p.skip(a.len() as int + 1) =~= after_a);
    assert(q.skip(b.len() as int + 1) =~= after_b);
}

/// Runs that can be put side by side asked the same question, in every part of it: the backend, the
/// mode, the pointer, whether frames went to the processor, whether they were made up, the build and
/// whether it checks itself. They ran on machines that are the same in all that is known of them. Runs
/// on the same displays of which all that and the adapters are the same can be put side by side.
pub proof fn law_comparable_runs_are_the_same_in_every_part(a: BenchmarkReport, b: BenchmarkReport)
    ensures
        all_differences(a, b).len() == 0 ==> {
            &&& a.backend@ == b.backend@
            &&& a.mode@ == b.mode@
            &&& a.cursor@ == b.cursor@
            &&& a.cpu_frame_latency is Some == b.cpu_frame_latency is Some
            &&& a.synthetic == b.synthetic
            &&& a.environment.build.version@ == b.environment.build.version@
            &&& a.environment.debug_assertions == b.environment.debug_assertions
            &&& a.environment.os@ == b.environment.os@
            &&& a.environment.architecture@ == b.environment.architecture@
            &&& says_alike(a.environment.os_build, b.environment.os_build)
            &&& says_alike(a.environment.cpu, b.environment.cpu)
            &&& a.environment.logical_cpus == b.environment.logical_cpus
            &&& says_alike(a.environment.session, b.environment.session)
            &&& says_alike(a.environment.power_source, b.environment.power_source)
            &&& says_alike(a.environment.power_plan, b.environment.power_plan)
        },
        all_differences(a, b).len() == 0 && a.environment.displays@.len() == 1
            && b.environment.displays@.len() == 1 && a.environment.displays@[0].id@
            == b.environment.displays@[0].id@ ==> {
            &&& a.environment.displays@[0].width == b.environment.displays@[0].width
            &&& a.environment.displays@[0].height == b.environment.displays@[0].height
            &&& a.environment.displays@[0].rotation_degrees
                == b.environment.displays@[0].rotation_degrees
        },
        ({
            &&& a.backend@ == b.backend@
            &&& a.mode@ == b.mode@
            &&& a.cursor@ == b.cursor@
            &&& a.cpu_frame_latency is Some == b.cpu_frame_latency is Some
            &&& a.synthetic == b.synthetic
            &&& a.environment.build.version@ == b.environment.build.version@
            &&& a.environment.debug_assertions == b.environment.debug_assertions
            &&& a.environment.displays@ == b.environment.displays@
            &&& a.environment.os@ == b.environment.os@
            &&& a.environment.architecture@ == b.environment.architecture@
            &&& says_alike(a.environment.os_build, b.environment.os_build)
            &&& says_alike(a.environment.cpu, b.environment.cpu)
            &&& a.environment.logical_cpus == b.environment.logical_cpus
            &&& same_adapters(a.environment.adapters@, b.environment.adapters@)
            &&& says_alike(a.environment.session, b.environment.session)
            &&& says_alike(a.environment.power_source, b.environment.power_source)
            &&& says_alike(a.environment.power_plan, b.environment.power_plan)
        }) ==> all_differences(a, b).len() == 0,
{
    lemma_all_differences(a, b);
    law_an_identity_is_all_that_tells_machines_apart(a.environment, b.environment);
    reveal_strlit("true");
    reveal_strlit("false");
    assert(truth(true).len() == 4 && truth(false).len() == 5);
    let (x, y) = (asked(a), asked(b));
    if x == y {
        assert(x[0] == y[0] && x[1] == y[1] && x[2] == y[2] && x[3] == y[3] && x[4] == y[4] && x[5]
            == y[5] && x[6] == y[6] && x[7] == y[7]);
        let (p, q) = (a.environment.displays@, b.environment.displays@);
        if p.len() == 1 && q.len() == 1 && p[0].id@ == q[0].id@ {
            law_display_labels_tell_sizes_apart(p[0], q[0]);
        }
    }
}

/// What differs is named with what both sides say, the first side first.
pub proof fn law_a_difference_is_named_with_both_sides(
    first: Seq<(Seq<char>, Seq<char>)>,
    second: Seq<(Seq<char>, Seq<char>)>,
    i: int,
)
    requires
        first.len() == second.len(),
        0 <= i < first.len(),
        first[i].1 != second[i].1,
    ensures
        differing(first, second).contains(
            first[i].0 + " ("@ + first[i].1 + " vs "@ + second[i].1 + ")"@,
        ),
    decreases first.len(),
{
    let named = first[i].0 + " ("@ + first[i].1 + " vs "@ + second[i].1 + ")"@;
    let (p, q) = (first.drop_last(), second.drop_last());
    let all = differing(first, second);
    let before = differing(p, q);
    if i < p.len() {
        law_a_difference_is_named_with_both_sides(p, q, i);
        let j = choose|j: int| 0 <= j < before.len() && before[j] == named;
        assert(all[j] == named);
    } else {
        assert(all[all.len() - 1] == named);
    }
}

/// Runs agree exactly where each of them can be put beside the first.
pub proof fn law_runs_agree_where_each_matches_the_first(runs: Seq<BenchmarkReport>)
    ensures
        mismatches(runs).len() == 0 <==> forall|i: int|
            1 <= i < runs.len() ==> all_differences(runs[0], #[trigger] runs[i]).len() == 0,
    decreases runs.len(),
{
    if runs.len() > 1 {
        let front = runs.drop_last();
        law_runs_agree_where_each_matches_the_first(front);
        let last = runs.len() - 1;
        assert(front[0] == runs[0]);
        if mismatches(runs).len() == 0 {
            assert forall|i: int| 1 <= i < runs.len() implies all_differences(
                runs[0],
                #[trigger] runs[i],
            ).len() == 0 by {
                if i < last {
                    assert(all_differences(front[0], front[i]).len() == 0);
                }
            }
        }
        if forall|i: int|
            1 <= i < runs.len() ==> all_differences(runs[0], #[trigger] runs[i]).len() == 0 {
            assert forall|i: int| 1 <= i < front.len() implies all_differences(
                front[0],
                #[trigger] front[i],
            ).len() == 0 by {
                assert(all_differences(runs[0], runs[i]).len() == 0);
            }
            assert(all_differences(runs[0], runs[last]).len() == 0);
        }
    }
}

/// One more run adds its own median, the one of its frames for the processor where it has them, its
/// successes and its failures to what the runs before it said, and no run says nothing.
pub proof fn law_each_run_adds_its_own_figures(runs: Seq<BenchmarkReport>, run: BenchmarkReport)
    ensures
        native_medians(runs.push(run)) == native_medians(runs).push(run.native_frame_latency.p50_ns),
        cpu_medians(runs.push(run)) == match run.cpu_frame_latency {
            Some(cpu) => cpu_medians(runs).push(cpu.p50_ns),
            None => cpu_medians(runs),
        },
        successes_of(runs.push(run)) == successes_of(runs) + run.successes,
        failures_of(runs.push(run)) == failures_of(runs) + run.failures,
        native_medians(Seq::empty()).len() == 0 && cpu_medians(Seq::empty()).len() == 0,
        successes_of(Seq::empty()) == 0 && failures_of(Seq::empty()) == 0,
{
    assert(runs.push(run).drop_last() =~= runs);
    assert(native_medians(runs.push(run)) =~= native_medians(runs).push(
        run.native_frame_latency.p50_ns,
    ));
}

/// The time between two moments is what the later is after the earlier, and none the other way round.
pub proof fn law_time_runs_forward(later: u64, earlier: u64)
    ensures
        later >= earlier ==> time_between(later, earlier) + earlier == later,
        later <= earlier ==> time_between(later, earlier) == 0,
{
}

/// A capture is complete only with each of its steps on record under its own number: the trigger
/// received, queued and taken, the frame asked for and there, the attempt ended, and for a frame that
/// goes to the processor its reading started and done. No other step is needed.
pub proof fn law_a_complete_capture_has_every_step(
    events: Seq<PerfEvent>,
    id: CaptureId,
    cpu_frame: bool,
    kind: PerfEventKind,
)
    ensures
        path_complete(events, id, cpu_frame) && (kind == PerfEventKind::HotkeyReceived || kind
            == PerfEventKind::TriggerEnqueued || kind == PerfEventKind::TriggerDequeued || kind
            == PerfEventKind::CaptureRequested || kind == PerfEventKind::NativeFrameReady || kind
            == PerfEventKind::AttemptFinished || cpu_frame && (kind
            == PerfEventKind::ReadbackStarted || kind == PerfEventKind::CpuFrameReady)) ==> exists|
            i: int,
        |
            0 <= i < events.len() && (#[trigger] events[i]).capture_id == id && events[i].kind == kind,
        path_complete(events, id, true) ==> path_complete(events, id, false),
        !path_complete(events, id, cpu_frame) ==> exists|missing: PerfEventKind|
            #![auto]
            (missing == PerfEventKind::HotkeyReceived || missing == PerfEventKind::TriggerEnqueued
                || missing == PerfEventKind::TriggerDequeued || missing
                == PerfEventKind::CaptureRequested || missing == PerfEventKind::NativeFrameReady
                || missing == PerfEventKind::AttemptFinished || missing
                == PerfEventKind::ReadbackStarted || missing == PerfEventKind::CpuFrameReady)
                && !happened(events, id, missing),
{
}

/// Different fates of the pointer are told apart by their names.
pub proof fn law_fates_of_the_pointer_have_their_own_names(
    a: Option<CursorCapture>,
    b: Option<CursorCapture>,
)
    requires
        cursor_name(a) == cursor_name(b),
    ensures
        a == b,
{
    reveal_strlit("not_recorded");
    reveal_strlit("excluded");
    reveal_strlit("composited");
    reveal_strlit("absent_not_visible");
    reveal_strlit("absent_source_cannot_compose");
    reveal_strlit("absent_suppressed_for_selection");
    reveal_strlit("absent_shape_not_yet_known");
    reveal_strlit("absent_position_not_yet_known");
    let (p, q) = (cursor_name(a), cursor_name(b));
    assert(p.len() == q.len());
    assert(p[1] == q[1]);
}

/// Counts add up: none are nothing, and each name adds its own.
pub proof fn law_counts_add_up(counts: Map<Seq<char>, usize>, name: Seq<char>)
    requires
        counts.dom().finite(),
    ensures
        count_total(Map::<Seq<char>, usize>::empty()) == 0,
        counts.dom().contains(name) ==> count_total(counts) == counts[name] + count_total(
            counts.remove(name),
        ),
{
    if counts.dom().contains(name) {
        lemma_count_total(counts, name);
    }
}

/// Every attempt of a run was dequeued, and either failed for one reason or has its frame, its number and
/// one fate of the pointer.
pub proof fn law_every_attempt_is_accounted_for(tally: BenchmarkTally)
    requires
        tally.wf(),
    ensures
        tally.trigger_to_dequeue_samples@.len() == tally.attempts,
        tally.native_samples@.len() + tally.failures == tally.attempts,
        tally.successful_ids@.len() + tally.failures == tally.attempts,
        tally.readback_samples@.len() == tally.cpu_samples@.len(),
        tally.cpu_samples@.len() <= tally.native_samples@.len(),
        tally.frame_age_samples@.len() <= tally.native_samples@.len(),
        count_total(tally.failures_by_kind@) == tally.failures,
        count_total(tally.cursor_outcomes@) + tally.failures == tally.attempts,
        tally.timeouts == count_of(tally.failures_by_kind@, "timeout"@),
{
}

} // verus!
