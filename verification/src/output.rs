//! The seam between a finished capture and wherever it is delivered.
//!
//! A destination accepts a job or gives it back, and a rejection is a fact about that destination
//! alone.
use vstd::prelude::*;

use std::sync::mpsc::SyncSender;

use crate::capture::{CaptureId, CpuFrame};
use crate::hotkey::{HotkeyAction, HotkeyChord};

verus! {

/// The sending half of a bounded queue.
#[verifier::external_type_specification]
#[verifier::external_body]
#[verifier::reject_recursive_types(T)]
pub struct ExSyncSender<T>(SyncSender<T>);

/// A capture, complete and owned, on its way to a destination.
#[derive(Debug)]
pub struct OutputJob {
    pub capture_id: CaptureId,
    /// When the capture was asked for, in nanoseconds on the monotonic clock.
    pub triggered_at: u64,
    pub action: HotkeyAction,
    pub chord: Option<HotkeyChord>,
    pub cpu_ready_offset_ns: u64,
    pub source: &'static str,
    pub frame: CpuFrame,
    /// The captured window's title, where a window was captured. Untrusted text: the application
    /// that owns the window chose it.
    pub window_title: Option<String>,
    /// The name of the application that owns the captured window, where it could be read.
    pub window_application: Option<String>,
}

impl OutputJob {
    /// Whether two jobs deliver the same.
    pub open spec fn is_like(self, other: OutputJob) -> bool {
        &&& self.capture_id == other.capture_id
        &&& self.triggered_at == other.triggered_at
        &&& self.action == other.action
        &&& self.chord == other.chord
        &&& self.cpu_ready_offset_ns == other.cpu_ready_offset_ns
        &&& self.source@ == other.source@
        &&& self.frame.is_like(other.frame)
        &&& self.window_title == other.window_title
        &&& self.window_application == other.window_application
    }
}

impl Clone for OutputJob {
    fn clone(&self) -> (copy: Self)
        ensures
            copy.is_like(*self),
    {
        OutputJob {
            capture_id: self.capture_id,
            triggered_at: self.triggered_at,
            action: self.action,
            chord: self.chord,
            cpu_ready_offset_ns: self.cpu_ready_offset_ns,
            source: self.source,
            frame: self.frame.clone(),
            window_title: self.window_title.clone(),
            window_application: self.window_application.clone(),
        }
    }
}

/// Why a destination would not take a job, with the job handed back.
#[derive(Debug)]
pub enum OutputRejection {
    /// The destination's queue is full.
    QueueFull(Box<OutputJob>),
    /// The destination's worker has stopped.
    Disconnected(Box<OutputJob>),
}

impl OutputRejection {
    /// The job that was handed back.
    pub open spec fn job(self) -> OutputJob {
        match self {
            OutputRejection::QueueFull(job) => *job,
            OutputRejection::Disconnected(job) => *job,
        }
    }

    /// The reason, as it appears in structured output and logs.
    pub fn status(&self) -> (status: &'static str)
        ensures
            status@ == match self {
                OutputRejection::QueueFull(_) => "queue_full"@,
                OutputRejection::Disconnected(_) => "worker_disconnected"@,
            },
    {
        match self {
            OutputRejection::QueueFull(_) => "queue_full",
            OutputRejection::Disconnected(_) => "worker_disconnected",
        }
    }

    /// The job that was handed back.
    pub fn into_job(self) -> (job: Box<OutputJob>)
        ensures
            *job == self.job(),
    {
        match self {
            OutputRejection::QueueFull(job) => job,
            OutputRejection::Disconnected(job) => job,
        }
    }
}

/// Somewhere a finished capture can be delivered.
pub trait OutputSink: Send + Sync {
    /// What the destination is called.
    spec fn label(&self) -> Seq<char>;

    /// Names the destination for logs and structured output.
    fn name(&self) -> (name: &'static str)
        ensures
            name@ == self.label(),
    ;

    /// Hands the job over without waiting, or gives it back unchanged.
    fn submit(&self, job: OutputJob) -> (result: Result<(), OutputRejection>)
        ensures
            result matches Err(rejection) ==> rejection.job() == job,
    ;
}

/// A destination behind a bounded queue to a worker.
pub struct ChannelSink {
    name: &'static str,
    sender: SyncSender<OutputJob>,
}

impl ChannelSink {
    /// What the destination is called.
    pub closed spec fn destination(&self) -> Seq<char> {
        self.name@
    }

    pub fn new(name: &'static str, sender: SyncSender<OutputJob>) -> (sink: Self)
        ensures
            sink.destination() == name@,
    {
        ChannelSink { name, sender }
    }
}

impl OutputSink for ChannelSink {
    open spec fn label(&self) -> Seq<char> {
        self.destination()
    }

    fn name(&self) -> (name: &'static str) {
        self.name
    }

    fn submit(&self, job: OutputJob) -> (result: Result<(), OutputRejection>) {
        try_send(&self.sender, job)
    }
}

/// `std::sync::mpsc::SyncSender::try_send`: sends without waiting. Where the queue is full or nobody
/// receives, the error says which, and holds the job unchanged. Which of the three happens rests on
/// the other end of the queue and is left open.
#[verifier::external_body]
fn try_send(sender: &SyncSender<OutputJob>, job: OutputJob) -> (result: Result<(), OutputRejection>)
    ensures
        result matches Err(rejection) ==> rejection.job() == job,
{
    sender.try_send(job).map_err(|error| match error {
        std::sync::mpsc::TrySendError::Full(job) => OutputRejection::QueueFull(Box::new(job)),
        std::sync::mpsc::TrySendError::Disconnected(job) => {
            OutputRejection::Disconnected(Box::new(job))
        },
    })
}

/// What a destination's worker does at one point of its loop.
#[derive(Clone, Copy, Debug, Eq, PartialEq, Structural)]
pub enum QueueStep {
    /// Wait for a job.
    Receive,
    /// Deliver the job.
    Deliver,
    /// End.
    Stop,
}

/// What a worker's queue gave.
#[derive(Clone, Copy, Debug, Eq, PartialEq, Structural)]
pub enum Received {
    Job,
    Nothing,
    Closed,
}

/// Decides whether a worker waits for another job: not once a stop was requested.
pub fn before_receive(stop_requested: bool) -> (step: QueueStep)
    ensures
        step == if stop_requested {
            QueueStep::Stop
        } else {
            QueueStep::Receive
        },
{
    if stop_requested {
        QueueStep::Stop
    } else {
        QueueStep::Receive
    }
}

/// Takes what the queue gave. A job that was taken is delivered even where a stop was requested
/// meanwhile; the stop is honoured before the next one is taken.
pub fn on_received(received: Received, stop_requested: bool) -> (step: QueueStep)
    ensures
        step == match received {
            Received::Job => QueueStep::Deliver,
            Received::Nothing => if stop_requested {
                QueueStep::Stop
            } else {
                QueueStep::Receive
            },
            Received::Closed => QueueStep::Stop,
        },
{
    match received {
        Received::Job => QueueStep::Deliver,
        Received::Nothing => before_receive(stop_requested),
        Received::Closed => QueueStep::Stop,
    }
}

/// Jobs that are alike are for the same capture, with the same frame, source and window.
pub proof fn law_jobs_that_are_alike_are_for_the_same_capture(a: OutputJob, b: OutputJob)
    requires
        a.is_like(b),
    ensures
        a.capture_id == b.capture_id,
        a.triggered_at == b.triggered_at,
        a.action == b.action,
        a.chord == b.chord,
        a.cpu_ready_offset_ns == b.cpu_ready_offset_ns,
        a.source@ == b.source@,
        a.frame.is_like(b.frame),
        a.window_title == b.window_title,
        a.window_application == b.window_application,
{
}

/// A job that was turned away is the one that was handed over.
pub proof fn law_a_rejection_holds_its_job(job: OutputJob)
    ensures
        OutputRejection::QueueFull(Box::new(job)).job() == job,
        OutputRejection::Disconnected(Box::new(job)).job() == job,
{
}

} // verus!
