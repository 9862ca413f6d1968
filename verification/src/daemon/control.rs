//! The daemon's main loop: what it refuses to start with, how it turns hotkeys and tray commands
//! into captures, and how a shutdown begins and ends.
//!
//! Moments are nanoseconds on the monotonic clock.
use vstd::prelude::*;
use vstd::string::*;

use crate::capture::{CaptureError, CaptureId};
use crate::cli::DaemonArgs;
use crate::daemon::dispatch::{action_requires_selection, needs_selection};
use crate::daemon::notice::{DaemonNotice, LastMessage};
use crate::daemon::settings::ResolvedDaemonArgs;
use crate::error::{after, AppError, ConfigError};
use crate::history::{flagged, CaptureHistory};
use crate::hotkey::{HotkeyAction, HotkeyBinding, HotkeyChord};
use crate::text::{decimal, decimal_text};
use crate::worker_registry::{Worker, WorkerRegistry};

verus! {

/// The first bound action that cannot do without a selection.
pub open spec fn first_selection_action(bindings: Seq<HotkeyBinding>) -> Option<HotkeyAction>
    decreases bindings.len(),
{
    if bindings.len() == 0 {
        None
    } else {
        match first_selection_action(bindings.drop_last()) {
            Some(action) => Some(action),
            None => if needs_selection(bindings.last().action) {
                Some(bindings.last().action)
            } else {
                None
            },
        }
    }
}

/// Why the daemon does not start with these settings, the first reason found.
pub open spec fn startup_fault(settings: ResolvedDaemonArgs) -> Option<Seq<char>> {
    let any_destination = settings.clipboard || settings.file_output;
    if settings.max_captures == Some(0usize) {
        Some("max-captures must be greater than zero"@)
    } else if any_destination && !settings.cpu_frame {
        Some("output destinations require --cpu-frame true"@)
    } else if settings.selection && !any_destination {
        Some("native selection requires at least one output destination (clipboard or file)"@)
    } else if settings.selection {
        None
    } else {
        match first_selection_action(settings.hotkey_bindings@) {
            Some(action) => Some(
                "hotkey action "@ + action.name() + " requires selection.enabled = true"@,
            ),
            None => None,
        }
    }
}

/// Refuses settings under which the daemon could not do what it is asked to: a destination needs
/// pixels, and a selection needs somewhere to go.
pub fn check_startup(settings: &ResolvedDaemonArgs) -> (result: Result<(), AppError>)
    ensures
        match startup_fault(*settings) {
            Some(message) => result matches Err(AppError::InvalidArgument(text)) && text@ == message,
            None => result is Ok,
        },
{
    if let Some(maximum) = settings.max_captures {
        if maximum == 0 {
            return Err(
                AppError::InvalidArgument("max-captures must be greater than zero".to_owned()),
            );
        }
    }
    let any_destination = settings.clipboard || settings.file_output;
    if any_destination && !settings.cpu_frame {
        return Err(
            AppError::InvalidArgument("output destinations require --cpu-frame true".to_owned()),
        );
    }
    if settings.selection && !any_destination {
        return Err(
            AppError::InvalidArgument(
                "native selection requires at least one output destination (clipboard or file)".to_owned(),
            ),
        );
    }
    if settings.selection {
        return Ok(());
    }
    let bindings = &settings.hotkey_bindings;
    let mut i: usize = 0;
    while i < bindings.len()
        invariant
            i <= bindings@.len(),
            first_selection_action(bindings@.take(i as int)) is None,
            bindings@ == settings.hotkey_bindings@,
            startup_fault(*settings) == match first_selection_action(bindings@) {
                Some(action) => Some(
                    "hotkey action "@ + action.name() + " requires selection.enabled = true"@,
                ),
                None => None,
            },
        decreases bindings@.len() - i,
    {
        proof {
            assert(bindings@.take(i + 1).drop_last() =~= bindings@.take(i as int));
        }
        let action = bindings[i].action;
        if action_requires_selection(action) {
            proof {
                lemma_first_stays(bindings@, i + 1);
            }
            let mut text = "hotkey action ".to_owned();
            text.append(action.as_str());
            text.append(" requires selection.enabled = true");
            return Err(AppError::InvalidArgument(text));
        }
        i += 1;
    }
    proof {
        assert(bindings@.take(i as int) =~= bindings@);
    }
    Ok(())
}

/// The first action stays the first, whatever follows it.
proof fn lemma_first_stays(bindings: Seq<HotkeyBinding>, n: int)
    requires
        0 <= n <= bindings.len(),
        first_selection_action(bindings.take(n)) is Some,
    ensures
        first_selection_action(bindings) == first_selection_action(bindings.take(n)),
    decreases bindings.len(),
{
    if n == bindings.len() {
        assert(bindings.take(n) =~= bindings);
    } else {
        assert(bindings.drop_last().take(n) =~= bindings.take(n));
        lemma_first_stays(bindings.drop_last(), n);
    }
}

/// Settings that a capture could come out of have somewhere to put it, pixels to put there, and
/// room for at least one attempt.
pub proof fn law_a_started_daemon_can_deliver(settings: ResolvedDaemonArgs)
    requires
        startup_fault(settings) is None,
    ensures
        settings.selection ==> settings.clipboard || settings.file_output,
        settings.clipboard || settings.file_output ==> settings.cpu_frame,
        settings.max_captures matches Some(maximum) ==> maximum > 0,
        !settings.selection ==> forall|i: int|
            0 <= i < settings.hotkey_bindings@.len() ==> !needs_selection(
                #[trigger] settings.hotkey_bindings@[i].action,
            ),
{
    if !settings.selection {
        let bindings = settings.hotkey_bindings@;
        assert forall|i: int| 0 <= i < bindings.len() implies !needs_selection(
            #[trigger] bindings[i].action,
        ) by {
            if needs_selection(bindings[i].action) {
                lemma_first_stays(bindings, i + 1);
            }
        }
    }
}

/// A capture that was asked for.
#[derive(Clone, Copy, Debug, Eq, PartialEq)]
pub struct TriggerEvent {
    pub received_at: u64,
    pub enqueued_at: u64,
    pub source: &'static str,
    pub action: HotkeyAction,
    pub chord: Option<HotkeyChord>,
}

/// The capture that a hotkey asks for. One pressed while the daemon is paused or stopping asks for
/// none.
pub fn hotkey_trigger(
    paused: bool,
    stop_requested: bool,
    action: HotkeyAction,
    chord: HotkeyChord,
    received_at: u64,
    now: u64,
) -> (trigger: Option<TriggerEvent>)
    ensures
        match trigger {
            Some(trigger) => !paused && !stop_requested && trigger.received_at == received_at
                && trigger.enqueued_at == now && trigger.source@ == "hotkey"@ && trigger.action
                == action && trigger.chord == Some(chord),
            None => paused || stop_requested,
        },
{
    if paused || stop_requested {
        return None;
    }
    Some(
        TriggerEvent {
            received_at,
            enqueued_at: now,
            source: "hotkey",
            action,
            chord: Some(chord),
        },
    )
}

/// A capture that the daemon asks itself for.
pub fn self_test_trigger(now: u64) -> (trigger: TriggerEvent)
    ensures
        trigger.received_at == now,
        trigger.enqueued_at == now,
        trigger.source@ == "self_test"@,
        trigger.action == HotkeyAction::LastWorkflow,
        trigger.chord is None,
{
    TriggerEvent {
        received_at: now,
        enqueued_at: now,
        source: "self_test",
        action: HotkeyAction::LastWorkflow,
        chord: None,
    }
}

/// The captures that the daemon asks itself for, again and again.
#[derive(Clone, Copy, Debug, Eq, PartialEq, Structural)]
pub struct SelfTrigger {
    /// The time between two of them, where there is to be more than one.
    pub interval: Option<u64>,
    pub last: u64,
}

impl SelfTrigger {
    /// Starts with the first one, now. The interval is in milliseconds.
    pub fn begin(interval_ms: Option<u64>, now: u64) -> (repeat: Self)
        ensures
            repeat.last == now,
            repeat.interval == match interval_ms {
                Some(interval) => Some(
                    if interval * 1_000_000 > u64::MAX {
                        u64::MAX
                    } else {
                        (interval * 1_000_000) as u64
                    },
                ),
                None => None,
            },
    {
        let interval = match interval_ms {
            Some(interval) => Some(
                match interval.checked_mul(1_000_000) {
                    Some(nanoseconds) => nanoseconds,
                    None => u64::MAX,
                },
            ),
            None => None,
        };
        SelfTrigger { interval, last: now }
    }

    /// Whether the next one is due. The interval is the least time between two, as the daemon looks
    /// only when it comes round.
    pub fn due(&mut self, now: u64) -> (due: bool)
        ensures
            due == (old(self).interval matches Some(interval) && now >= old(self).last && now
                - old(self).last >= interval),
            *final(self) == (SelfTrigger {
                last: if due {
                    now
                } else {
                    old(self).last
                },
                ..*old(self)
            }),
    {
        if let Some(interval) = self.interval {
            if now >= self.last && now - self.last >= interval {
                self.last = now;
                return true;
            }
        }
        false
    }
}

/// Something that the user chose in the notification area.
#[derive(Clone, Copy, Debug, Eq, PartialEq, Structural)]
pub enum TrayEvent {
    Capture,
    PausedChanged(bool),
    OpenConfig,
    OpenLogs,
    OpenLastCapture,
    ShowInFolder,
    PruneHistory,
    ToggleStartup,
    Exit,
}

/// What is done about it.
#[derive(Clone, Copy, Debug, Eq, PartialEq)]
pub enum TrayAction {
    Trigger(TriggerEvent),
    /// Only the log hears of it.
    Log(&'static str),
    OpenConfig,
    OpenLogs,
    OpenLastCapture,
    ShowInFolder,
    PruneHistory,
    ToggleStartup,
    Nothing,
}

/// What came from the capture worker.
#[derive(Debug)]
pub enum WorkerNews {
    Ended(Result<(), AppError>),
    Nothing,
    Gone,
}

/// A shutdown that begins now.
#[derive(Debug)]
pub struct ShutdownStart {
    pub reason: &'static str,
    /// The workers that are asked to wind down.
    pub asked: Vec<Worker>,
}

/// The state of the main loop.
#[derive(Debug)]
pub struct ControlLoop {
    pub registry: WorkerRegistry,
    pub tray_shutdown_requested: bool,
    /// Triggers that found the queue full.
    pub dropped: u64,
    pub last_persistence: LastMessage,
    pub last_notice: LastMessage,
}

/// Whether a shutdown begun for a reason is what came of asking for one.
pub open spec fn is_start(
    start: Option<ShutdownStart>,
    before: WorkerRegistry,
    after: WorkerRegistry,
    now: u64,
    reason: Seq<char>,
) -> bool {
    if before.deadline is Some {
        start is None && after == before
    } else {
        &&& start matches Some(start) && start.reason@ == reason && start.asked@ == before.asked()
        &&& after == (WorkerRegistry {
            deadline: Some(WorkerRegistry::deadline_from(now) as u64),
            ..before.stopping()
        })
    }
}

impl ControlLoop {
    pub fn new(registry: WorkerRegistry) -> (control: Self)
        ensures
            control.registry == registry,
            !control.tray_shutdown_requested,
            control.dropped == 0,
            control.last_persistence.text() is None,
            control.last_notice.text() is None,
    {
        ControlLoop {
            registry,
            tray_shutdown_requested: false,
            dropped: 0,
            last_persistence: LastMessage::new(),
            last_notice: LastMessage::new(),
        }
    }

    /// Whether nothing but the registry and the wish to shut down differs.
    pub open spec fn same_messages(self, before: ControlLoop) -> bool {
        &&& self.dropped == before.dropped
        &&& self.last_persistence == before.last_persistence
        &&& self.last_notice == before.last_notice
    }

    /// Begins a shutdown.
    fn start_shutdown(&mut self, reason: &'static str, now: u64) -> (start: Option<ShutdownStart>)
        ensures
            is_start(start, old(self).registry, final(self).registry, now, reason@),
            final(self).same_messages(*old(self)),
            final(self).tray_shutdown_requested == old(self).tray_shutdown_requested,
    {
        match self.registry.begin_shutdown(now) {
            Some(asked) => Some(ShutdownStart { reason, asked }),
            None => None,
        }
    }

    /// Starts a turn of the loop: a shutdown begins where the session ends or the user asked for
    /// one. The second value says whether the shutdown has used up its time, so that the loop ends.
    pub fn begin_turn(&mut self, session_ending: bool, now: u64) -> (turn: (
        Option<ShutdownStart>,
        bool,
    ))
        ensures
            final(self).same_messages(*old(self)),
            final(self).tray_shutdown_requested == (old(self).tray_shutdown_requested
                || session_ending),
            if final(self).tray_shutdown_requested {
                is_start(
                    turn.0,
                    old(self).registry,
                    final(self).registry,
                    now,
                    if session_ending {
                        "Windows session is ending"@
                    } else {
                        "notification-area shutdown requested"@
                    },
                )
            } else {
                turn.0 is None && final(self).registry == old(self).registry
            },
            turn.1 == (final(self).registry.deadline matches Some(deadline) && now >= deadline),
    {
        if session_ending {
            self.tray_shutdown_requested = true;
        }
        let start = if self.tray_shutdown_requested {
            self.start_shutdown(
                if session_ending {
                    "Windows session is ending"
                } else {
                    "notification-area shutdown requested"
                },
                now,
            )
        } else {
            None
        };
        let expired = self.registry.deadline_expired(now);
        (start, expired)
    }

    /// Takes the news from the capture worker: how the loop ends, or `None` where it goes on.
    pub fn on_news(news: WorkerNews) -> (ended: Option<Result<(), AppError>>)
        ensures
            match news {
                WorkerNews::Ended(result) => ended == Some(result),
                WorkerNews::Nothing => ended is None,
                WorkerNews::Gone => ended matches Some(Err(AppError::BackendUnavailable(text)))
                    && text@ == "capture worker stopped unexpectedly"@,
            },
    {
        match news {
            WorkerNews::Ended(result) => Some(result),
            WorkerNews::Nothing => None,
            WorkerNews::Gone => Some(
                Err(AppError::BackendUnavailable("capture worker stopped unexpectedly".to_owned())),
            ),
        }
    }

    /// What the user is told of preferences that were not saved: nothing where there is nowhere to
    /// tell it, or where it was the last thing they were told.
    pub fn persistence_message(&mut self, failure: &str, has_tray: bool) -> (message: Option<String>)
        ensures
            final(self).registry == old(self).registry,
            final(self).tray_shutdown_requested == old(self).tray_shutdown_requested,
            final(self).dropped == old(self).dropped,
            final(self).last_notice == old(self).last_notice,
            ({
                let text = "Captastic could not save selection preferences. "@ + failure@;
                &&& match message {
                    Some(message) => has_tray && message@ == text
                        && old(self).last_persistence.text() != Some(text),
                    None => !has_tray || old(self).last_persistence.text() == Some(text),
                }
                &&& has_tray ==> final(self).last_persistence.text() == Some(text)
                &&& !has_tray ==> final(self).last_persistence == old(self).last_persistence
            }),
    {
        if !has_tray {
            return None;
        }
        let message = after("Captastic could not save selection preferences. ", failure);
        if self.last_persistence.admit_message(message.as_str()) {
            Some(message)
        } else {
            None
        }
    }

    /// The headline and text of a notice, unless it repeats the last one.
    pub fn notice_message(&mut self, notice: &DaemonNotice) -> (message: Option<(
        &'static str,
        String,
    )>)
        ensures
            final(self).registry == old(self).registry,
            final(self).tray_shutdown_requested == old(self).tray_shutdown_requested,
            final(self).dropped == old(self).dropped,
            final(self).last_persistence == old(self).last_persistence,
            final(self).last_notice.text() == Some(notice.text()),
            match message {
                Some(message) => message.0@ == notice.spec_title() && message.1@ == notice.text()
                    && old(self).last_notice.text() != Some(notice.text()),
                None => old(self).last_notice.text() == Some(notice.text()),
            },
    {
        let message = notice.message();
        if self.last_notice.admit_message(message.as_str()) {
            Some((notice.title(), message))
        } else {
            None
        }
    }

    /// Takes a choice of the user.
    pub fn on_tray_event(&mut self, event: TrayEvent, now: u64) -> (action: TrayAction)
        ensures
            final(self).same_messages(*old(self)),
            final(self).tray_shutdown_requested == (old(self).tray_shutdown_requested || event
                == TrayEvent::Exit),
            final(self).registry == match event {
                TrayEvent::PausedChanged(paused) => WorkerRegistry {
                    paused,
                    ..old(self).registry
                },
                _ => old(self).registry,
            },
            match event {
                TrayEvent::Capture => action matches TrayAction::Trigger(trigger)
                    && trigger.received_at == now && trigger.enqueued_at == now && trigger.source@
                    == "tray"@ && trigger.action == HotkeyAction::LastWorkflow && trigger.chord is None,
                TrayEvent::PausedChanged(paused) => action matches TrayAction::Log(line) && line@
                    == if paused {
                    "Captastic paused from the notification area"@
                } else {
                    "Captastic resumed from the notification area"@
                },
                TrayEvent::OpenConfig => action is OpenConfig,
                TrayEvent::OpenLogs => action is OpenLogs,
                TrayEvent::OpenLastCapture => action is OpenLastCapture,
                TrayEvent::ShowInFolder => action is ShowInFolder,
                TrayEvent::PruneHistory => action is PruneHistory,
                TrayEvent::ToggleStartup => action is ToggleStartup,
                TrayEvent::Exit => action is Nothing,
            },
    {
        match event {
            TrayEvent::Capture => TrayAction::Trigger(
                TriggerEvent {
                    received_at: now,
                    enqueued_at: now,
                    source: "tray",
                    action: HotkeyAction::LastWorkflow,
                    chord: None,
                },
            ),
            TrayEvent::PausedChanged(paused) => {
                self.registry.paused = paused;
                if paused {
                    TrayAction::Log("Captastic paused from the notification area")
                } else {
                    TrayAction::Log("Captastic resumed from the notification area")
                }
            },
            TrayEvent::OpenConfig => TrayAction::OpenConfig,
            TrayEvent::OpenLogs => TrayAction::OpenLogs,
            TrayEvent::OpenLastCapture => TrayAction::OpenLastCapture,
            TrayEvent::ShowInFolder => TrayAction::ShowInFolder,
            TrayEvent::PruneHistory => TrayAction::PruneHistory,
            TrayEvent::ToggleStartup => TrayAction::ToggleStartup,
            TrayEvent::Exit => {
                self.tray_shutdown_requested = true;
                TrayAction::Nothing
            },
        }
    }

    /// Counts a trigger that found the queue full.
    pub fn trigger_dropped(&mut self)
        ensures
            final(self).dropped == (old(self).dropped + 1) % 0x1_0000_0000_0000_0000,
            final(self).registry == old(self).registry,
            final(self).tray_shutdown_requested == old(self).tray_shutdown_requested,
            final(self).last_persistence == old(self).last_persistence,
            final(self).last_notice == old(self).last_notice,
    {
        self.dropped = self.dropped.wrapping_add(1);
    }

    /// Why a shutdown begins at the end of a turn: the console first, then another process, then the
    /// notification area.
    pub open spec fn end_reason(self, console: bool, control: bool) -> Option<Seq<char>> {
        if console {
            Some("console shutdown requested"@)
        } else if control {
            Some("daemon control requested a stop"@)
        } else if self.tray_shutdown_requested {
            Some("notification-area shutdown requested"@)
        } else {
            None
        }
    }

    /// Ends a turn of the loop. The second value says whether the capture worker has to be sent its
    /// shutdown command.
    pub fn end_turn(&mut self, console: bool, control: bool, now: u64) -> (turn: (
        Option<ShutdownStart>,
        bool,
    ))
        ensures
            final(self).same_messages(*old(self)),
            final(self).tray_shutdown_requested == old(self).tray_shutdown_requested,
            match old(self).end_reason(console, control) {
                Some(reason) => is_start(
                    turn.0,
                    old(self).registry,
                    final(self).registry,
                    now,
                    reason,
                ),
                None => turn.0 is None && final(self).registry == old(self).registry,
            },
            turn.1 == (final(self).registry.deadline is Some
                && !final(self).registry.shutdown_sent),
    {
        let start = if console {
            self.start_shutdown("console shutdown requested", now)
        } else if control {
            self.start_shutdown("daemon control requested a stop", now)
        } else if self.tray_shutdown_requested {
            self.start_shutdown("notification-area shutdown requested", now)
        } else {
            None
        };
        let owed = self.registry.is_shutting_down() && self.registry.owes_capture_shutdown();
        (start, owed)
    }

    /// What the log says of triggers that were dropped, where any were.
    pub fn dropped_line(&self) -> (line: Option<String>)
        ensures
            match line {
                Some(line) => self.dropped != 0 && line@ == "Captastic dropped "@ + decimal(
                    self.dropped as nat,
                ) + " hotkey trigger(s) because the queue was full"@,
                None => self.dropped == 0,
            },
    {
        if self.dropped == 0 {
            return None;
        }
        let mut line = "Captastic dropped ".to_owned();
        line.append(decimal_text(self.dropped).as_str());
        line.append(" hotkey trigger(s) because the queue was full");
        Some(line)
    }
}

/// The first request for a shutdown owns its deadline: nothing that comes later moves it, however
/// many turns the loop takes.
pub proof fn law_the_first_shutdown_owns_the_deadline(
    start: Option<ShutdownStart>,
    before: WorkerRegistry,
    after: WorkerRegistry,
    now: u64,
    reason: Seq<char>,
)
    requires
        is_start(start, before, after, now, reason),
    ensures
        after.deadline is Some,
        before.deadline is Some ==> after.deadline == before.deadline && start is None,
        before.deadline is None ==> start is Some && after.paused && after.capture_stop_requested,
{
}

/// How the daemon ends: with the error of a hotkey listener that did not stop, or else with what
/// the capture worker ended with.
pub fn final_result(hotkey_error: Option<CaptureError>, daemon_result: Result<(), AppError>) -> (
    result: Result<(), AppError>)
    ensures
        result == match hotkey_error {
            Some(error) => Err::<(), AppError>(AppError::Capture(error)),
            None => daemon_result,
        },
{
    match hotkey_error {
        Some(error) => Err(AppError::Capture(error)),
        None => daemon_result,
    }
}

/// The daemon of a platform that has none.
pub fn run(_args: DaemonArgs) -> (result: Result<(), AppError>)
    ensures
        result matches Err(AppError::BackendUnavailable(text)) && text@
            == "the native hotkey daemon is currently available only on Windows"@,
{
    Err(
        AppError::BackendUnavailable(
            "the native hotkey daemon is currently available only on Windows".to_owned(),
        ),
    )
}

/// How one binding is listed.
pub open spec fn binding_label(binding: HotkeyBinding) -> Seq<char> {
    binding.action.name() + "="@ + binding.chord.text()
}

/// Bindings, one after the other.
pub open spec fn binding_labels(bindings: Seq<HotkeyBinding>) -> Seq<char>
    decreases bindings.len(),
{
    if bindings.len() == 0 {
        Seq::empty()
    } else if bindings.len() == 1 {
        binding_label(bindings[0])
    } else {
        binding_labels(bindings.drop_last()) + ", "@ + binding_label(bindings.last())
    }
}

/// The bindings in one line.
pub fn active_hotkey_labels(bindings: &Vec<HotkeyBinding>) -> (line: String)
    ensures
        line@ == binding_labels(bindings@),
{
    let mut line = String::new();
    let mut i: usize = 0;
    while i < bindings.len()
        invariant
            i <= bindings@.len(),
            line@ == binding_labels(bindings@.take(i as int)),
        decreases bindings@.len() - i,
    {
        if i > 0 {
            line.append(", ");
        }
        line.append(bindings[i].action.as_str());
        line.append("=");
        line.append(bindings[i].chord.to_text().as_str());
        proof {
            let shown = bindings@.take(i + 1);
            assert(shown.drop_last() =~= bindings@.take(i as int));
        }
        i += 1;
    }
    proof {
        assert(bindings@.take(i as int) =~= bindings@);
    }
    line
}

/// How a switch is told.
pub open spec fn switch_name(on: bool) -> Seq<char> {
    if on {
        "enabled"@
    } else {
        "disabled"@
    }
}

/// How a switch is told.
pub(crate) fn switch_text(on: bool) -> (name: &'static str)
    ensures
        name@ == switch_name(on),
{
    if on {
        "enabled"
    } else {
        "disabled"
    }
}

/// What the user is told of a capture that was not saved.
pub fn file_failure_message(capture_id: CaptureId, message: &str) -> (text: String)
    ensures
        text@ == "Capture "@ + decimal(capture_id.0 as nat) + " was not saved to disk. "@ + message@,
{
    let mut text = "Capture ".to_owned();
    text.append(decimal_text(capture_id.0).as_str());
    text.append(" was not saved to disk. ");
    text.append(message);
    text
}

/// What the log keeps of a capture that was not saved and could not be announced any more.
pub fn retained_file_failure(capture_id: CaptureId, message: &str) -> (text: String)
    ensures
        text@ == "shutdown retained file-output failure for capture "@ + decimal(
            capture_id.0 as nat,
        ) + " in the persistent log: "@ + message@,
{
    let mut text = "shutdown retained file-output failure for capture ".to_owned();
    text.append(decimal_text(capture_id.0).as_str());
    text.append(" in the persistent log: ");
    text.append(message);
    text
}

/// The newest remembered capture that is still there. `present` says of each remembered capture
/// whether its file is.
pub fn latest_capture(loaded: Result<CaptureHistory, ConfigError>, present: &Vec<bool>) -> (result:
    Result<Option<String>, ConfigError>)
    requires
        loaded matches Ok(history) ==> present@.len() == history.entries@.len(),
    ensures
        match loaded {
            Err(error) => result == Err::<Option<String>, ConfigError>(error),
            Ok(history) => ({
                let left = flagged(history.entries@, present@);
                result == Ok::<Option<String>, ConfigError>(
                    if left.len() > 0 {
                        Some(left[0].path)
                    } else {
                        None
                    },
                )
            }),
        },
{
    match loaded {
        Err(error) => Err(error),
        Ok(mut history) => {
            let _ = history.forget_missing(present);
            match history.most_recent() {
                Some(entry) => Ok(Some(entry.path.clone())),
                None => Ok(None),
            }
        },
    }
}

/// What the user wants of their last capture.
#[derive(Clone, Copy, Debug, Eq, PartialEq, Structural)]
pub enum LastCaptureWish {
    Open,
    ShowFolder,
}

/// What the user is told where there is no last capture, or the history cannot be read; `None` where
/// there is one.
pub fn last_capture_problem(wish: LastCaptureWish, found: &Result<Option<String>, ConfigError>) -> (
    problem: Option<String>)
    ensures
        match *found {
            Ok(Some(_)) => problem is None,
            Ok(None) => problem matches Some(text) && text@ == match wish {
                LastCaptureWish::Open =>
                    "Captastic has no remembered capture to open. It may have been moved or deleted."@,
                LastCaptureWish::ShowFolder =>
                    "Captastic has no remembered capture to show. It may have been moved or deleted."@,
            },
            Err(error) => problem matches Some(text) && text@
                == "Captastic could not read its capture history: "@ + error.text(),
        },
{
    match found {
        Ok(Some(_)) => None,
        Ok(None) => Some(
            match wish {
                LastCaptureWish::Open => {
                    "Captastic has no remembered capture to open. It may have been moved or deleted.".to_owned()
                },
                LastCaptureWish::ShowFolder => {
                    "Captastic has no remembered capture to show. It may have been moved or deleted.".to_owned()
                },
            },
        ),
        Err(error) => Some(
            after(
                "Captastic could not read its capture history: ",
                error.message().as_str(),
            ),
        ),
    }
}

/// What the user is told where opening the configuration came to nothing. `prepared` is the file as it
/// is shown, or why it could not be prepared.
pub fn open_config_problem(
    prepared: &Result<String, ConfigError>,
    exists: bool,
    open_error: Option<&str>,
) -> (problem: Option<String>)
    ensures
        match *prepared {
            Err(error) => problem matches Some(text) && text@
                == "failed to prepare the configuration: "@ + error.text(),
            Ok(path) => if !exists {
                problem matches Some(text) && text@ == "configuration does not exist: "@ + path@
            } else {
                match open_error {
                    Some(error) => problem matches Some(text) && text@
                        == "failed to open configuration: "@ + error@,
                    None => problem is None,
                }
            },
        },
{
    match prepared {
        Err(error) => Some(
            after("failed to prepare the configuration: ", error.message().as_str()),
        ),
        Ok(path) => {
            if !exists {
                Some(after("configuration does not exist: ", path.as_str()))
            } else {
                match open_error {
                    Some(error) => Some(after("failed to open configuration: ", error)),
                    None => None,
                }
            }
        },
    }
}

/// Under which title the user is told of a command that came to nothing; `None` where only the log
/// hears of it.
pub fn problem_title(action: &TrayAction) -> (title: Option<&'static str>)
    ensures
        match *action {
            TrayAction::OpenConfig => title matches Some(text) && text@
                == "Captastic could not open configuration"@,
            TrayAction::OpenLastCapture | TrayAction::ShowInFolder | TrayAction::PruneHistory =>
                title matches Some(text) && text@ == "Captastic capture history"@,
            _ => title is None,
        },
{
    match action {
        TrayAction::OpenConfig => Some("Captastic could not open configuration"),
        TrayAction::OpenLastCapture | TrayAction::ShowInFolder | TrayAction::PruneHistory => Some(
            "Captastic capture history",
        ),
        _ => None,
    }
}

/// What the user is told where their last capture, or its folder, did not open.
pub fn open_capture_failure(wish: LastCaptureWish, error: &str) -> (text: String)
    ensures
        text@ == match wish {
            LastCaptureWish::Open => "Captastic could not open the capture: "@,
            LastCaptureWish::ShowFolder => "Captastic could not open the folder: "@,
        } + error@,
{
    match wish {
        LastCaptureWish::Open => after("Captastic could not open the capture: ", error),
        LastCaptureWish::ShowFolder => after("Captastic could not open the folder: ", error),
    }
}

/// What the log, or the user, is told of a history that was pruned: how many captures it forgot, or
/// why it could not.
pub fn prune_outcome(result: &Result<usize, ConfigError>) -> (text: Result<String, String>)
    ensures
        match *result {
            Ok(forgotten) => text matches Ok(line) && line@ == "capture history pruned; "@
                + decimal(forgotten as nat) + " entr(ies) forgotten"@,
            Err(error) => text matches Err(problem) && problem@
                == "Captastic could not prune its capture history: "@ + error.text(),
        },
{
    match result {
        Ok(forgotten) => {
            let mut line = "capture history pruned; ".to_owned();
            line.append(decimal_text(*forgotten as u64).as_str());
            line.append(" entr(ies) forgotten");
            Ok(line)
        },
        Err(error) => Err(
            after(
                "Captastic could not prune its capture history: ",
                error.message().as_str(),
            ),
        ),
    }
}

/// What the log is told of launching at login that was switched on or off, or of why it could not be.
pub fn startup_outcome(result: &Result<bool, CaptureError>) -> (text: Result<String, String>)
    ensures
        match *result {
            Ok(enabled) => text matches Ok(line) && line@ == "launch at login "@ + switch_name(
                enabled,
            ) + " from the notification area"@,
            Err(error) => text matches Err(problem) && problem@
                == "failed to change launch-at-login state: "@ + error.message@,
        },
{
    match result {
        Ok(enabled) => {
            let mut line = "launch at login ".to_owned();
            line.append(switch_text(*enabled));
            line.append(" from the notification area");
            Ok(line)
        },
        Err(error) => Err(
            after("failed to change launch-at-login state: ", error.message.as_str()),
        ),
    }
}

/// What the log keeps of preferences that were not saved and could not be announced any more.
pub fn retained_persistence_failure(failure: &str) -> (text: String)
    ensures
        text@ == "shutdown retained UI-state persistence failure in the persistent log: "@ + failure@,
{
    after("shutdown retained UI-state persistence failure in the persistent log: ", failure)
}

/// What the log keeps of a notice that could not be shown any more.
pub fn retained_notice(notice: &DaemonNotice) -> (text: String)
    ensures
        text@ == "shutdown retained a daemon notice in the persistent log: "@ + notice.text(),
{
    after(
        "shutdown retained a daemon notice in the persistent log: ",
        notice.message().as_str(),
    )
}

/// The last line of a daemon: whether its capture worker was told to stop, or stopped by itself.
pub fn stopped_line(shutdown_sent: bool) -> (line: &'static str)
    ensures
        line@ == if shutdown_sent {
            "Captastic stopped cleanly"@
        } else {
            "daemon stopped cleanly"@
        },
{
    if shutdown_sent {
        "Captastic stopped cleanly"
    } else {
        "daemon stopped cleanly"
    }
}

/// The daemon starts exactly where its settings can be served: some capture is permitted, whatever is
/// delivered has its pixels, a selection has somewhere to go, and without selections no key asks for
/// one.
pub proof fn law_the_daemon_starts_where_its_settings_can_be_served(settings: ResolvedDaemonArgs)
    ensures
        startup_fault(settings) is None <==> {
            &&& settings.max_captures != Some(0usize)
            &&& settings.clipboard || settings.file_output ==> settings.cpu_frame
            &&& settings.selection ==> settings.clipboard || settings.file_output
            &&& !settings.selection ==> forall|i: int|
                0 <= i < settings.hotkey_bindings@.len() ==> {
                    let action = (#[trigger] settings.hotkey_bindings@[i]).action;
                    action == HotkeyAction::LastWorkflow || action == HotkeyAction::FullDisplay
                }
        },
{
    lemma_first_selection_action(settings.hotkey_bindings@);
}

/// A binding asks for a selection where one of them does.
proof fn lemma_first_selection_action(bindings: Seq<HotkeyBinding>)
    ensures
        first_selection_action(bindings) is None <==> forall|i: int|
            0 <= i < bindings.len() ==> {
                let action = (#[trigger] bindings[i]).action;
                action == HotkeyAction::LastWorkflow || action == HotkeyAction::FullDisplay
            },
    decreases bindings.len(),
{
    if bindings.len() > 0 {
        let front = bindings.drop_last();
        lemma_first_selection_action(front);
        let last = bindings.len() - 1;
        if first_selection_action(bindings) is None {
            assert forall|i: int| 0 <= i < bindings.len() implies ({
                let action = (#[trigger] bindings[i]).action;
                action == HotkeyAction::LastWorkflow || action == HotkeyAction::FullDisplay
            }) by {
                if i < last {
                    assert(front[i] == bindings[i]);
                }
            }
        } else if first_selection_action(front) is Some {
            let i = choose|i: int|
                0 <= i < front.len() && !({
                    let action = (#[trigger] front[i]).action;
                    action == HotkeyAction::LastWorkflow || action == HotkeyAction::FullDisplay
                });
            assert(bindings[i] == front[i]);
        } else {
            assert(bindings[last] == bindings.last());
        }
    }
}

/// The daemon ends exactly where the console, the control channel or the notification area asked for
/// it, and names the first of them that did.
pub proof fn law_the_daemon_ends_where_it_was_asked_to(
    state: ControlLoop,
    console: bool,
    control: bool,
)
    ensures
        state.end_reason(console, control) is Some <==> console || control
            || state.tray_shutdown_requested,
        console ==> state.end_reason(console, control) == Some("console shutdown requested"@),
        !console && control ==> state.end_reason(console, control) == Some(
            "daemon control requested a stop"@,
        ),
        !console && !control && state.tray_shutdown_requested ==> state.end_reason(console, control)
            == Some("notification-area shutdown requested"@),
{
}

/// A switch that is on is told as enabled, and one that is off as disabled.
pub proof fn law_switches_are_told_as_they_are(on: bool)
    ensures
        switch_name(on) == "enabled"@ <==> on,
        switch_name(on) == "disabled"@ <==> !on,
{
    reveal_strlit("enabled");
    reveal_strlit("disabled");
    assert("enabled"@.len() == 7 && "disabled"@.len() == 8);
}

/// Where nothing was said, what was dropped and what was last said are what they were.
pub proof fn law_messages_that_stay_are_the_same(after: ControlLoop, before: ControlLoop)
    requires
        after.same_messages(before),
    ensures
        after.dropped == before.dropped,
        after.last_notice == before.last_notice,
        after.last_persistence == before.last_persistence,
{
}

/// A shutdown begins once: at its own moment, for its own reason, with every worker asked to stop. One
/// that is under way is not begun again.
pub proof fn law_a_shutdown_begins_once(
    start: Option<ShutdownStart>,
    before: WorkerRegistry,
    after: WorkerRegistry,
    now: u64,
    reason: Seq<char>,
)
    requires
        is_start(start, before, after, now, reason),
    ensures
        start is Some <==> before.deadline is None,
        start is None ==> after == before,
        start matches Some(start) ==> start.reason@ == reason && start.asked@ == before.asked()
            && after.paused && after.capture_stop_requested && after.deadline is Some,
{
}

/// Bindings are told one after the other with a comma between them, and nothing around them.
pub proof fn law_bindings_are_told_one_after_the_other(
    bindings: Seq<HotkeyBinding>,
    more: HotkeyBinding,
)
    ensures
        binding_labels(Seq::empty()) == Seq::<char>::empty(),
        binding_labels(seq![more]) == more.action.name() + seq!['='] + more.chord.text(),
        bindings.len() > 0 ==> binding_labels(bindings.push(more)) == binding_labels(bindings)
            + seq![',', ' '] + (more.action.name() + seq!['='] + more.chord.text()),
{
    reveal_strlit(", ");
    reveal_strlit("=");
    assert(", "@ =~= seq![',', ' ']);
    assert("="@ =~= seq!['=']);
    assert(bindings.push(more).drop_last() =~= bindings);
}

} // verus!
