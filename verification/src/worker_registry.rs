//! The shutdown of the daemon's workers: one deadline, one order, and a share of the time for each.
//!
//! Moments and durations are nanoseconds on the monotonic clock.
use vstd::prelude::*;

verus! {

/// How long the whole shutdown may take.
pub const DAEMON_SHUTDOWN_TIMEOUT: u64 = 3_000_000_000;

/// The part of that time which is held back from the capture worker for what is stopped after it.
pub const WORKER_TEARDOWN_RESERVE: u64 = 500_000_000;

/// How long a worker that is being stopped is left alone between two looks at it.
pub const CAPTURE_WORKER_STOP_POLL: u64 = 10_000_000;

/// The later of two moments.
pub open spec fn latest(a: int, b: int) -> int {
    if a < b {
        b
    } else {
        a
    }
}

/// The deadline that an earlier step has to keep so that `reserve` is left for what follows it. A
/// budget shorter than the reserve leaves no time at all.
pub fn reserved_deadline(now: u64, deadline: u64, reserve: u64) -> (reserved: u64)
    ensures
        reserved == latest(now as int, deadline - reserve),
{
    match deadline.checked_sub(reserve) {
        Some(reserved) => {
            if reserved > now {
                reserved
            } else {
                now
            }
        },
        None => now,
    }
}

/// A deadline that leaves at least `minimum` from now.
pub fn guaranteed_deadline(now: u64, deadline: u64, minimum: u64) -> (guaranteed: u64)
    requires
        now + minimum <= u64::MAX,
    ensures
        guaranteed == latest(deadline as int, now + minimum),
{
    let least: u64 = now + minimum;
    if deadline > least {
        deadline
    } else {
        least
    }
}

/// What is done with a worker that was asked to stop.
#[derive(Clone, Copy, Debug, Eq, PartialEq, Structural)]
pub enum StopStep {
    /// It has ended: collect it.
    Join,
    /// Leave it alone for a moment, then look again.
    Wait,
    /// Its time is up: leave it running and go on without it.
    Detach,
}

/// Decides what to do with a worker that was asked to stop. One that has ended is collected, however
/// late it is.
pub fn stop_step(finished: bool, now: u64, deadline: u64) -> (step: StopStep)
    ensures
        step == if finished {
            StopStep::Join
        } else if now < deadline {
            StopStep::Wait
        } else {
            StopStep::Detach
        },
{
    if finished {
        StopStep::Join
    } else if now < deadline {
        StopStep::Wait
    } else {
        StopStep::Detach
    }
}

/// A worker that the daemon may have.
#[derive(Clone, Copy, Debug, Eq, PartialEq, Structural)]
pub enum Worker {
    Capture,
    Selection,
    Clipboard,
    FileOutput,
    Hotkey,
}

/// What the capture worker's queue answered to its shutdown command.
#[derive(Clone, Copy, Debug, Eq, PartialEq, Structural)]
pub enum QueueAnswer {
    Accepted,
    Full,
    Disconnected,
}

/// The daemon's workers and how far their shutdown has come.
#[derive(Clone, Copy, Debug, Eq, PartialEq, Structural)]
pub struct WorkerRegistry {
    pub has_selection: bool,
    pub has_clipboard: bool,
    pub has_file_output: bool,
    pub has_hotkey: bool,
    /// Whether hotkeys and tray commands still produce work.
    pub paused: bool,
    pub capture_stop_requested: bool,
    /// Whether the capture worker's shutdown command has been delivered.
    pub shutdown_sent: bool,
    /// Set once a shutdown has begun.
    pub deadline: Option<u64>,
}

/// One step of the teardown, with the deadline it has to keep.
#[derive(Clone, Copy, Debug, Eq, PartialEq, Structural)]
pub enum TeardownStep {
    StopHotkey { deadline: u64 },
    SendCaptureShutdown,
    /// The deadline of this step holds the reserve back, counted from the moment it starts.
    JoinCapture { deadline: u64, reserve: u64 },
    StopSelection { deadline: u64 },
    StopClipboard { deadline: u64 },
    StopFileOutput { deadline: u64 },
}

impl WorkerRegistry {
    /// Only the capture worker, running.
    pub fn new() -> (registry: Self)
        ensures
            registry == (WorkerRegistry {
                has_selection: false,
                has_clipboard: false,
                has_file_output: false,
                has_hotkey: false,
                paused: false,
                capture_stop_requested: false,
                shutdown_sent: false,
                deadline: None,
            }),
    {
        WorkerRegistry {
            has_selection: false,
            has_clipboard: false,
            has_file_output: false,
            has_hotkey: false,
            paused: false,
            capture_stop_requested: false,
            shutdown_sent: false,
            deadline: None,
        }
    }

    /// Whether a shutdown has begun.
    pub fn is_shutting_down(&self) -> (yes: bool)
        ensures
            yes == self.deadline is Some,
    {
        self.deadline.is_some()
    }

    /// The workers that are asked to wind down: the capture worker, and every other one there is.
    pub open spec fn asked(self) -> Seq<Worker> {
        let one = |present: bool, worker: Worker|
            if present {
                seq![worker]
            } else {
                Seq::<Worker>::empty()
            };
        seq![Worker::Capture] + one(self.has_selection, Worker::Selection) + one(
            self.has_clipboard,
            Worker::Clipboard,
        ) + one(self.has_file_output, Worker::FileOutput) + one(self.has_hotkey, Worker::Hotkey)
    }

    /// The registry after every worker was asked to wind down.
    pub open spec fn stopping(self) -> WorkerRegistry {
        WorkerRegistry { paused: true, capture_stop_requested: true, ..self }
    }

    /// Asks every worker to wind down, without waiting for any of them.
    pub fn request_stop_all(&mut self) -> (asked: Vec<Worker>)
        ensures
            *final(self) == old(self).stopping(),
            asked@ == old(self).asked(),
    {
        self.paused = true;
        self.capture_stop_requested = true;
        let mut asked: Vec<Worker> = Vec::new();
        asked.push(Worker::Capture);
        if self.has_selection {
            asked.push(Worker::Selection);
        }
        if self.has_clipboard {
            asked.push(Worker::Clipboard);
        }
        if self.has_file_output {
            asked.push(Worker::FileOutput);
        }
        if self.has_hotkey {
            asked.push(Worker::Hotkey);
        }
        asked
    }

    /// The end of the time that a shutdown beginning now may take.
    pub open spec fn deadline_from(now: u64) -> int {
        if now + DAEMON_SHUTDOWN_TIMEOUT > u64::MAX {
            u64::MAX as int
        } else {
            now + DAEMON_SHUTDOWN_TIMEOUT
        }
    }

    /// Begins a shutdown and asks every worker to wind down, or does nothing if one has begun: the
    /// first request owns the deadline.
    pub fn begin_shutdown(&mut self, now: u64) -> (asked: Option<Vec<Worker>>)
        ensures
            old(self).deadline is Some ==> *final(self) == *old(self) && asked is None,
            old(self).deadline is None ==> {
                &&& *final(self) == (WorkerRegistry {
                    deadline: Some(Self::deadline_from(now) as u64),
                    ..old(self).stopping()
                })
                &&& asked matches Some(workers) && workers@ == old(self).asked()
            },
    {
        if self.deadline.is_some() {
            return None;
        }
        self.deadline = Some(now.saturating_add(DAEMON_SHUTDOWN_TIMEOUT));
        Some(self.request_stop_all())
    }

    /// Whether the shutdown has used up its time.
    pub fn deadline_expired(&self, now: u64) -> (expired: bool)
        ensures
            expired == (self.deadline is Some && now >= self.deadline->Some_0),
    {
        match self.deadline {
            Some(deadline) => now >= deadline,
            None => false,
        }
    }

    /// Whether the capture worker still has to be sent its shutdown command.
    pub fn owes_capture_shutdown(&self) -> (owes: bool)
        ensures
            owes == !self.shutdown_sent,
    {
        !self.shutdown_sent
    }

    /// Takes the queue's answer to the shutdown command. A full queue is tried again later; a queue
    /// whose worker is gone counts as told.
    pub fn send_capture_shutdown(&mut self, answer: QueueAnswer)
        ensures
            *final(self) == (WorkerRegistry {
                shutdown_sent: old(self).shutdown_sent || answer != QueueAnswer::Full,
                ..*old(self)
            }),
    {
        match answer {
            QueueAnswer::Accepted | QueueAnswer::Disconnected => {
                self.shutdown_sent = true;
            },
            QueueAnswer::Full => {},
        }
    }

    /// The steps of the teardown, in order: no new work arrives once the hotkeys are stopped, the
    /// capture worker leaves a reserve for those behind it, and a capture not yet written comes last
    /// so that it has all the time there is.
    pub open spec fn teardown_plan(self, deadline: u64) -> Seq<TeardownStep> {
        let one = |present: bool, step: TeardownStep|
            if present {
                seq![step]
            } else {
                Seq::<TeardownStep>::empty()
            };
        one(self.has_hotkey, TeardownStep::StopHotkey { deadline }) + seq![
            TeardownStep::SendCaptureShutdown,
            TeardownStep::JoinCapture { deadline, reserve: WORKER_TEARDOWN_RESERVE },
        ] + one(self.has_selection, TeardownStep::StopSelection { deadline }) + one(
            self.has_clipboard,
            TeardownStep::StopClipboard { deadline },
        ) + one(self.has_file_output, TeardownStep::StopFileOutput { deadline })
    }

    /// Asks every worker to wind down once more, and plans their teardown against one deadline: the
    /// shutdown's own, or a new one where the capture worker ended by itself.
    pub fn teardown(&mut self, now: u64) -> (plan: (Vec<Worker>, Vec<TeardownStep>))
        ensures
            *final(self) == old(self).stopping(),
            plan.0@ == old(self).asked(),
            plan.1@ == old(self).teardown_plan(
                match old(self).deadline {
                    Some(deadline) => deadline,
                    None => Self::deadline_from(now) as u64,
                },
            ),
    {
        let deadline: u64 = match self.deadline {
            Some(deadline) => deadline,
            None => now.saturating_add(DAEMON_SHUTDOWN_TIMEOUT),
        };
        let asked = self.request_stop_all();
        let mut steps: Vec<TeardownStep> = Vec::new();
        if self.has_hotkey {
            steps.push(TeardownStep::StopHotkey { deadline });
        }
        steps.push(TeardownStep::SendCaptureShutdown);
        steps.push(TeardownStep::JoinCapture { deadline, reserve: WORKER_TEARDOWN_RESERVE });
        if self.has_selection {
            steps.push(TeardownStep::StopSelection { deadline });
        }
        if self.has_clipboard {
            steps.push(TeardownStep::StopClipboard { deadline });
        }
        if self.has_file_output {
            steps.push(TeardownStep::StopFileOutput { deadline });
        }
        (asked, steps)
    }
}

/// A capture worker that refuses to stop leaves the whole reserve to the workers behind it, as long
/// as the shutdown had that much time left.
pub proof fn law_reserve_is_kept(now: int, deadline: int, reserve: int)
    requires
        0 <= reserve,
        now + reserve <= deadline,
    ensures
        deadline - latest(now, deadline - reserve) == reserve,
        latest(now, deadline - reserve) >= now,
{
}

/// A shutdown has three seconds, as far as the clock can tell.
pub proof fn law_a_shutdown_has_three_seconds(now: u64)
    ensures
        now + 3_000_000_000 <= u64::MAX ==> WorkerRegistry::deadline_from(now) == now
            + 3_000_000_000,
        now <= WorkerRegistry::deadline_from(now) <= u64::MAX,
{
}

/// Every worker that there is is asked to stop, the capture worker among them in any case, and no
/// other. Asking pauses the input and stops the capturing, and changes nothing else.
pub proof fn law_every_worker_is_asked_to_stop(registry: WorkerRegistry)
    ensures
        registry.asked().contains(Worker::Capture),
        registry.asked().contains(Worker::Selection) <==> registry.has_selection,
        registry.asked().contains(Worker::Clipboard) <==> registry.has_clipboard,
        registry.asked().contains(Worker::FileOutput) <==> registry.has_file_output,
        registry.asked().contains(Worker::Hotkey) <==> registry.has_hotkey,
        registry.stopping().paused && registry.stopping().capture_stop_requested,
        registry.stopping().deadline == registry.deadline,
{
    let one = |present: bool, worker: Worker|
        if present {
            seq![worker]
        } else {
            Seq::<Worker>::empty()
        };
    let (a, b, c, d, e) = (
        seq![Worker::Capture],
        one(registry.has_selection, Worker::Selection),
        one(registry.has_clipboard, Worker::Clipboard),
        one(registry.has_file_output, Worker::FileOutput),
        one(registry.has_hotkey, Worker::Hotkey),
    );
    assert(registry.asked() =~= a + b + c + d + e);
    assert forall|worker: Worker| #[trigger]
        registry.asked().contains(worker) <==> a.contains(worker) || b.contains(worker)
            || c.contains(worker) || d.contains(worker) || e.contains(worker) by {
        vstd::seq_lib::lemma_seq_concat_contains_all_elements(a, b, worker);
        vstd::seq_lib::lemma_seq_concat_contains_all_elements(a + b, c, worker);
        vstd::seq_lib::lemma_seq_concat_contains_all_elements(a + b + c, d, worker);
        vstd::seq_lib::lemma_seq_concat_contains_all_elements(a + b + c + d, e, worker);
    }
    assert(a[0] == Worker::Capture);
    if registry.has_selection {
        assert(b[0] == Worker::Selection);
    }
    if registry.has_clipboard {
        assert(c[0] == Worker::Clipboard);
    }
    if registry.has_file_output {
        assert(d[0] == Worker::FileOutput);
    }
    if registry.has_hotkey {
        assert(e[0] == Worker::Hotkey);
    }
}

/// The teardown stops every worker that there is, by the same deadline: the keys before the capture
/// worker, and the destinations after it, so that what is captured last is still delivered. The
/// capture worker leaves half a second for the rest.
pub proof fn law_the_teardown_stops_every_worker_in_turn(registry: WorkerRegistry, deadline: u64)
    ensures
        ({
            let plan = registry.teardown_plan(deadline);
            let start = if registry.has_hotkey {
                1int
            } else {
                0
            };
            let selection = start + 2;
            let clipboard = selection + if registry.has_selection {
                1int
            } else {
                0
            };
            let file = clipboard + if registry.has_clipboard {
                1int
            } else {
                0
            };
            &&& registry.has_hotkey ==> plan[0] == (TeardownStep::StopHotkey { deadline })
            &&& plan[start] == TeardownStep::SendCaptureShutdown
            &&& plan[start + 1] == (TeardownStep::JoinCapture { deadline, reserve: 500_000_000 })
            &&& registry.has_selection ==> plan[selection] == (TeardownStep::StopSelection {
                deadline,
            })
            &&& registry.has_clipboard ==> plan[clipboard] == (TeardownStep::StopClipboard {
                deadline,
            })
            &&& registry.has_file_output ==> plan[file] == (TeardownStep::StopFileOutput { deadline })
            &&& plan.len() == file + if registry.has_file_output {
                1int
            } else {
                0
            }
        }),
{
}

/// A worker that stops is looked at every ten milliseconds.
pub proof fn law_a_stopping_worker_is_looked_at_often()
    ensures
        CAPTURE_WORKER_STOP_POLL * 100 == 1_000_000_000,
{
}

} // verus!
