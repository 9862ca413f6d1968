//! Publishing a capture to the clipboard: when a failed publish is tried again, and what is said of
//! one that stays failed.
use vstd::prelude::*;
use vstd::string::*;

use crate::capture::CaptureId;
use crate::text::{decimal, decimal_text};

verus! {

/// How often a failed publish is tried again.
pub const PUBLISH_RETRY_LIMIT: u32 = 3;

/// The wait before a publish is tried again, in milliseconds.
pub const PUBLISH_RETRY_DELAY_MS: u64 = 250;

/// What follows an attempt to publish.
#[derive(Clone, Copy, Debug, Eq, PartialEq, Structural)]
pub enum PublishStep {
    /// Wait this many milliseconds, then publish again.
    RetryAfter(u64),
    /// The attempt stands.
    Done,
}

/// A capture being published.
#[derive(Clone, Copy, Debug, Eq, PartialEq, Structural)]
pub struct PublishRetry {
    pub retries: u32,
}

impl PublishRetry {
    /// A capture not published yet.
    pub fn begin() -> (retry: Self)
        ensures
            retry.retries == 0,
    {
        PublishRetry { retries: 0 }
    }

    /// Takes the result of an attempt: `None` for success, or whether the failure may pass. Only such
    /// a failure is tried again, up to the limit, and not once a stop was requested.
    pub fn publish_with_retry(&mut self, retryable: Option<bool>, stop_requested: bool) -> (step:
        PublishStep)
        requires
            old(self).retries <= PUBLISH_RETRY_LIMIT,
        ensures
            final(self).retries <= PUBLISH_RETRY_LIMIT,
            ({
                let again = retryable == Some(true) && old(self).retries < PUBLISH_RETRY_LIMIT
                    && !stop_requested;
                &&& step == if again {
                    PublishStep::RetryAfter(PUBLISH_RETRY_DELAY_MS)
                } else {
                    PublishStep::Done
                }
                &&& final(self).retries == if again {
                    old(self).retries + 1
                } else {
                    old(self).retries as int
                }
            }),
    {
        if let Some(passing) = retryable {
            if passing && self.retries < PUBLISH_RETRY_LIMIT && !stop_requested {
                self.retries = self.retries + 1;
                return PublishStep::RetryAfter(PUBLISH_RETRY_DELAY_MS);
            }
        }
        PublishStep::Done
    }
}

/// A capture that could not be published.
#[derive(Debug, Eq, PartialEq)]
pub struct ClipboardFailure {
    pub capture_id: CaptureId,
    pub message: String,
    /// Whether the failed publish had already emptied the clipboard.
    pub cleared_previous_contents: bool,
}

impl ClipboardFailure {
    /// What the user is told. Losing what they had copied is worth saying, and only that.
    pub fn notification(&self) -> (text: String)
        ensures
            text@ == "Capture "@ + decimal(self.capture_id.0 as nat) + (
            if self.cleared_previous_contents {
                " was not copied to the clipboard, and your previous clipboard contents were cleared. "@
            } else {
                " was not copied to the clipboard. "@
            }) + self.message@,
    {
        let mut text = "Capture ".to_owned();
        text.append(decimal_text(self.capture_id.0).as_str());
        if self.cleared_previous_contents {
            text.append(
                " was not copied to the clipboard, and your previous clipboard contents were cleared. ",
            );
        } else {
            text.append(" was not copied to the clipboard. ");
        }
        text.append(self.message.as_str());
        text
    }

    /// What the log keeps of a failure that was still waiting to be shown at shutdown.
    pub fn retained_line(&self) -> (text: String)
        ensures
            text@ == "shutdown retained clipboard failure for capture "@ + decimal(
                self.capture_id.0 as nat,
            ) + " in the persistent log: "@ + self.message@ + (if self.cleared_previous_contents {
                " (the previous clipboard contents were cleared)"@
            } else {
                Seq::<char>::empty()
            }),
    {
        let mut text = "shutdown retained clipboard failure for capture ".to_owned();
        text.append(decimal_text(self.capture_id.0).as_str());
        text.append(" in the persistent log: ");
        text.append(self.message.as_str());
        if self.cleared_previous_contents {
            text.append(" (the previous clipboard contents were cleared)");
        }
        text
    }
}

/// The events that the worker records of a job.
#[derive(Clone, Copy, Debug, Eq, PartialEq, Structural)]
pub struct PublishTimes {
    /// From the moment the pixels were ready to the commit.
    pub cpu_to_clipboard_ns: u64,
    /// From the trigger to the commit.
    pub total_offset_ns: u64,
}

/// The times of a committed publish.
pub fn publish_times(total_offset_ns: u64, cpu_ready_offset_ns: u64) -> (times: PublishTimes)
    ensures
        times.total_offset_ns == total_offset_ns,
        times.cpu_to_clipboard_ns == if total_offset_ns > cpu_ready_offset_ns {
            total_offset_ns - cpu_ready_offset_ns
        } else {
            0
        },
{
    PublishTimes {
        cpu_to_clipboard_ns: total_offset_ns.saturating_sub(cpu_ready_offset_ns),
        total_offset_ns,
    }
}

/// A publish is tried again three times, a quarter of a second apart.
pub proof fn law_a_publish_is_tried_again_three_times()
    ensures
        PUBLISH_RETRY_LIMIT == 3,
        PUBLISH_RETRY_DELAY_MS * 4 == 1_000,
{
}

} // verus!
