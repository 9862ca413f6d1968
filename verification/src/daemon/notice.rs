//! What the daemon tells the user when something they asked for will not happen.
use vstd::prelude::*;
use vstd::string::*;

use crate::capture::CaptureId;
use crate::text::{decimal, decimal_text, ends_with, same, starts_with};

verus! {

/// Something that the notification area has to say.
#[derive(Clone, Copy, Debug, Eq, PartialEq)]
pub enum DaemonNotice {
    /// A selection that could not be handed back to its worker.
    DroppedSelection {
        capture_id: CaptureId,
        /// A clause completing "... was not completed because ...".
        reason: &'static str,
    },
    /// The capture engine could not be rebuilt for a while, and captures are being ignored.
    CaptureEngineUnavailable,
    /// The capture engine came back after its outage was announced.
    CaptureEngineRecovered,
}

impl DaemonNotice {
    /// The headline of the notice.
    pub open spec fn spec_title(self) -> Seq<char> {
        match self {
            DaemonNotice::DroppedSelection { .. } => "Captastic could not finish a capture"@,
            DaemonNotice::CaptureEngineUnavailable => "Captastic cannot capture right now"@,
            DaemonNotice::CaptureEngineRecovered => "Captastic can capture again"@,
        }
    }

    /// The text of the notice.
    pub open spec fn text(self) -> Seq<char> {
        match self {
            DaemonNotice::DroppedSelection { capture_id, reason } => "Capture "@ + decimal(
                capture_id.0 as nat,
            ) + " was not completed because "@ + reason@ + "."@,
            DaemonNotice::CaptureEngineUnavailable =>
                "The capture engine is unavailable and Captastic is still retrying. Captures are ignored until it recovers."@,
            DaemonNotice::CaptureEngineRecovered =>
                "The capture engine recovered. Captures are running again."@,
        }
    }

    /// The headline of the notice.
    pub fn title(&self) -> (title: &'static str)
        ensures
            title@ == self.spec_title(),
    {
        match self {
            DaemonNotice::DroppedSelection { .. } => "Captastic could not finish a capture",
            DaemonNotice::CaptureEngineUnavailable => "Captastic cannot capture right now",
            DaemonNotice::CaptureEngineRecovered => "Captastic can capture again",
        }
    }

    /// The text of the notice.
    pub fn message(&self) -> (text: String)
        ensures
            text@ == self.text(),
    {
        match self {
            DaemonNotice::DroppedSelection { capture_id, reason } => {
                let mut text = "Capture ".to_owned();
                text.append(decimal_text(capture_id.0).as_str());
                text.append(" was not completed because ");
                text.append(reason);
                text.append(".");
                text
            },
            DaemonNotice::CaptureEngineUnavailable => {
                "The capture engine is unavailable and Captastic is still retrying. Captures are ignored until it recovers.".to_owned()
            },
            DaemonNotice::CaptureEngineRecovered => {
                "The capture engine recovered. Captures are running again.".to_owned()
            },
        }
    }
}

/// The message shown last, so that a repeat of it is not shown again.
#[derive(Debug)]
pub struct LastMessage {
    pub shown: Option<String>,
}

impl LastMessage {
    /// The text shown last.
    pub open spec fn text(self) -> Option<Seq<char>> {
        match self.shown {
            Some(text) => Some(text@),
            None => None,
        }
    }

    /// Nothing shown yet.
    pub fn new() -> (last: Self)
        ensures
            last.text() is None,
    {
        LastMessage { shown: None }
    }

    /// Whether a message is to be shown: every one but a repeat of the last. It is then the last.
    pub fn admit_message(&mut self, message: &str) -> (show: bool)
        ensures
            show == (old(self).text() != Some(message@)),
            final(self).text() == Some(message@),
    {
        if let Some(shown) = &self.shown {
            if same(shown.as_str(), message) {
                return false;
            }
        }
        self.shown = Some(message.to_owned());
        true
    }
}

/// The two notices about the engine differ in headline and text, so that a recovery is shown after
/// an outage and an outage after a recovery.
pub proof fn law_engine_notices_differ()
    ensures
        DaemonNotice::CaptureEngineUnavailable.text() != DaemonNotice::CaptureEngineRecovered.text(),
        DaemonNotice::CaptureEngineUnavailable.spec_title()
            != DaemonNotice::CaptureEngineRecovered.spec_title(),
{
    reveal_strlit(
        "The capture engine is unavailable and Captastic is still retrying. Captures are ignored until it recovers.",
    );
    reveal_strlit("The capture engine recovered. Captures are running again.");
    reveal_strlit("Captastic cannot capture right now");
    reveal_strlit("Captastic can capture again");
    assert(DaemonNotice::CaptureEngineUnavailable.text()[19] == 'i');
    assert(DaemonNotice::CaptureEngineUnavailable.spec_title()[13] == 'n');
}

/// A capture that was given up is named by its number, and the reason is said at the end.
pub proof fn law_a_dropped_capture_is_named_with_its_reason(capture_id: CaptureId, reason: &'static str)
    ensures
        ({
            let text = (DaemonNotice::DroppedSelection { capture_id, reason }).text();
            &&& starts_with(text, "Capture "@ + decimal(capture_id.0 as nat) + " was not completed"@)
            &&& ends_with(text, (" because "@ + reason@).push('.'))
        }),
{
    reveal_strlit("Capture ");
    reveal_strlit(" was not completed");
    reveal_strlit(" was not completed because ");
    reveal_strlit(" because ");
    reveal_strlit(".");
    let text = (DaemonNotice::DroppedSelection { capture_id, reason }).text();
    let start = "Capture "@ + decimal(capture_id.0 as nat) + " was not completed"@;
    let end = (" because "@ + reason@).push('.');
    assert(text.take(start.len() as int) =~= start);
    assert(text.skip(text.len() - end.len()) =~= end);
}

} // verus!
