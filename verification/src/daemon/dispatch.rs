//! Where a finished capture goes.
use vstd::prelude::*;
use vstd::string::*;

use crate::capture::{FrameMetadata, Rect};
use crate::config::PreviewMode;
use crate::error::AppError;
use crate::hotkey::HotkeyAction;
use crate::output::{ChannelSink, OutputJob, OutputRejection, OutputSink};
use crate::region::ConfirmedRegion;
use crate::text::same;

verus! {

/// The tool that the overlay opens with.
#[derive(Clone, Copy, Debug, Eq, PartialEq, Structural)]
pub enum InitialSelectionTool {
    Remembered,
    Region,
    Window,
}

/// What the user selected.
#[derive(Clone, Copy, Debug, Eq, PartialEq, Structural)]
pub enum SelectionKind {
    Display,
    Region,
    Window,
}

/// The way that an action takes.
#[derive(Clone, Copy, Debug, Eq, PartialEq, Structural)]
pub enum ActionRoute {
    Overlay(InitialSelectionTool),
    FullDisplay,
    RepeatLastRegion,
}

/// The way that an action takes.
pub open spec fn route_of(action: HotkeyAction) -> ActionRoute {
    match action {
        HotkeyAction::LastWorkflow => ActionRoute::Overlay(InitialSelectionTool::Remembered),
        HotkeyAction::Region => ActionRoute::Overlay(InitialSelectionTool::Region),
        HotkeyAction::Window => ActionRoute::Overlay(InitialSelectionTool::Window),
        HotkeyAction::FullDisplay => ActionRoute::FullDisplay,
        HotkeyAction::RepeatLastRegion => ActionRoute::RepeatLastRegion,
    }
}

/// The way that an action takes.
pub fn action_route(action: HotkeyAction) -> (route: ActionRoute)
    ensures
        route == route_of(action),
{
    match action {
        HotkeyAction::LastWorkflow => ActionRoute::Overlay(InitialSelectionTool::Remembered),
        HotkeyAction::Region => ActionRoute::Overlay(InitialSelectionTool::Region),
        HotkeyAction::Window => ActionRoute::Overlay(InitialSelectionTool::Window),
        HotkeyAction::FullDisplay => ActionRoute::FullDisplay,
        HotkeyAction::RepeatLastRegion => ActionRoute::RepeatLastRegion,
    }
}

/// Whether an action cannot be served without the overlay.
pub open spec fn needs_selection(action: HotkeyAction) -> bool {
    action == HotkeyAction::Region || action == HotkeyAction::Window || action
        == HotkeyAction::RepeatLastRegion
}

/// Whether an action cannot be served without the overlay.
pub fn action_requires_selection(action: HotkeyAction) -> (yes: bool)
    ensures
        yes == needs_selection(action),
{
    match action {
        HotkeyAction::Region | HotkeyAction::Window | HotkeyAction::RepeatLastRegion => true,
        HotkeyAction::LastWorkflow | HotkeyAction::FullDisplay => false,
    }
}

/// Whether a status says that the selection worker owns the attempt now.
pub open spec fn is_queued_status(status: Seq<char>) -> bool {
    status == "selection_queued"@ || status == "live_selection_queued"@
}

/// Whether a status says that the selection worker owns the attempt now and will report its end.
pub fn queued_to_selection_worker(status: &str) -> (queued: bool)
    ensures
        queued == is_queued_status(status@),
{
    same(status, "selection_queued") || same(status, "live_selection_queued")
}

/// The status of an attempt whose bookkeeping failed.
pub const METRICS_VALIDATION_FAILED: &'static str = "metrics_validation_failed";

/// An attempt whose bookkeeping failed does not look like a queued one, or the attempts in flight
/// would never be released.
pub proof fn lemma_failed_metrics_are_not_queued()
    ensures
        !is_queued_status("metrics_validation_failed"@),
{
    reveal_strlit("metrics_validation_failed");
    reveal_strlit("selection_queued");
    reveal_strlit("live_selection_queued");
    assert("metrics_validation_failed"@.len() != "selection_queued"@.len());
}

/// Keeps the failure of an attempt's bookkeeping from ending the daemon. Every other failure still
/// does.
pub fn output_status_or_fatal(dispatch: Result<&'static str, AppError>) -> (status: Result<
    &'static str,
    AppError,
>)
    ensures
        match dispatch {
            Ok(text) => status matches Ok(out) && out@ == text@,
            Err(AppError::Metrics(_)) => status matches Ok(out) && out@
                == "metrics_validation_failed"@,
            Err(error) => status == Err::<&'static str, AppError>(error),
        },
{
    match dispatch {
        Ok(text) => Ok(text),
        Err(AppError::Metrics(_)) => Ok("metrics_validation_failed"),
        Err(error) => Err(error),
    }
}

/// Why a confirmed region cannot be captured again.
pub open spec fn repeat_fault(confirmed: Option<ConfirmedRegion>, metadata: FrameMetadata) -> Option<
    Seq<char>,
> {
    match confirmed {
        None => Some("missing_confirmed_region"@),
        Some(confirmed) => if confirmed.source.width != metadata.source_rect.width
            || confirmed.source.height != metadata.source_rect.height
            || confirmed.source.rotation_degrees != metadata.rotation_degrees {
            Some("source_geometry_changed"@)
        } else if confirmed.region.x < 0 || confirmed.region.y < 0 || confirmed.region.empty()
            || confirmed.region.x + confirmed.region.width > metadata.source_rect.width
            || confirmed.region.y + confirmed.region.height > metadata.source_rect.height
            || metadata.source_rect.x + confirmed.region.x > i32::MAX || metadata.source_rect.y
            + confirmed.region.y > i32::MAX {
            Some("invalid_region_bounds"@)
        } else {
            None
        },
    }
}

/// The rectangle, in desktop coordinates, of a confirmed region on a display whose geometry has not
/// changed since.
pub fn repeat_region_rect(confirmed: Option<ConfirmedRegion>, metadata: &FrameMetadata) -> (result:
    Result<Rect, &'static str>)
    ensures
        match repeat_fault(confirmed, *metadata) {
            Some(reason) => result matches Err(text) && text@ == reason,
            None => result matches Ok(rect) && ({
                let region = confirmed->Some_0.region;
                &&& rect.x == metadata.source_rect.x + region.x
                &&& rect.y == metadata.source_rect.y + region.y
                &&& rect.width == region.width
                &&& rect.height == region.height
            }),
        },
        result matches Ok(rect) ==> metadata.source_rect.encloses(rect),
{
    let confirmed = match confirmed {
        Some(confirmed) => confirmed,
        None => {
            return Err("missing_confirmed_region");
        },
    };
    let source = metadata.source_rect;
    if confirmed.source.width != source.width || confirmed.source.height != source.height
        || confirmed.source.rotation_degrees != metadata.rotation_degrees {
        return Err("source_geometry_changed");
    }
    let region = confirmed.region;
    if region.x < 0 || region.y < 0 || region.is_empty() {
        return Err("invalid_region_bounds");
    }
    let right: i64 = region.x as i64 + region.width as i64;
    let bottom: i64 = region.y as i64 + region.height as i64;
    if right > source.width as i64 || bottom > source.height as i64 {
        return Err("invalid_region_bounds");
    }
    match (source.x.checked_add(region.x), source.y.checked_add(region.y)) {
        (Some(x), Some(y)) => Ok(Rect { x, y, width: region.width, height: region.height }),
        _ => Err("invalid_region_bounds"),
    }
}

/// Where the output of a capture goes.
#[derive(Clone, Copy, Debug, Eq, PartialEq, Structural)]
pub enum OutputRoute {
    /// To the overlay, on the captured frame.
    Selection { tool: InitialSelectionTool, preview: PreviewMode },
    /// To the destinations, cut down to a rectangle.
    RepeatRegion(Rect),
    /// To the destinations, whole.
    Destinations,
}

/// A route, and why a repeated region had to fall back to the overlay where it did.
#[derive(Clone, Copy, Debug, Eq, PartialEq)]
pub struct RoutedOutput {
    pub route: OutputRoute,
    pub fallback_reason: Option<&'static str>,
}

/// Why the output of a capture cannot be routed.
pub open spec fn routing_fault(
    action: HotkeyAction,
    has_selection_worker: bool,
    repeat_fault: Option<Seq<char>>,
) -> Option<Seq<char>> {
    if has_selection_worker {
        None
    } else if action == HotkeyAction::Region || action == HotkeyAction::Window {
        Some("hotkey action "@ + action.name() + " requires selection.enabled = true"@)
    } else if action == HotkeyAction::RepeatLastRegion && repeat_fault is Some {
        Some("repeat_last_region fallback requires selection.enabled = true"@)
    } else {
        None
    }
}

/// Routes the output of a capture. An action that opens the overlay goes there while there is a
/// selection worker; the last workflow goes to the destinations without one. A repeated region goes
/// to the destinations while it still fits, and otherwise opens the overlay on the frozen frame.
pub fn route_output(
    action: HotkeyAction,
    has_selection_worker: bool,
    confirmed: Option<ConfirmedRegion>,
    metadata: &FrameMetadata,
    preview: PreviewMode,
) -> (result: Result<RoutedOutput, AppError>)
    ensures
        match routing_fault(action, has_selection_worker, repeat_fault(confirmed, *metadata)) {
            Some(message) => result matches Err(AppError::InvalidArgument(text)) && text@ == message,
            None => result matches Ok(routed) && match route_of(action) {
                ActionRoute::Overlay(tool) => routed.fallback_reason is None && routed.route
                    == if has_selection_worker {
                    OutputRoute::Selection { tool, preview }
                } else {
                    OutputRoute::Destinations
                },
                ActionRoute::FullDisplay => routed.fallback_reason is None && routed.route
                    == OutputRoute::Destinations,
                ActionRoute::RepeatLastRegion => match repeat_fault(confirmed, *metadata) {
                    None => routed.fallback_reason is None && (routed.route matches OutputRoute::RepeatRegion(
                        rect,
                    ) && rect.x == metadata.source_rect.x + confirmed->Some_0.region.x && rect.y
                        == metadata.source_rect.y + confirmed->Some_0.region.y && rect.width
                        == confirmed->Some_0.region.width && rect.height
                        == confirmed->Some_0.region.height),
                    Some(reason) => (routed.fallback_reason matches Some(text) && text@ == reason)
                        && routed.route == (OutputRoute::Selection {
                        tool: InitialSelectionTool::Region,
                        preview: PreviewMode::Frozen,
                    }),
                },
            },
        },
{
    match action_route(action) {
        ActionRoute::Overlay(tool) => {
            if has_selection_worker {
                return Ok(
                    RoutedOutput {
                        route: OutputRoute::Selection { tool, preview },
                        fallback_reason: None,
                    },
                );
            }
            if action != HotkeyAction::LastWorkflow {
                let mut text = "hotkey action ".to_owned();
                text.append(action.as_str());
                text.append(" requires selection.enabled = true");
                return Err(AppError::InvalidArgument(text));
            }
            Ok(RoutedOutput { route: OutputRoute::Destinations, fallback_reason: None })
        },
        ActionRoute::FullDisplay => Ok(
            RoutedOutput { route: OutputRoute::Destinations, fallback_reason: None },
        ),
        ActionRoute::RepeatLastRegion => match repeat_region_rect(confirmed, metadata) {
            Ok(rect) => Ok(
                RoutedOutput { route: OutputRoute::RepeatRegion(rect), fallback_reason: None },
            ),
            Err(reason) => {
                if !has_selection_worker {
                    return Err(
                        AppError::InvalidArgument(
                            "repeat_last_region fallback requires selection.enabled = true".to_owned(),
                        ),
                    );
                }
                Ok(
                    RoutedOutput {
                        route: OutputRoute::Selection {
                            tool: InitialSelectionTool::Region,
                            preview: PreviewMode::Frozen,
                        },
                        fallback_reason: Some(reason),
                    },
                )
            },
        },
    }
}

/// The tool that a live selection opens with.
pub fn live_selection_tool(action: HotkeyAction) -> (result: Result<InitialSelectionTool, AppError>)
    ensures
        match route_of(action) {
            ActionRoute::Overlay(tool) => result == Ok::<InitialSelectionTool, AppError>(tool),
            _ => result matches Err(AppError::InvalidArgument(text)) && text@
                == "live selection requires an overlay action"@,
        },
{
    match action_route(action) {
        ActionRoute::Overlay(tool) => Ok(tool),
        _ => Err(
            AppError::InvalidArgument("live selection requires an overlay action".to_owned()),
        ),
    }
}

/// What a job's queue answered.
#[derive(Debug, Eq, PartialEq)]
pub enum Submission {
    Accepted,
    /// The queue is full. Closing the attempt's record may have failed.
    Full { metrics_error: Option<String> },
    /// The worker has stopped. Closing the attempt's record may have failed.
    Disconnected { metrics_error: Option<String> },
}

/// The error of closing a rejected attempt's record.
pub open spec fn record_error(submission: Submission) -> Option<String> {
    match submission {
        Submission::Accepted => None,
        Submission::Full { metrics_error } => metrics_error,
        Submission::Disconnected { metrics_error } => metrics_error,
    }
}

/// What becomes of a selection job, by its queue's answer.
pub fn selection_status(submission: Submission, live: bool) -> (result: Result<
    &'static str,
    AppError,
>)
    ensures
        match record_error(submission) {
            Some(error) => result == Err::<&'static str, AppError>(AppError::Metrics(error)),
            None => result matches Ok(status) && status@ == match submission {
                Submission::Accepted => if live {
                    "live_selection_queued"@
                } else {
                    "selection_queued"@
                },
                Submission::Full { .. } => "selection_queue_full"@,
                Submission::Disconnected { .. } => "selection_worker_disconnected"@,
            },
        },
{
    match submission {
        Submission::Accepted => {
            if live {
                Ok("live_selection_queued")
            } else {
                Ok("selection_queued")
            }
        },
        Submission::Full { metrics_error } => match metrics_error {
            Some(error) => Err(AppError::Metrics(error)),
            None => Ok("selection_queue_full"),
        },
        Submission::Disconnected { metrics_error } => match metrics_error {
            Some(error) => Err(AppError::Metrics(error)),
            None => Ok("selection_worker_disconnected"),
        },
    }
}

/// The moment at which the pixels of a captured frame were ready. A frame that is to be selected
/// from needs its pixels and that moment.
pub fn selection_inputs(has_frame: bool, cpu_ready_offset_ns: Option<u64>) -> (result: Result<
    u64,
    AppError,
>)
    ensures
        if !has_frame {
            result matches Err(AppError::BackendUnavailable(text)) && text@
                == "selection was enabled but the capture backend returned no CPU frame"@
        } else {
            match cpu_ready_offset_ns {
                Some(offset) => result == Ok::<u64, AppError>(offset),
                None => result matches Err(AppError::BackendUnavailable(text)) && text@
                    == "selection was enabled but CPU readiness was not measured"@,
            }
        },
{
    if !has_frame {
        return Err(
            AppError::BackendUnavailable(
                "selection was enabled but the capture backend returned no CPU frame".to_owned(),
            ),
        );
    }
    match cpu_ready_offset_ns {
        Some(offset) => Ok(offset),
        None => Err(
            AppError::BackendUnavailable(
                "selection was enabled but CPU readiness was not measured".to_owned(),
            ),
        ),
    }
}

/// What the graphics device answered when asked to cut out a region.
#[derive(Debug, Eq, PartialEq)]
pub enum GpuAnswer {
    /// It was not asked, or cannot do it.
    NotUsed,
    Materialized,
    Failed(String),
}

/// How the pixels of a selection were obtained.
#[derive(Debug, Eq, PartialEq)]
pub struct Materialization {
    /// Whether the graphics device provided them. Otherwise they are cut from the captured frame.
    pub from_gpu: bool,
    pub label: &'static str,
    pub gpu_fallback_error: Option<String>,
}

/// Decides where the pixels come from. The captured frame serves whenever the graphics device does
/// not, and a failure of the device is kept for the report.
pub fn materialize(cpu_label: &'static str, answer: GpuAnswer) -> (materialization: Materialization)
    ensures
        materialization.from_gpu == (answer is Materialized),
        materialization.label@ == if answer is Materialized {
            "dxgi_gpu_region"@
        } else {
            cpu_label@
        },
        materialization.gpu_fallback_error == match answer {
            GpuAnswer::Failed(error) => Some(error),
            _ => None,
        },
{
    match answer {
        GpuAnswer::Materialized => Materialization {
            from_gpu: true,
            label: "dxgi_gpu_region",
            gpu_fallback_error: None,
        },
        GpuAnswer::NotUsed => Materialization {
            from_gpu: false,
            label: cpu_label,
            gpu_fallback_error: None,
        },
        GpuAnswer::Failed(error) => Materialization {
            from_gpu: false,
            label: cpu_label,
            gpu_fallback_error: Some(error),
        },
    }
}

/// Decides how a repeated region is cut out. The captured pixels have to be there in case the
/// graphics device does not serve.
pub fn repeat_materialization(has_frame: bool, answer: GpuAnswer) -> (result: Result<
    Materialization,
    AppError,
>)
    ensures
        if !has_frame {
            result matches Err(AppError::BackendUnavailable(text)) && text@
                == "repeat_last_region requires a CPU frame for checked fallback"@
        } else {
            result matches Ok(materialization) && materialization.from_gpu == (answer is Materialized)
                && materialization.label@ == (if answer is Materialized {
                "dxgi_gpu_region"@
            } else {
                "cpu_region"@
            }) && materialization.gpu_fallback_error == match answer {
                GpuAnswer::Failed(error) => Some(error),
                _ => None,
            }
        },
{
    if !has_frame {
        return Err(
            AppError::BackendUnavailable(
                "repeat_last_region requires a CPU frame for checked fallback".to_owned(),
            ),
        );
    }
    Ok(materialize("cpu_region", answer))
}

/// The status of a destination's answer.
pub open spec fn rejection_status(submission: Submission) -> Option<Seq<char>> {
    match submission {
        Submission::Accepted => None,
        Submission::Full { .. } => Some("queue_full"@),
        Submission::Disconnected { .. } => Some("worker_disconnected"@),
    }
}

/// Whether some destination took the capture.
pub open spec fn delivered(answers: Seq<Submission>) -> bool {
    exists|i: int| 0 <= i < answers.len() && #[trigger] answers[i] is Accepted
}

/// The status of an attempt that was offered to every destination: delivered if any of them took
/// it, and otherwise the reason that the last one gave.
pub open spec fn delivery_status(answers: Seq<Submission>) -> Seq<char> {
    if answers.len() == 0 {
        "disabled"@
    } else if delivered(answers) {
        "queued"@
    } else {
        rejection_status(answers.last())->Some_0
    }
}

/// Whether closing some rejected attempt's record failed before the answer at `end`.
pub open spec fn record_failed_before(answers: Seq<Submission>, end: int) -> bool {
    exists|i: int| 0 <= i < end && record_error(#[trigger] answers[i]) is Some
}

/// Whether a capture can be offered to destinations, of which there is at least one: they need its
/// pixels and the moment these were ready.
pub fn destination_inputs(has_frame: bool, cpu_ready_offset_ns: Option<u64>) -> (result: Result<
    u64,
    AppError,
>)
    ensures
        if !has_frame {
            result matches Err(AppError::BackendUnavailable(text)) && text@
                == "clipboard was enabled but the capture backend returned no CPU frame"@
        } else {
            match cpu_ready_offset_ns {
                Some(offset) => result == Ok::<u64, AppError>(offset),
                None => result matches Err(AppError::BackendUnavailable(text)) && text@
                    == "clipboard was enabled but CPU readiness was not measured"@,
            }
        },
{
    if !has_frame {
        return Err(
            AppError::BackendUnavailable(
                "clipboard was enabled but the capture backend returned no CPU frame".to_owned(),
            ),
        );
    }
    match cpu_ready_offset_ns {
        Some(offset) => Ok(offset),
        None => Err(
            AppError::BackendUnavailable(
                "clipboard was enabled but CPU readiness was not measured".to_owned(),
            ),
        ),
    }
}

/// The status of an attempt, from what every destination answered. One destination that is behind
/// or gone is not a failed capture. Where closing a rejected attempt's record failed, the first such
/// failure is the result.
pub fn dispatch_destinations(answers: &Vec<Submission>) -> (result: Result<&'static str, AppError>)
    ensures
        match result {
            Ok(status) => !record_failed_before(answers@, answers@.len() as int) && status@
                == delivery_status(answers@),
            Err(AppError::Metrics(error)) => exists|i: int|
                0 <= i < answers@.len() && record_error(#[trigger] answers@[i]) is Some
                    && record_error(answers@[i])->Some_0@ == error@ && !record_failed_before(
                    answers@,
                    i,
                ),
            Err(_) => false,
        },
{
    if answers.len() == 0 {
        return Ok("disabled");
    }
    let mut delivered_any = false;
    let mut last_rejection: &'static str = "disabled";
    let mut i: usize = 0;
    while i < answers.len()
        invariant
            i <= answers@.len(),
            answers@.len() > 0,
            !record_failed_before(answers@, i as int),
            delivered_any == exists|j: int| 0 <= j < i && #[trigger] answers@[j] is Accepted,
            i > 0 && !delivered_any ==> rejection_status(answers@[i - 1]) == Some(last_rejection@),
        decreases answers@.len() - i,
    {
        match &answers[i] {
            Submission::Accepted => {
                delivered_any = true;
            },
            Submission::Full { metrics_error } => {
                if let Some(error) = metrics_error {
                    return Err(AppError::Metrics(error.clone()));
                }
                last_rejection = "queue_full";
            },
            Submission::Disconnected { metrics_error } => {
                if let Some(error) = metrics_error {
                    return Err(AppError::Metrics(error.clone()));
                }
                last_rejection = "worker_disconnected";
            },
        }
        i += 1;
    }
    if delivered_any {
        Ok("queued")
    } else {
        Ok(last_rejection)
    }
}

/// What a destination answered, of an attempt whose record has not been closed.
pub open spec fn is_submission(
    submission: Submission,
    result: Result<(), OutputRejection>,
) -> bool {
    match result {
        Ok(()) => submission is Accepted,
        Err(OutputRejection::QueueFull(_)) => submission == (Submission::Full { metrics_error: None }),
        Err(OutputRejection::Disconnected(_)) => submission == (Submission::Disconnected {
            metrics_error: None,
        }),
    }
}

/// What a destination answered. A rejected copy of the capture is let go.
pub fn submission(result: Result<(), OutputRejection>) -> (answer: Submission)
    ensures
        is_submission(answer, result),
{
    match result {
        Ok(()) => Submission::Accepted,
        Err(OutputRejection::QueueFull(_)) => Submission::Full { metrics_error: None },
        Err(OutputRejection::Disconnected(_)) => Submission::Disconnected { metrics_error: None },
    }
}

/// Offers a capture to every destination in turn, each with a copy of its own, and gives back what
/// they answered and what that makes of the attempt. A destination that rejects its copy does not
/// keep the others from being offered theirs. Which of them accepts rests on its queue.
pub fn deliver(sinks: &Vec<ChannelSink>, job: &OutputJob) -> (outcome: (
    Vec<Submission>,
    &'static str,
))
    ensures
        outcome.0@.len() == sinks@.len(),
        !record_failed_before(outcome.0@, outcome.0@.len() as int),
        outcome.1@ == delivery_status(outcome.0@),
{
    let mut answers: Vec<Submission> = Vec::new();
    let mut i: usize = 0;
    while i < sinks.len()
        invariant
            i <= sinks@.len(),
            answers@.len() == i,
            !record_failed_before(answers@, i as int),
        decreases sinks@.len() - i,
    {
        answers.push(submission(sinks[i].submit(job.clone())));
        i += 1;
    }
    match dispatch_destinations(&answers) {
        Ok(status) => (answers, status),
        Err(_) => (answers, "disabled"),
    }
}

/// A destination that rejects a capture does not change what the others made of it: an attempt that
/// some destination took is delivered, whatever the rest answered.
pub proof fn law_one_destination_suffices(answers: Seq<Submission>, i: int)
    requires
        0 <= i < answers.len(),
        answers[i] is Accepted,
    ensures
        delivery_status(answers) == "queued"@,
{
    assert(delivered(answers));
}

/// Each action opens what it is named after: the last workflow the tool that is remembered, a region
/// and a window their own tools, the full display no tool at all, and a repeated region its region.
pub proof fn law_actions_open_what_they_are_named_after(action: HotkeyAction)
    ensures
        route_of(action) == ActionRoute::Overlay(InitialSelectionTool::Remembered) <==> action
            == HotkeyAction::LastWorkflow,
        route_of(action) == ActionRoute::Overlay(InitialSelectionTool::Region) <==> action
            == HotkeyAction::Region,
        route_of(action) == ActionRoute::Overlay(InitialSelectionTool::Window) <==> action
            == HotkeyAction::Window,
        route_of(action) == ActionRoute::FullDisplay <==> action == HotkeyAction::FullDisplay,
        route_of(action) == ActionRoute::RepeatLastRegion <==> action
            == HotkeyAction::RepeatLastRegion,
{
}

/// With the overlay at hand every action can be served. Without it an action that needs it cannot,
/// unless it repeats a region that still fits; the last workflow and the full display always can.
pub proof fn law_actions_are_refused_only_for_want_of_the_overlay(
    action: HotkeyAction,
    fault: Option<Seq<char>>,
)
    ensures
        routing_fault(action, true, fault) is None,
        fault is Some ==> (routing_fault(action, false, fault) is Some <==> needs_selection(action)),
        fault is None ==> (routing_fault(action, false, fault) is Some <==> action
            == HotkeyAction::Region || action == HotkeyAction::Window),
        !needs_selection(HotkeyAction::LastWorkflow) && !needs_selection(HotkeyAction::FullDisplay),
        needs_selection(HotkeyAction::Region) && needs_selection(HotkeyAction::Window)
            && needs_selection(HotkeyAction::RepeatLastRegion),
{
}

/// A confirmed region is captured again exactly where the display has the size and the rotation that
/// it had, and the region has an area that lies on the display and on the desktop.
pub proof fn law_a_region_repeats_where_it_still_fits(
    confirmed: ConfirmedRegion,
    metadata: FrameMetadata,
)
    ensures
        ({
            let (region, source) = (confirmed.region, confirmed.source);
            let display = metadata.source_rect;
            let same_display = source.width == display.width && source.height == display.height
                && source.rotation_degrees == metadata.rotation_degrees;
            let on_display = region.width > 0 && region.height > 0 && 0 <= region.x && 0 <= region.y
                && region.x + region.width <= display.width && region.y + region.height
                <= display.height;
            let on_desktop = display.x + region.x <= i32::MAX && display.y + region.y <= i32::MAX;
            let fault = repeat_fault(Some(confirmed), metadata);
            &&& fault is None <==> same_display && on_display && on_desktop
            &&& fault == Some("source_geometry_changed"@) <==> !same_display
            &&& fault == Some("invalid_region_bounds"@) <==> same_display && !(on_display
                && on_desktop)
        }),
        repeat_fault(None, metadata) == Some("missing_confirmed_region"@),
{
    reveal_strlit("source_geometry_changed");
    reveal_strlit("invalid_region_bounds");
    assert("source_geometry_changed"@.len() != "invalid_region_bounds"@.len());
}

/// An attempt without destinations is disabled, one that any of them took is queued, and one that
/// none took ends as the last of them answered.
pub proof fn law_an_attempt_ends_as_its_destinations_answered(answers: Seq<Submission>)
    ensures
        delivery_status(answers) == "disabled"@ <==> answers.len() == 0,
        delivery_status(answers) == "queued"@ <==> exists|i: int|
            0 <= i < answers.len() && #[trigger] answers[i] is Accepted,
        answers.len() > 0 && (forall|i: int|
            0 <= i < answers.len() ==> !(#[trigger] answers[i] is Accepted)) ==> delivery_status(
            answers,
        ) == if answers.last() is Full {
            "queue_full"@
        } else {
            "worker_disconnected"@
        },
{
    reveal_strlit("disabled");
    reveal_strlit("queued");
    reveal_strlit("queue_full");
    reveal_strlit("worker_disconnected");
    assert("disabled"@.len() == 8 && "queued"@.len() == 6 && "queue_full"@.len() == 10
        && "worker_disconnected"@.len() == 19);
    if answers.len() > 0 && !delivered(answers) {
        assert(!(answers[answers.len() - 1] is Accepted));
    }
}

/// An attempt is the overlay's exactly under the two names that say so.
pub proof fn law_queued_attempts_are_named(status: Seq<char>)
    ensures
        is_queued_status(status) <==> status == "selection_queued"@ || status
            == "live_selection_queued"@,
        !is_queued_status("queued"@) && !is_queued_status("disabled"@) && !is_queued_status(
            "selection_queue_full"@,
        ),
{
    reveal_strlit("selection_queued");
    reveal_strlit("live_selection_queued");
    reveal_strlit("queued");
    reveal_strlit("disabled");
    reveal_strlit("selection_queue_full");
    assert("selection_queued"@.len() == 16 && "live_selection_queued"@.len() == 21);
    assert("queued"@.len() == 6 && "disabled"@.len() == 8 && "selection_queue_full"@.len() == 20);
}

/// A rejected copy is known by why it was rejected, and only an answer that says so hides an error of
/// its record.
pub proof fn law_answers_say_what_became_of_the_copy(answer: Submission)
    ensures
        rejection_status(answer) is None <==> answer is Accepted,
        rejection_status(answer) == Some("queue_full"@) <==> answer is Full,
        rejection_status(answer) == Some("worker_disconnected"@) <==> answer is Disconnected,
        answer is Accepted ==> record_error(answer) is None,
        answer matches Submission::Full { metrics_error } ==> record_error(answer) == metrics_error,
        answer matches Submission::Disconnected { metrics_error } ==> record_error(answer)
            == metrics_error,
{
    reveal_strlit("queue_full");
    reveal_strlit("worker_disconnected");
    assert("queue_full"@.len() == 10 && "worker_disconnected"@.len() == 19);
}

/// A record has failed before an answer exactly if it failed before the one ahead of it or at that one,
/// and none has before the first.
pub proof fn law_failed_records_add_up(answers: Seq<Submission>, end: int)
    requires
        0 <= end < answers.len(),
    ensures
        !record_failed_before(answers, 0),
        record_failed_before(answers, end + 1) <==> record_failed_before(answers, end) || record_error(
            answers[end],
        ) is Some,
{
    if record_error(answers[end]) is Some {
        assert(record_failed_before(answers, end + 1));
    }
}

/// A destination's answer is taken as it was given, and no record is closed by that.
pub proof fn law_answers_are_taken_as_given(submission: Submission, result: Result<(), OutputRejection>)
    requires
        is_submission(submission, result),
    ensures
        submission is Accepted <==> result is Ok,
        submission is Full <==> (result matches Err(rejection) && rejection is QueueFull),
        submission is Disconnected <==> (result matches Err(rejection) && rejection is Disconnected),
        record_error(submission) is None,
{
}

} // verus!
