//! The selection worker: what it does with the answer of an overlay, and what it remembers.
use vstd::prelude::*;
use vstd::string::*;

use crate::capture::{CaptureId, FrameMetadata, Rect};
use crate::config::PreviewMode;
use crate::daemon::dispatch::{
    materialize, repeat_fault, GpuAnswer, Materialization, SelectionKind, Submission,
};
use crate::region::{
    CaptureRegion, CaptureRegionSource, CaptureTool, ConfirmedRegion, Coordinate,
};
use crate::table::TextMap;
use crate::text::{decimal, decimal_text, same, starts_with};

verus! {

/// What a selection is called in reports.
pub open spec fn kind_name(kind: SelectionKind) -> Seq<char> {
    match kind {
        SelectionKind::Display => "display"@,
        SelectionKind::Region => "region"@,
        SelectionKind::Window => "window"@,
    }
}

/// What a selection is called in reports.
pub fn selection_kind(kind: SelectionKind) -> (name: &'static str)
    ensures
        name@ == kind_name(kind),
{
    match kind {
        SelectionKind::Display => "display",
        SelectionKind::Region => "region",
        SelectionKind::Window => "window",
    }
}

/// How the pixels of a selection are obtained without the graphics device: from the frame that the
/// overlay froze, or from one captured on confirmation.
pub open spec fn materialization_name(kind: SelectionKind, on_confirmation: bool) -> Seq<char> {
    match kind {
        SelectionKind::Display => if on_confirmation {
            "confirmation_display"@
        } else {
            "frozen_display"@
        },
        SelectionKind::Region => if on_confirmation {
            "confirmation_desktop_crop"@
        } else {
            "frozen_desktop_crop"@
        },
        SelectionKind::Window => "native_window_render"@,
    }
}

/// How the pixels of a selection are obtained without the graphics device.
pub fn selection_materialization(kind: SelectionKind, on_confirmation: bool) -> (name: &'static str)
    ensures
        name@ == materialization_name(kind, on_confirmation),
{
    match kind {
        SelectionKind::Display => {
            if on_confirmation {
                "confirmation_display"
            } else {
                "frozen_display"
            }
        },
        SelectionKind::Region => {
            if on_confirmation {
                "confirmation_desktop_crop"
            } else {
                "frozen_desktop_crop"
            }
        },
        SelectionKind::Window => "native_window_render",
    }
}

/// The time between the moment a frame's pixels were ready and now.
pub fn offset_after_cpu(elapsed_ns: u64, cpu_ready_offset_ns: u64) -> (offset: u64)
    ensures
        offset == if elapsed_ns > cpu_ready_offset_ns {
            elapsed_ns - cpu_ready_offset_ns
        } else {
            0
        },
{
    elapsed_ns.saturating_sub(cpu_ready_offset_ns)
}

/// What the overlay answered.
#[derive(Debug, Eq, PartialEq)]
pub enum OverlayAnswer {
    Confirmed(SelectionKind),
    Cancelled,
    Failed(String),
}

/// What the worker does with a job next.
#[derive(Debug, Eq, PartialEq)]
pub enum JobStep {
    /// Cut the selection out. Region selections are remembered first, and the graphics device is
    /// asked first where it kept the frame.
    Materialize { remember_region: bool, ask_gpu: bool },
    /// Take the frame that the graphics device cut out.
    UseGpuFrame(Materialization),
    /// Cut the selection from the captured frame.
    CropFrame(Materialization),
    /// Offer the selected frame to the destinations.
    Submit,
    /// End the attempt without output.
    Finish { event: &'static str, message: String },
    /// The attempt is over; the destination did not take it for this reason.
    Skipped(&'static str),
    /// The attempt is the destination's now.
    Delivered,
}

/// Takes the overlay's answer.
pub fn on_answer(answer: OverlayAnswer, has_native_frame: bool) -> (step: JobStep)
    ensures
        match answer {
            OverlayAnswer::Confirmed(kind) => step == (JobStep::Materialize {
                remember_region: kind == SelectionKind::Region,
                ask_gpu: kind == SelectionKind::Region && has_native_frame,
            }),
            OverlayAnswer::Cancelled => step matches JobStep::Finish { event, message } && event@
                == "selection_cancelled"@ && message@ == "selection was cancelled"@,
            OverlayAnswer::Failed(error) => step matches JobStep::Finish { event, message } && event@
                == "selection_failed"@ && message == error,
        },
{
    match answer {
        OverlayAnswer::Confirmed(kind) => JobStep::Materialize {
            remember_region: kind == SelectionKind::Region,
            ask_gpu: kind == SelectionKind::Region && has_native_frame,
        },
        OverlayAnswer::Cancelled => JobStep::Finish {
            event: "selection_cancelled",
            message: "selection was cancelled".to_owned(),
        },
        OverlayAnswer::Failed(error) => JobStep::Finish {
            event: "selection_failed",
            message: error,
        },
    }
}

/// What follows the answer of an overlay that is shown over the live desktop.
#[derive(Debug, Eq, PartialEq)]
pub enum LiveStep {
    /// Go on with the frame that the overlay kept of the window.
    UseWindowFrame,
    /// Let the capture worker take the pixels, once the overlay has left the screen.
    Capture(SelectionKind),
    /// Let the capture worker take a frame for a frozen preview; this is logged.
    FreezePreview { warning: String },
    /// End the attempt without output.
    Finish { event: &'static str, message: String },
}

/// Takes the answer of an overlay that is shown over the live desktop. A presenter that fails is
/// replaced by a frozen preview where the choice was left open.
pub fn on_live(answer: OverlayAnswer, preview: PreviewMode) -> (step: LiveStep)
    ensures
        match answer {
            OverlayAnswer::Confirmed(kind) => step == if kind == SelectionKind::Window {
                LiveStep::UseWindowFrame
            } else {
                LiveStep::Capture(kind)
            },
            OverlayAnswer::Cancelled => step matches LiveStep::Finish { event, message } && event@
                == "selection_cancelled"@ && message@ == "selection was cancelled"@,
            OverlayAnswer::Failed(error) => if preview == PreviewMode::Auto {
                step matches LiveStep::FreezePreview { warning } && warning@
                    == "live presenter failed; retrying with a frozen preview: "@ + error@
            } else {
                step matches LiveStep::Finish { event, message } && event@ == "selection_failed"@
                    && message == error
            },
        },
{
    match answer {
        OverlayAnswer::Confirmed(kind) => match kind {
            SelectionKind::Window => LiveStep::UseWindowFrame,
            SelectionKind::Display | SelectionKind::Region => LiveStep::Capture(kind),
        },
        OverlayAnswer::Cancelled => LiveStep::Finish {
            event: "selection_cancelled",
            message: "selection was cancelled".to_owned(),
        },
        OverlayAnswer::Failed(error) => match preview {
            PreviewMode::Auto => {
                let mut warning = "live presenter failed; retrying with a frozen preview: ".to_owned();
                warning.append(error.as_str());
                LiveStep::FreezePreview { warning }
            },
            PreviewMode::Live | PreviewMode::Frozen => LiveStep::Finish {
                event: "selection_failed",
                message: error,
            },
        },
    }
}

/// Takes the graphics device's answer.
pub fn on_gpu_answer(kind: SelectionKind, on_confirmation: bool, answer: GpuAnswer) -> (step:
    JobStep)
    ensures
        answer is Materialized ==> (step matches JobStep::UseGpuFrame(m) && m.from_gpu && m.label@
            == "dxgi_gpu_region"@ && m.gpu_fallback_error is None),
        !(answer is Materialized) ==> (step matches JobStep::CropFrame(m) && !m.from_gpu && m.label@
            == materialization_name(kind, on_confirmation) && m.gpu_fallback_error == match answer {
            GpuAnswer::Failed(error) => Some(error),
            _ => None,
        }),
{
    let materialization = materialize(selection_materialization(kind, on_confirmation), answer);
    if materialization.from_gpu {
        JobStep::UseGpuFrame(materialization)
    } else {
        JobStep::CropFrame(materialization)
    }
}

/// Takes the result of cutting the selection from the captured frame.
pub fn on_crop(error: Option<String>) -> (step: JobStep)
    ensures
        match error {
            None => step == JobStep::Submit,
            Some(error) => step matches JobStep::Finish { event, message } && event@
                == "selection_failed"@ && message == error,
        },
{
    match error {
        None => JobStep::Submit,
        Some(error) => JobStep::Finish { event: "selection_failed", message: error },
    }
}

/// Takes the destination's answer.
pub fn on_submission(submission: &Submission) -> (step: JobStep)
    ensures
        match *submission {
            Submission::Accepted => step == JobStep::Delivered,
            Submission::Full { .. } => step matches JobStep::Skipped(reason) && reason@
                == "queue_full"@,
            Submission::Disconnected { .. } => step matches JobStep::Skipped(reason) && reason@
                == "worker_disconnected"@,
        },
{
    match submission {
        Submission::Accepted => JobStep::Delivered,
        Submission::Full { .. } => JobStep::Skipped("queue_full"),
        Submission::Disconnected { .. } => JobStep::Skipped("worker_disconnected"),
    }
}

/// A line for the log, and whether it reports an error.
#[derive(Debug, Eq, PartialEq)]
pub struct LogLine {
    pub is_error: bool,
    pub text: String,
}

/// What is logged of an attempt that ended without output. Only a cancelled selection is no error.
pub fn finish_line(capture_id: CaptureId, event: &str, message: &str) -> (line: LogLine)
    ensures
        line.is_error == (event@ != "selection_cancelled"@),
        line.text@ == "selection "@ + decimal(capture_id.0 as nat) + (if event@
            == "selection_cancelled"@ {
            " cancelled"@
        } else {
            " failed: "@ + message@
        }),
{
    let mut text = "selection ".to_owned();
    text.append(decimal_text(capture_id.0).as_str());
    if same(event, "selection_cancelled") {
        text.append(" cancelled");
        LogLine { is_error: false, text }
    } else {
        let mut rest = " failed: ".to_owned();
        rest.append(message);
        text.append(rest.as_str());
        LogLine { is_error: true, text }
    }
}

/// What an overlay reports about itself while it is open.
#[derive(Debug, Eq, PartialEq)]
pub enum OverlayUiUpdate {
    Interaction {
        display_id: String,
        tool: CaptureTool,
        region: Option<CaptureRegion>,
        source: Option<CaptureRegionSource>,
    },
    ToolbarCenter { display_id: String, center_x: Coordinate, center_y: Coordinate },
    ConfirmedRegion { display_id: String, region: CaptureRegion, source: CaptureRegionSource },
}

/// The region that a rectangle is on a display, with the display's geometry.
pub open spec fn region_on(metadata: FrameMetadata, rect: Rect) -> ConfirmedRegion {
    ConfirmedRegion {
        region: CaptureRegion {
            x: (rect.x - metadata.source_rect.x) as i32,
            y: (rect.y - metadata.source_rect.y) as i32,
            width: rect.width,
            height: rect.height,
        },
        source: CaptureRegionSource {
            width: metadata.source_rect.width,
            height: metadata.source_rect.height,
            rotation_degrees: metadata.rotation_degrees,
        },
    }
}

/// Whether a distance between two coordinates is itself a coordinate.
pub open spec fn in_coordinate_range(distance: int) -> bool {
    i32::MIN <= distance <= i32::MAX
}

/// Remembers a confirmed region under its display, relative to the display's origin, and gives the
/// update that saves it. A region too far from the origin is not remembered.
pub fn remember_confirmed_region(
    cache: &mut TextMap<ConfirmedRegion>,
    metadata: &FrameMetadata,
    rect: Rect,
) -> (result: Result<OverlayUiUpdate, &'static str>)
    ensures
        ({
            let x = rect.x - metadata.source_rect.x;
            let y = rect.y - metadata.source_rect.y;
            if !in_coordinate_range(x) {
                (result matches Err(text) && text@ == "confirmed region x coordinate is out of range"@)
                    && *final(cache) == *old(cache)
            } else if !in_coordinate_range(y) {
                (result matches Err(text) && text@ == "confirmed region y coordinate is out of range"@)
                    && *final(cache) == *old(cache)
            } else {
                let confirmed = region_on(*metadata, rect);
                &&& final(cache)@ == old(cache)@.insert(metadata.display_id@, confirmed)
                &&& result matches Ok(
                    OverlayUiUpdate::ConfirmedRegion { display_id, region, source },
                ) && display_id@ == metadata.display_id@ && region == confirmed.region && source
                    == confirmed.source
            }
        }),
{
    let source = metadata.source_rect;
    let local_x: i64 = rect.x as i64 - source.x as i64;
    let local_y: i64 = rect.y as i64 - source.y as i64;
    if local_x < i32::MIN as i64 || local_x > i32::MAX as i64 {
        return Err("confirmed region x coordinate is out of range");
    }
    if local_y < i32::MIN as i64 || local_y > i32::MAX as i64 {
        return Err("confirmed region y coordinate is out of range");
    }
    let confirmed = ConfirmedRegion {
        region: CaptureRegion {
            x: local_x as i32,
            y: local_y as i32,
            width: rect.width,
            height: rect.height,
        },
        source: CaptureRegionSource {
            width: source.width,
            height: source.height,
            rotation_degrees: metadata.rotation_degrees,
        },
    };
    let _ = cache.insert(metadata.display_id.0.clone(), confirmed);
    Ok(
        OverlayUiUpdate::ConfirmedRegion {
            display_id: metadata.display_id.0.clone(),
            region: confirmed.region,
            source: confirmed.source,
        },
    )
}

/// A region that lies on its display can be captured again, and is then the same rectangle.
pub proof fn law_confirmed_region_repeats(metadata: FrameMetadata, rect: Rect)
    requires
        metadata.source_rect.encloses(rect),
        rect.width > 0,
        rect.height > 0,
        in_coordinate_range(rect.x - metadata.source_rect.x),
        in_coordinate_range(rect.y - metadata.source_rect.y),
    ensures
        repeat_fault(Some(region_on(metadata, rect)), metadata) is None,
        metadata.source_rect.x + region_on(metadata, rect).region.x == rect.x,
        metadata.source_rect.y + region_on(metadata, rect).region.y == rect.y,
        region_on(metadata, rect).region.width == rect.width,
        region_on(metadata, rect).region.height == rect.height,
        region_on(metadata, rect).fits(),
{
}

/// The last interaction with an overlay.
#[derive(Clone, Copy, Debug, Eq, PartialEq, Structural)]
pub struct Interaction {
    pub tool: CaptureTool,
    pub region: Option<CaptureRegion>,
    pub source: Option<CaptureRegionSource>,
}

/// The updates of one display that wait to be saved, at most one of each kind.
#[derive(Clone, Copy, Debug, Eq, PartialEq)]
pub struct PendingUpdates {
    pub interaction: Option<Interaction>,
    pub center: Option<(Coordinate, Coordinate)>,
    pub confirmed: Option<ConfirmedRegion>,
}

impl PendingUpdates {
    /// Nothing waits.
    pub open spec fn none() -> PendingUpdates {
        PendingUpdates { interaction: None, center: None, confirmed: None }
    }
}

/// A later interaction on top of an earlier one: it replaces it, but keeps its region where it has
/// none of its own.
pub open spec fn merged(earlier: Option<Interaction>, later: Interaction) -> Interaction {
    match earlier {
        Some(earlier) => if later.region is None {
            Interaction { tool: later.tool, region: earlier.region, source: earlier.source }
        } else {
            later
        },
        None => later,
    }
}

/// What waits for a display.
pub open spec fn pending_of(waiting: Map<Seq<char>, PendingUpdates>, id: Seq<char>) -> PendingUpdates {
    if waiting.dom().contains(id) {
        waiting[id]
    } else {
        PendingUpdates::none()
    }
}

/// The display that an update is about.
pub open spec fn display_of(update: OverlayUiUpdate) -> Seq<char> {
    match update {
        OverlayUiUpdate::Interaction { display_id, .. } => display_id@,
        OverlayUiUpdate::ToolbarCenter { display_id, .. } => display_id@,
        OverlayUiUpdate::ConfirmedRegion { display_id, .. } => display_id@,
    }
}

/// What waits for a display after one more update.
pub open spec fn with_update(pending: PendingUpdates, update: OverlayUiUpdate) -> PendingUpdates {
    match update {
        OverlayUiUpdate::Interaction { tool, region, source, .. } => PendingUpdates {
            interaction: Some(
                merged(pending.interaction, Interaction { tool, region, source }),
            ),
            ..pending
        },
        OverlayUiUpdate::ToolbarCenter { center_x, center_y, .. } => PendingUpdates {
            center: Some((center_x, center_y)),
            ..pending
        },
        OverlayUiUpdate::ConfirmedRegion { region, source, .. } => PendingUpdates {
            confirmed: Some(ConfirmedRegion { region, source }),
            ..pending
        },
    }
}

/// Adds an update to those that wait. Each kind keeps the latest of its display.
pub fn coalesce_ui_update(waiting: &mut TextMap<PendingUpdates>, update: OverlayUiUpdate)
    ensures
        final(waiting)@ == old(waiting)@.insert(
            display_of(update),
            with_update(pending_of(old(waiting)@, display_of(update)), update),
        ),
{
    let display_id = match &update {
        OverlayUiUpdate::Interaction { display_id, .. } => display_id.clone(),
        OverlayUiUpdate::ToolbarCenter { display_id, .. } => display_id.clone(),
        OverlayUiUpdate::ConfirmedRegion { display_id, .. } => display_id.clone(),
    };
    let mut pending = match waiting.get(display_id.as_str()) {
        Some(pending) => *pending,
        None => PendingUpdates { interaction: None, center: None, confirmed: None },
    };
    match update {
        OverlayUiUpdate::Interaction { tool, region, source, .. } => {
            let mut interaction = Interaction { tool, region, source };
            if let Some(earlier) = pending.interaction {
                if interaction.region.is_none() {
                    interaction.region = earlier.region;
                    interaction.source = earlier.source;
                }
            }
            pending.interaction = Some(interaction);
        },
        OverlayUiUpdate::ToolbarCenter { center_x, center_y, .. } => {
            pending.center = Some((center_x, center_y));
        },
        OverlayUiUpdate::ConfirmedRegion { region, source, .. } => {
            pending.confirmed = Some(ConfirmedRegion { region, source });
        },
    }
    let _ = waiting.insert(display_id, pending);
}

/// A region drawn earlier in a batch survives later interactions that draw none.
pub proof fn law_coalescing_keeps_the_region(
    pending: PendingUpdates,
    earlier: OverlayUiUpdate,
    later: OverlayUiUpdate,
)
    requires
        earlier is Interaction,
        later is Interaction,
        earlier->Interaction_region is Some,
        later->Interaction_region is None,
    ensures
        ({
            let after = with_update(with_update(pending, earlier), later).interaction;
            &&& after is Some
            &&& after->Some_0.tool == later->Interaction_tool
            &&& after->Some_0.region == earlier->Interaction_region
            &&& after->Some_0.source == earlier->Interaction_source
        }),
{
}

/// The updates that wait for one display, in the order they are saved in.
pub open spec fn saves_of(id: Seq<char>, pending: PendingUpdates) -> Seq<PendingSave> {
    (match pending.interaction {
        Some(interaction) => seq![PendingSave::Interaction(id, interaction)],
        None => Seq::<PendingSave>::empty(),
    }) + (match pending.center {
        Some(center) => seq![PendingSave::Center(id, center.0, center.1)],
        None => Seq::<PendingSave>::empty(),
    }) + (match pending.confirmed {
        Some(confirmed) => seq![PendingSave::Confirmed(id, confirmed)],
        None => Seq::<PendingSave>::empty(),
    })
}

/// One save, by its display.
pub enum PendingSave {
    Interaction(Seq<char>, Interaction),
    Center(Seq<char>, Coordinate, Coordinate),
    Confirmed(Seq<char>, ConfirmedRegion),
}

impl View for OverlayUiUpdate {
    type V = PendingSave;

    open spec fn view(&self) -> PendingSave {
        match *self {
            OverlayUiUpdate::Interaction { display_id, tool, region, source } =>
                PendingSave::Interaction(display_id@, Interaction { tool, region, source }),
            OverlayUiUpdate::ToolbarCenter { display_id, center_x, center_y } =>
                PendingSave::Center(display_id@, center_x, center_y),
            OverlayUiUpdate::ConfirmedRegion { display_id, region, source } =>
                PendingSave::Confirmed(display_id@, ConfirmedRegion { region, source }),
        }
    }
}

/// The saves of some displays, one display after the other.
pub open spec fn saves_for(keys: Seq<Seq<char>>, waiting: Map<Seq<char>, PendingUpdates>) -> Seq<
    PendingSave,
>
    decreases keys.len(),
{
    if keys.len() == 0 {
        Seq::empty()
    } else {
        saves_for(keys.drop_last(), waiting) + saves_of(keys.last(), waiting[keys.last()])
    }
}

/// The contents of updates.
pub open spec fn save_views(updates: Seq<OverlayUiUpdate>) -> Seq<PendingSave> {
    Seq::new(updates.len(), |i: int| updates[i]@)
}

/// The updates that wait, in the order they are saved in: by display, and for each display the
/// interaction, the toolbar and the confirmed region.
pub fn pending_saves(waiting: &TextMap<PendingUpdates>) -> (updates: Vec<OverlayUiUpdate>)
    ensures
        save_views(updates@) == saves_for(waiting.keys(), waiting@),
{
    let count: usize = waiting.len();
    let ghost keys = waiting.keys();
    let mut updates: Vec<OverlayUiUpdate> = Vec::new();
    let mut i: usize = 0;
    while i < count
        invariant
            i <= count,
            count == keys.len(),
            keys == waiting.keys(),
            save_views(updates@) == saves_for(keys.take(i as int), waiting@),
        decreases count - i,
    {
        let id = waiting.key_at(i);
        let pending = *waiting.value_at(i);
        let ghost mut done: Seq<PendingSave> = Seq::empty();
        if let Some(interaction) = pending.interaction {
            updates.push(
                OverlayUiUpdate::Interaction {
                    display_id: id.clone(),
                    tool: interaction.tool,
                    region: interaction.region,
                    source: interaction.source,
                },
            );
            proof {
                done = done.push(PendingSave::Interaction(id@, interaction));
            }
        }
        if let Some(center) = pending.center {
            updates.push(
                OverlayUiUpdate::ToolbarCenter {
                    display_id: id.clone(),
                    center_x: center.0,
                    center_y: center.1,
                },
            );
            proof {
                done = done.push(PendingSave::Center(id@, center.0, center.1));
            }
        }
        if let Some(confirmed) = pending.confirmed {
            updates.push(
                OverlayUiUpdate::ConfirmedRegion {
                    display_id: id.clone(),
                    region: confirmed.region,
                    source: confirmed.source,
                },
            );
            proof {
                done = done.push(PendingSave::Confirmed(id@, confirmed));
            }
        }
        proof {
            assert(keys.take(i + 1).drop_last() =~= keys.take(i as int));
        }
        i += 1;
    }
    proof {
        assert(keys.take(i as int) =~= keys);
    }
    updates
}

/// An update waits under its own display and takes the place of what waited there of its kind. What
/// waits of another kind stays, and so does what waits for other displays.
pub proof fn law_the_last_update_of_a_kind_waits(pending: PendingUpdates, update: OverlayUiUpdate)
    ensures
        ({
            let after = with_update(pending, update);
            match update {
                OverlayUiUpdate::Interaction { display_id, tool, region, source } => {
                    &&& display_of(update) == display_id@
                    &&& after.interaction matches Some(interaction) && interaction.tool == tool && (
                    region is Some ==> interaction.region == region && interaction.source == source)
                        && (region is None ==> match pending.interaction {
                        Some(earlier) => interaction.region == earlier.region && interaction.source
                            == earlier.source,
                        None => interaction.region is None && interaction.source == source,
                    })
                    &&& after.center == pending.center
                    &&& after.confirmed == pending.confirmed
                },
                OverlayUiUpdate::ToolbarCenter { display_id, center_x, center_y } => {
                    &&& display_of(update) == display_id@
                    &&& after.center == Some((center_x, center_y))
                    &&& after.interaction == pending.interaction
                    &&& after.confirmed == pending.confirmed
                },
                OverlayUiUpdate::ConfirmedRegion { display_id, region, source } => {
                    &&& display_of(update) == display_id@
                    &&& after.confirmed matches Some(confirmed) && confirmed.region == region
                        && confirmed.source == source
                    &&& after.interaction == pending.interaction
                    &&& after.center == pending.center
                },
            }
        }),
{
}

/// Everything that waits for a display is saved for that display, and nothing else is.
pub proof fn law_what_waits_is_saved(
    keys: Seq<Seq<char>>,
    waiting: Map<Seq<char>, PendingUpdates>,
    id: Seq<char>,
)
    requires
        keys.contains(id),
    ensures
        waiting[id].interaction matches Some(interaction) ==> saves_for(keys, waiting).contains(
            PendingSave::Interaction(id, interaction),
        ),
        waiting[id].center matches Some(center) ==> saves_for(keys, waiting).contains(
            PendingSave::Center(id, center.0, center.1),
        ),
        waiting[id].confirmed matches Some(confirmed) ==> saves_for(keys, waiting).contains(
            PendingSave::Confirmed(id, confirmed),
        ),
    decreases keys.len(),
{
    let front = keys.drop_last();
    let last = keys.last();
    let (before, own) = (saves_for(front, waiting), saves_of(last, waiting[last]));
    let k = choose|k: int| 0 <= k < keys.len() && keys[k] == id;
    if k < front.len() {
        assert(front[k] == id);
        law_what_waits_is_saved(front, waiting, id);
    } else {
        let pending = waiting[id];
        let (a, b, c) = (
            (match pending.interaction {
                Some(interaction) => seq![PendingSave::Interaction(id, interaction)],
                None => Seq::<PendingSave>::empty(),
            }),
            (match pending.center {
                Some(center) => seq![PendingSave::Center(id, center.0, center.1)],
                None => Seq::<PendingSave>::empty(),
            }),
            (match pending.confirmed {
                Some(confirmed) => seq![PendingSave::Confirmed(id, confirmed)],
                None => Seq::<PendingSave>::empty(),
            }),
        );
        assert(own == a + b + c);
        if let Some(interaction) = pending.interaction {
            assert(own[0] == PendingSave::Interaction(id, interaction));
        }
        if let Some(center) = pending.center {
            assert(own[a.len() as int] == PendingSave::Center(id, center.0, center.1));
        }
        if let Some(confirmed) = pending.confirmed {
            assert(own[(a.len() + b.len()) as int] == PendingSave::Confirmed(id, confirmed));
        }
    }
    assert forall|save: PendingSave| before.contains(save) || own.contains(save) implies
        #[trigger] saves_for(keys, waiting).contains(save) by {
        vstd::seq_lib::lemma_seq_concat_contains_all_elements(before, own, save);
    }
}

/// A region is remembered with its distance from the corner of its display, and with the size and the
/// rotation that the display has.
pub proof fn law_a_region_is_remembered_on_its_display(metadata: FrameMetadata, rect: Rect)
    requires
        in_coordinate_range(rect.x - metadata.source_rect.x),
        in_coordinate_range(rect.y - metadata.source_rect.y),
    ensures
        ({
            let confirmed = region_on(metadata, rect);
            &&& confirmed.region.x + metadata.source_rect.x == rect.x
            &&& confirmed.region.y + metadata.source_rect.y == rect.y
            &&& confirmed.region.width == rect.width
            &&& confirmed.region.height == rect.height
            &&& confirmed.source.width == metadata.source_rect.width
            &&& confirmed.source.height == metadata.source_rect.height
            &&& confirmed.source.rotation_degrees == metadata.rotation_degrees
        }),
        in_coordinate_range(rect.x as int),
{
}

/// Kinds of selection, and where their pixels come from, have names of their own.
pub proof fn law_selections_have_their_own_names(
    a: SelectionKind,
    b: SelectionKind,
    confirmed_a: bool,
    confirmed_b: bool,
)
    ensures
        kind_name(a) == kind_name(b) ==> a == b,
        materialization_name(a, confirmed_a) == materialization_name(b, confirmed_b) ==> a == b && (a
            is Window || confirmed_a == confirmed_b),
{
    reveal_strlit("display");
    reveal_strlit("region");
    reveal_strlit("window");
    reveal_strlit("confirmation_display");
    reveal_strlit("frozen_display");
    reveal_strlit("confirmation_desktop_crop");
    reveal_strlit("frozen_desktop_crop");
    reveal_strlit("native_window_render");
    let (p, q) = (kind_name(a), kind_name(b));
    assert(p[0] == q[0] || p != q);
    let (m, n) = (materialization_name(a, confirmed_a), materialization_name(b, confirmed_b));
    assert(m.len() == n.len() || m != n);
    assert(m[0] == n[0] || m != n);
}

/// What waits for a display is what was put there, and nothing waits for a display that was not heard
/// of.
pub proof fn law_nothing_waits_for_unknown_displays(
    waiting: Map<Seq<char>, PendingUpdates>,
    id: Seq<char>,
    pending: PendingUpdates,
)
    ensures
        pending_of(waiting.insert(id, pending), id) == pending,
        !waiting.dom().contains(id) ==> pending_of(waiting, id).interaction is None && pending_of(
            waiting,
            id,
        ).center is None && pending_of(waiting, id).confirmed is None,
{
}

/// A selection is taken from the frame of its confirmation exactly where there is one, and otherwise
/// from the frozen one; a window is drawn anew.
pub proof fn law_selections_say_where_their_pixels_come_from(kind: SelectionKind, confirmed: bool)
    ensures
        kind is Window ==> materialization_name(kind, confirmed) == "native_window_render"@,
        !(kind is Window) ==> (starts_with(materialization_name(kind, confirmed), "confirmation_"@)
            <==> confirmed),
        !(kind is Window) ==> (starts_with(materialization_name(kind, confirmed), "frozen_"@)
            <==> !confirmed),
        kind_name(kind) == (match kind {
            SelectionKind::Display => "display"@,
            SelectionKind::Region => "region"@,
            SelectionKind::Window => "window"@,
        }),
{
    reveal_strlit("confirmation_display");
    reveal_strlit("frozen_display");
    reveal_strlit("confirmation_desktop_crop");
    reveal_strlit("frozen_desktop_crop");
    reveal_strlit("confirmation_");
    reveal_strlit("frozen_");
    let name = materialization_name(kind, confirmed);
    if !(kind is Window) {
        if confirmed {
            assert(name.take(13) =~= "confirmation_"@);
            assert(name.take(7)[0] == 'c');
        } else {
            assert(name.take(7) =~= "frozen_"@);
            assert(name.take(13)[0] == 'f');
        }
    }
}

} // verus!
