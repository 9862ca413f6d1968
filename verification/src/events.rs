//! What the daemon says of a capture on its way, one JSON object at a time.
use vstd::prelude::*;
use vstd::string::*;

use crate::capture::{CaptureId, DisplayId, Rect};
use crate::clipboard::PublishTimes;
use crate::daemon::control::{
    active_hotkey_labels, binding_labels, switch_name, switch_text, TriggerEvent,
};
use crate::daemon::dispatch::{Materialization, SelectionKind};
use crate::daemon::settings::ResolvedDaemonArgs;
use crate::display_policy::{DisplayPolicy, Policy};
use crate::hotkey::{HotkeyAction, HotkeyBinding, HotkeyChord};
use crate::json::{
    event_fields, fields_of, insert_flag, insert_integer, insert_list, insert_null, insert_number,
    insert_number_or_null, insert_object, insert_text, insert_text_or_null, json_fields, json_text,
    new_event, new_object, no_fields, number_or_null, rect_fields, rect_object, render,
    text_or_null, JsonField, JsonObject,
};
use crate::output::OutputJob;
use crate::selection::{kind_name, selection_kind};

verus! {

/// The text of a chord, where one was pressed.
pub open spec fn chord_text(chord: Option<HotkeyChord>) -> Option<Seq<char>> {
    match chord {
        Some(chord) => Some(chord.text()),
        None => None,
    }
}

/// Adds a chord, or null where none was pressed.
fn insert_chord(object: &mut JsonObject, chord: Option<HotkeyChord>)
    ensures
        json_fields(*final(object)) == json_fields(*old(object)).insert(
            "chord"@,
            text_or_null(chord_text(chord)),
        ),
{
    match chord {
        Some(chord) => insert_text(object, "chord", chord.to_text().as_str()),
        None => insert_null(object, "chord"),
    }
}

/// What publishing a capture cost.
#[derive(Clone, Copy, Debug, Eq, PartialEq, Structural)]
pub struct PublishReport {
    pub payload_bytes: u64,
    pub png_payload_bytes: u64,
    pub png_encode_ns: u64,
    pub allocation_copy_ns: u64,
    pub open_wait_ns: u64,
    pub open_retries: u32,
    pub publish_ns: u64,
}

impl PublishReport {
    /// The fields of the figures as a JSON object.
    pub open spec fn fields(self) -> Map<Seq<char>, JsonField> {
        no_fields().insert("payload_bytes"@, JsonField::Number(self.payload_bytes as int)).insert(
            "png_payload_bytes"@,
            JsonField::Number(self.png_payload_bytes as int),
        ).insert("png_encode_ns"@, JsonField::Number(self.png_encode_ns as int)).insert(
            "allocation_copy_ns"@,
            JsonField::Number(self.allocation_copy_ns as int),
        ).insert("open_wait_ns"@, JsonField::Number(self.open_wait_ns as int)).insert(
            "open_retries"@,
            JsonField::Number(self.open_retries as int),
        ).insert("publish_ns"@, JsonField::Number(self.publish_ns as int))
    }

    /// The figures as a JSON object.
    pub(crate) fn to_object(&self) -> (object: JsonObject)
        ensures
            json_fields(object) == self.fields(),
    {
        let mut object = new_object();
        insert_number(&mut object, "payload_bytes", self.payload_bytes);
        insert_number(&mut object, "png_payload_bytes", self.png_payload_bytes);
        insert_number(&mut object, "png_encode_ns", self.png_encode_ns);
        insert_number(&mut object, "allocation_copy_ns", self.allocation_copy_ns);
        insert_number(&mut object, "open_wait_ns", self.open_wait_ns);
        insert_number(&mut object, "open_retries", self.open_retries as u64);
        insert_number(&mut object, "publish_ns", self.publish_ns);
        object
    }
}

/// The event of a capture that is on the clipboard.
pub fn clipboard_complete(
    job: &OutputJob,
    times: &PublishTimes,
    report: &PublishReport,
    publish_retries: u32,
) -> (text: String)
    ensures
        text@ == json_text(
            event_fields("clipboard_complete"@, job.capture_id).insert(
                "action"@,
                JsonField::Text(job.action.name()),
            ).insert("chord"@, text_or_null(chord_text(job.chord))).insert(
                "source"@,
                JsonField::Text(job.source@),
            ).insert("total_offset_ns"@, JsonField::Number(times.total_offset_ns as int)).insert(
                "cpu_to_clipboard_ns"@,
                JsonField::Number(times.cpu_to_clipboard_ns as int),
            ).insert("payload_bytes"@, JsonField::Number(report.payload_bytes as int)).insert(
                "png_payload_bytes"@,
                JsonField::Number(report.png_payload_bytes as int),
            ).insert("png_encode_ns"@, JsonField::Number(report.png_encode_ns as int)).insert(
                "allocation_copy_ns"@,
                JsonField::Number(report.allocation_copy_ns as int),
            ).insert("open_wait_ns"@, JsonField::Number(report.open_wait_ns as int)).insert(
                "open_retries"@,
                JsonField::Number(report.open_retries as int),
            ).insert("publish_retries"@, JsonField::Number(publish_retries as int)).insert(
                "publish_ns"@,
                JsonField::Number(report.publish_ns as int),
            ),
        ),
{
    let mut object = new_event("clipboard_complete", job.capture_id);
    insert_text(&mut object, "action", job.action.as_str());
    insert_chord(&mut object, job.chord);
    insert_text(&mut object, "source", job.source);
    insert_number(&mut object, "total_offset_ns", times.total_offset_ns);
    insert_number(&mut object, "cpu_to_clipboard_ns", times.cpu_to_clipboard_ns);
    insert_number(&mut object, "payload_bytes", report.payload_bytes);
    insert_number(&mut object, "png_payload_bytes", report.png_payload_bytes);
    insert_number(&mut object, "png_encode_ns", report.png_encode_ns);
    insert_number(&mut object, "allocation_copy_ns", report.allocation_copy_ns);
    insert_number(&mut object, "open_wait_ns", report.open_wait_ns);
    insert_number(&mut object, "open_retries", report.open_retries as u64);
    insert_number(&mut object, "publish_retries", publish_retries as u64);
    insert_number(&mut object, "publish_ns", report.publish_ns);
    render(object)
}

/// The event of a capture that did not reach the clipboard.
pub fn clipboard_failed(
    job: &OutputJob,
    error: &str,
    native_code: Option<i64>,
    retryable: bool,
    publish_retries: u32,
) -> (text: String)
    ensures
        text@ == json_text(
            event_fields("clipboard_failed"@, job.capture_id).insert(
                "source"@,
                JsonField::Text(job.source@),
            ).insert("action"@, JsonField::Text(job.action.name())).insert(
                "error"@,
                JsonField::Text(error@),
            ).insert(
                "native_code"@,
                match native_code {
                    Some(code) => JsonField::Number(code as int),
                    None => JsonField::Null,
                },
            ).insert("retryable"@, JsonField::Flag(retryable)).insert(
                "publish_retries"@,
                JsonField::Number(publish_retries as int),
            ),
        ),
{
    let mut object = new_event("clipboard_failed", job.capture_id);
    insert_text(&mut object, "source", job.source);
    insert_text(&mut object, "action", job.action.as_str());
    insert_text(&mut object, "error", error);
    match native_code {
        Some(code) => insert_integer(&mut object, "native_code", code),
        None => insert_null(&mut object, "native_code"),
    }
    insert_flag(&mut object, "retryable", retryable);
    insert_number(&mut object, "publish_retries", publish_retries as u64);
    render(object)
}

/// The event of a capture that the clipboard's queue would not take.
pub fn clipboard_skipped(capture_id: CaptureId, reason: &str) -> (text: String)
    ensures
        text@ == json_text(
            event_fields("clipboard_skipped"@, capture_id).insert(
                "reason"@,
                JsonField::Text(reason@),
            ),
        ),
{
    let mut object = new_event("clipboard_skipped", capture_id);
    insert_text(&mut object, "reason", reason);
    render(object)
}

/// The event of a selection that ended without output.
pub fn selection_finished(capture_id: CaptureId, source: &str, event: &str, message: &str) -> (text:
    String)
    ensures
        text@ == json_text(
            event_fields(event@, capture_id).insert("source"@, JsonField::Text(source@)).insert(
                "message"@,
                JsonField::Text(message@),
            ),
        ),
{
    let mut object = new_event(event, capture_id);
    insert_text(&mut object, "source", source);
    insert_text(&mut object, "message", message);
    render(object)
}

/// What cutting a region out on the graphics device cost.
#[derive(Clone, Copy, Debug, Eq, PartialEq, Structural)]
pub struct GpuFigures {
    pub gpu_copy_submit_ns: u64,
    pub map_wait_ns: u64,
    pub cpu_copy_ns: u64,
    pub total_ns: u64,
    pub bytes_read: u64,
    pub full_frame_bytes: u64,
    pub bytes_avoided: u64,
    pub contiguous_rows: bool,
}

impl GpuFigures {
    /// The fields of the figures as a JSON object.
    pub open spec fn fields(self) -> Map<Seq<char>, JsonField> {
        no_fields().insert(
            "gpu_copy_submit_ns"@,
            JsonField::Number(self.gpu_copy_submit_ns as int),
        ).insert("map_wait_ns"@, JsonField::Number(self.map_wait_ns as int)).insert(
            "cpu_copy_ns"@,
            JsonField::Number(self.cpu_copy_ns as int),
        ).insert("total_ns"@, JsonField::Number(self.total_ns as int)).insert(
            "bytes_read"@,
            JsonField::Number(self.bytes_read as int),
        ).insert("full_frame_bytes"@, JsonField::Number(self.full_frame_bytes as int)).insert(
            "bytes_avoided"@,
            JsonField::Number(self.bytes_avoided as int),
        ).insert("contiguous_rows"@, JsonField::Flag(self.contiguous_rows))
    }

    /// The figures as a JSON object.
    fn to_object(&self) -> (object: JsonObject)
        ensures
            json_fields(object) == self.fields(),
    {
        let mut object = new_object();
        insert_number(&mut object, "gpu_copy_submit_ns", self.gpu_copy_submit_ns);
        insert_number(&mut object, "map_wait_ns", self.map_wait_ns);
        insert_number(&mut object, "cpu_copy_ns", self.cpu_copy_ns);
        insert_number(&mut object, "total_ns", self.total_ns);
        insert_number(&mut object, "bytes_read", self.bytes_read);
        insert_number(&mut object, "full_frame_bytes", self.full_frame_bytes);
        insert_number(&mut object, "bytes_avoided", self.bytes_avoided);
        insert_flag(&mut object, "contiguous_rows", self.contiguous_rows);
        object
    }
}

/// The figures of the graphics device, or null where it was not asked.
pub open spec fn gpu_field(gpu: Option<GpuFigures>) -> JsonField {
    match gpu {
        Some(gpu) => JsonField::Object(gpu.fields()),
        None => JsonField::Null,
    }
}

/// Adds the figures of the graphics device, or null where it was not asked.
pub(crate) fn insert_gpu(object: &mut JsonObject, gpu: &Option<GpuFigures>)
    ensures
        json_fields(*final(object)) == json_fields(*old(object)).insert(
            "gpu_materialization"@,
            gpu_field(*gpu),
        ),
{
    match gpu {
        Some(gpu) => insert_object(object, "gpu_materialization", gpu.to_object()),
        None => insert_null(object, "gpu_materialization"),
    }
}

/// What a selection came to.
#[derive(Clone, Copy, Debug, Eq, PartialEq, Structural)]
pub struct SelectionFigures {
    pub kind: SelectionKind,
    pub rect: Rect,
    /// From the trigger to the confirmation.
    pub selection_offset_ns: u64,
    /// From the overlay's appearance to the confirmation.
    pub selection_interaction_ns: u64,
    pub overlay_preparation_ns: u64,
    pub window_overview_ns: u64,
    pub window_preview_count: u64,
    pub window_preview_bytes: u64,
    pub materialization_ns: u64,
    pub gpu: Option<GpuFigures>,
    pub selected_frame_bytes: u64,
}

/// The event of a selection whose pixels are on their way to the destinations.
pub fn selection_complete(
    capture_id: CaptureId,
    source: &str,
    action: HotkeyAction,
    chord: Option<HotkeyChord>,
    figures: &SelectionFigures,
    materialization: &Materialization,
) -> (text: String)
    ensures
        text@ == json_text(
            event_fields("selection_complete"@, capture_id).insert(
                "source"@,
                JsonField::Text(source@),
            ).insert("kind"@, JsonField::Text(kind_name(figures.kind))).insert(
                "rect"@,
                JsonField::Object(rect_fields(figures.rect)),
            ).insert(
                "selection_offset_ns"@,
                JsonField::Number(figures.selection_offset_ns as int),
            ).insert("action"@, JsonField::Text(action.name())).insert(
                "chord"@,
                text_or_null(chord_text(chord)),
            ).insert(
                "selection_interaction_ns"@,
                JsonField::Number(figures.selection_interaction_ns as int),
            ).insert(
                "overlay_preparation_ns"@,
                JsonField::Number(figures.overlay_preparation_ns as int),
            ).insert(
                "window_overview_ns"@,
                JsonField::Number(figures.window_overview_ns as int),
            ).insert(
                "window_preview_count"@,
                JsonField::Number(figures.window_preview_count as int),
            ).insert(
                "window_preview_bytes"@,
                JsonField::Number(figures.window_preview_bytes as int),
            ).insert("materialization"@, JsonField::Text(materialization.label@)).insert(
                "materialization_ns"@,
                JsonField::Number(figures.materialization_ns as int),
            ).insert("gpu_materialization"@, gpu_field(figures.gpu)).insert(
                "gpu_fallback_error"@,
                text_or_null(
                    match materialization.gpu_fallback_error {
                        Some(error) => Some(error@),
                        None => None,
                    },
                ),
            ).insert(
                "selected_frame_bytes"@,
                JsonField::Number(figures.selected_frame_bytes as int),
            ),
        ),
{
    let mut object = new_event("selection_complete", capture_id);
    insert_text(&mut object, "source", source);
    insert_text(&mut object, "kind", selection_kind(figures.kind));
    insert_object(&mut object, "rect", rect_object(figures.rect));
    insert_number(&mut object, "selection_offset_ns", figures.selection_offset_ns);
    insert_text(&mut object, "action", action.as_str());
    insert_chord(&mut object, chord);
    insert_number(&mut object, "selection_interaction_ns", figures.selection_interaction_ns);
    insert_number(&mut object, "overlay_preparation_ns", figures.overlay_preparation_ns);
    insert_number(&mut object, "window_overview_ns", figures.window_overview_ns);
    insert_number(&mut object, "window_preview_count", figures.window_preview_count);
    insert_number(&mut object, "window_preview_bytes", figures.window_preview_bytes);
    insert_text(&mut object, "materialization", materialization.label);
    insert_number(&mut object, "materialization_ns", figures.materialization_ns);
    insert_gpu(&mut object, &figures.gpu);
    insert_text_or_null(
        &mut object,
        "gpu_fallback_error",
        match &materialization.gpu_fallback_error {
            Some(error) => Some(error.as_str()),
            None => None,
        },
    );
    insert_number(&mut object, "selected_frame_bytes", figures.selected_frame_bytes);
    render(object)
}

/// The event of a repeated region that no longer fits its display.
pub fn repeat_region_fallback(
    capture_id: CaptureId,
    action: HotkeyAction,
    display_id: &DisplayId,
    reason: &str,
) -> (text: String)
    ensures
        text@ == json_text(
            event_fields("repeat_region_fallback"@, capture_id).insert(
                "action"@,
                JsonField::Text(action.name()),
            ).insert("display_id"@, JsonField::Text(display_id@)).insert(
                "reason"@,
                JsonField::Text(reason@),
            ).insert("route"@, JsonField::Text("region_overlay"@)),
        ),
{
    let mut object = new_event("repeat_region_fallback", capture_id);
    insert_text(&mut object, "action", action.as_str());
    insert_text(&mut object, "display_id", display_id.0.as_str());
    insert_text(&mut object, "reason", reason);
    insert_text(&mut object, "route", "region_overlay");
    render(object)
}

/// The event of a repeated region that was cut out.
pub fn repeat_region_materialized(
    capture_id: CaptureId,
    action: HotkeyAction,
    rect: Rect,
    materialization: &Materialization,
    materialization_ns: u64,
) -> (text: String)
    ensures
        text@ == json_text(
            event_fields("repeat_region_materialized"@, capture_id).insert(
                "action"@,
                JsonField::Text(action.name()),
            ).insert("route"@, JsonField::Text("direct"@)).insert(
                "rect"@,
                JsonField::Object(rect_fields(rect)),
            ).insert("materialization"@, JsonField::Text(materialization.label@)).insert(
                "materialization_ns"@,
                JsonField::Number(materialization_ns as int),
            ).insert(
                "gpu_fallback_error"@,
                text_or_null(
                    match materialization.gpu_fallback_error {
                        Some(error) => Some(error@),
                        None => None,
                    },
                ),
            ),
        ),
{
    let mut object = new_event("repeat_region_materialized", capture_id);
    insert_text(&mut object, "action", action.as_str());
    insert_text(&mut object, "route", "direct");
    insert_object(&mut object, "rect", rect_object(rect));
    insert_text(&mut object, "materialization", materialization.label);
    insert_number(&mut object, "materialization_ns", materialization_ns);
    insert_text_or_null(
        &mut object,
        "gpu_fallback_error",
        match &materialization.gpu_fallback_error {
            Some(error) => Some(error.as_str()),
            None => None,
        },
    );
    render(object)
}

/// What the capture engine is, once it stands.
pub open spec fn engine_fields(
    backend: Seq<char>,
    policy: Policy,
    displays: Seq<JsonObject>,
) -> Map<Seq<char>, JsonField> {
    no_fields().insert("backend"@, JsonField::Text(backend)).insert(
        "configured_display"@,
        JsonField::Text(policy.text()),
    ).insert("displays"@, JsonField::List(fields_of(displays)))
}

/// What the capture engine is, once it stands, with an object for each display.
pub fn engine_ready(backend: &str, policy: &DisplayPolicy, displays: Vec<JsonObject>) -> (object:
    JsonObject)
    ensures
        json_fields(object) == engine_fields(backend@, policy@, displays@),
{
    let mut object = new_object();
    insert_text(&mut object, "backend", backend);
    insert_text(&mut object, "configured_display", policy.as_config_value().as_str());
    insert_list(&mut object, "displays", displays);
    object
}

/// The fields of one binding.
pub open spec fn binding_fields(binding: HotkeyBinding) -> Map<Seq<char>, JsonField> {
    no_fields().insert("action"@, JsonField::Text(binding.action.name())).insert(
        "chord"@,
        JsonField::Text(binding.chord.text()),
    )
}

/// The bindings, an object for each.
fn binding_objects(bindings: &Vec<HotkeyBinding>) -> (list: Vec<JsonObject>)
    ensures
        fields_of(list@) == bindings@.map_values(|binding: HotkeyBinding| binding_fields(binding)),
{
    let mut list: Vec<JsonObject> = Vec::new();
    let mut i: usize = 0;
    while i < bindings.len()
        invariant
            i <= bindings@.len(),
            list@.len() == i,
            forall|j: int|
                0 <= j < i ==> json_fields(#[trigger] list@[j]) == binding_fields(bindings@[j]),
        decreases bindings@.len() - i,
    {
        let mut object = new_object();
        insert_text(&mut object, "action", bindings[i].action.as_str());
        insert_text(&mut object, "chord", bindings[i].chord.to_text().as_str());
        list.push(object);
        i += 1;
    }
    list
}

/// How long a queue is, where it is used at all.
pub open spec fn capacity_field(used: bool, capacity: usize) -> JsonField {
    number_or_null(
        if used {
            Some(capacity as int)
        } else {
            None
        },
    )
}

/// Adds how long a queue is, where it is used at all.
fn insert_capacity(object: &mut JsonObject, key: &str, used: bool, capacity: usize)
    ensures
        json_fields(*final(object)) == json_fields(*old(object)).insert(
            key@,
            capacity_field(used, capacity),
        ),
{
    let capacity: Option<u64> = if used {
        Some(capacity as u64)
    } else {
        None
    };
    insert_number_or_null(object, key, capacity);
}

/// The event of a daemon that waits for its first trigger.
pub fn ready(
    settings: &ResolvedDaemonArgs,
    engine: JsonObject,
    output_directory: Option<&str>,
    tray: bool,
    log_file: Option<&str>,
) -> (text: String)
    ensures
        text@ == json_text(
            no_fields().insert("schema_version"@, JsonField::Number(1)).insert(
                "event"@,
                JsonField::Text("ready"@),
            ).insert(
                "hotkeys"@,
                JsonField::List(
                    settings.hotkey_bindings@.map_values(
                        |binding: HotkeyBinding| binding_fields(binding),
                    ),
                ),
            ).insert("capture"@, JsonField::Object(json_fields(engine))).insert(
                "queue_capacity"@,
                JsonField::Number(settings.trigger_queue_capacity as int),
            ).insert("clipboard"@, JsonField::Flag(settings.clipboard)).insert(
                "clipboard_queue_capacity"@,
                capacity_field(settings.clipboard, settings.clipboard_queue_capacity),
            ).insert("selection"@, JsonField::Flag(settings.selection)).insert(
                "selection_queue_capacity"@,
                capacity_field(settings.selection, settings.selection_queue_capacity),
            ).insert("file_output"@, JsonField::Flag(settings.file_output)).insert(
                "output_directory"@,
                text_or_null(
                    match output_directory {
                        Some(directory) => Some(directory@),
                        None => None,
                    },
                ),
            ).insert(
                "output_queue_capacity"@,
                capacity_field(settings.file_output, settings.output_queue_capacity),
            ).insert("tray"@, JsonField::Flag(tray)).insert(
                "log_file"@,
                text_or_null(
                    match log_file {
                        Some(path) => Some(path@),
                        None => None,
                    },
                ),
            ),
        ),
{
    let mut object = new_object();
    insert_number(&mut object, "schema_version", 1);
    insert_text(&mut object, "event", "ready");
    insert_list(&mut object, "hotkeys", binding_objects(&settings.hotkey_bindings));
    insert_object(&mut object, "capture", engine);
    insert_number(&mut object, "queue_capacity", settings.trigger_queue_capacity as u64);
    insert_flag(&mut object, "clipboard", settings.clipboard);
    insert_capacity(
        &mut object,
        "clipboard_queue_capacity",
        settings.clipboard,
        settings.clipboard_queue_capacity,
    );
    insert_flag(&mut object, "selection", settings.selection);
    insert_capacity(
        &mut object,
        "selection_queue_capacity",
        settings.selection,
        settings.selection_queue_capacity,
    );
    insert_flag(&mut object, "file_output", settings.file_output);
    insert_text_or_null(&mut object, "output_directory", output_directory);
    insert_capacity(
        &mut object,
        "output_queue_capacity",
        settings.file_output,
        settings.output_queue_capacity,
    );
    insert_flag(&mut object, "tray", tray);
    insert_text_or_null(&mut object, "log_file", log_file);
    render(object)
}

/// What the log says of a daemon that waits for its first trigger.
pub fn ready_line(settings: &ResolvedDaemonArgs) -> (text: String)
    ensures
        text@ == "Captastic is ready: hotkeys ["@ + binding_labels(settings.hotkey_bindings@)
            + "] using "@ + settings.backend@ + ", selection "@ + switch_name(settings.selection)
            + ", clipboard "@ + switch_name(settings.clipboard) + " (press Ctrl+C to stop)"@,
{
    let mut text = "Captastic is ready: hotkeys [".to_owned();
    text.append(active_hotkey_labels(&settings.hotkey_bindings).as_str());
    text.append("] using ");
    text.append(settings.backend.as_str());
    text.append(", selection ");
    text.append(switch_text(settings.selection));
    text.append(", clipboard ");
    text.append(switch_text(settings.clipboard));
    text.append(" (press Ctrl+C to stop)");
    text
}

/// The event of a frame that was captured and handed on.
pub fn capture_complete(
    trigger: &TriggerEvent,
    metadata: JsonObject,
    frame_bytes: Option<u64>,
    native_frame_retained: bool,
    output: &str,
) -> (text: String)
    ensures
        text@ == json_text(
            no_fields().insert("schema_version"@, JsonField::Number(1)).insert(
                "event"@,
                JsonField::Text("capture_complete"@),
            ).insert("source"@, JsonField::Text(trigger.source@)).insert(
                "action"@,
                JsonField::Text(trigger.action.name()),
            ).insert("chord"@, text_or_null(chord_text(trigger.chord))).insert(
                "metadata"@,
                JsonField::Object(json_fields(metadata)),
            ).insert(
                "cpu_frame_bytes"@,
                number_or_null(
                    match frame_bytes {
                        Some(bytes) => Some(bytes as int),
                        None => None,
                    },
                ),
            ).insert("native_frame_retained"@, JsonField::Flag(native_frame_retained)).insert(
                "output"@,
                JsonField::Text(output@),
            ),
        ),
{
    let mut object = new_object();
    insert_number(&mut object, "schema_version", 1);
    insert_text(&mut object, "event", "capture_complete");
    insert_text(&mut object, "source", trigger.source);
    insert_text(&mut object, "action", trigger.action.as_str());
    insert_chord(&mut object, trigger.chord);
    insert_object(&mut object, "metadata", metadata);
    insert_number_or_null(&mut object, "cpu_frame_bytes", frame_bytes);
    insert_flag(&mut object, "native_frame_retained", native_frame_retained);
    insert_text(&mut object, "output", output);
    render(object)
}

/// The figures of a published image are written under their own names.
pub proof fn law_clipboard_figures_have_their_names(figures: PublishReport)
    ensures
        figures.fields()["payload_bytes"@] == JsonField::Number(figures.payload_bytes as int),
        figures.fields()["png_payload_bytes"@] == JsonField::Number(figures.png_payload_bytes as int),
        figures.fields()["png_encode_ns"@] == JsonField::Number(figures.png_encode_ns as int),
        figures.fields()["allocation_copy_ns"@] == JsonField::Number(figures.allocation_copy_ns as int),
        figures.fields()["open_wait_ns"@] == JsonField::Number(figures.open_wait_ns as int),
        figures.fields()["open_retries"@] == JsonField::Number(figures.open_retries as int),
        figures.fields()["publish_ns"@] == JsonField::Number(figures.publish_ns as int),
{
    reveal_strlit("payload_bytes");
    reveal_strlit("png_payload_bytes");
    reveal_strlit("png_encode_ns");
    reveal_strlit("allocation_copy_ns");
    reveal_strlit("open_wait_ns");
    reveal_strlit("open_retries");
    reveal_strlit("publish_ns");
    assert("payload_bytes"@.len() == 13 && "png_payload_bytes"@.len() == 17 && "png_encode_ns"@.len() == 13 && "allocation_copy_ns"@.len() == 18 && "open_wait_ns"@.len() == 12 && "open_retries"@.len() == 12 && "publish_ns"@.len() == 10);
    assert("payload_bytes"@[1] == 'a');
    assert("png_encode_ns"@[1] == 'n');
    assert("open_wait_ns"@[5] == 'w');
    assert("open_retries"@[5] == 'r');
}

/// The figures of a read-back are written under their own names, and where there are none, nothing is.
pub proof fn law_graphics_figures_have_their_names(figures: GpuFigures)
    ensures
        figures.fields()["gpu_copy_submit_ns"@] == JsonField::Number(figures.gpu_copy_submit_ns as int),
        figures.fields()["map_wait_ns"@] == JsonField::Number(figures.map_wait_ns as int),
        figures.fields()["cpu_copy_ns"@] == JsonField::Number(figures.cpu_copy_ns as int),
        figures.fields()["total_ns"@] == JsonField::Number(figures.total_ns as int),
        figures.fields()["bytes_read"@] == JsonField::Number(figures.bytes_read as int),
        figures.fields()["full_frame_bytes"@] == JsonField::Number(figures.full_frame_bytes as int),
        figures.fields()["bytes_avoided"@] == JsonField::Number(figures.bytes_avoided as int),
        figures.fields()["contiguous_rows"@] == JsonField::Flag(figures.contiguous_rows),
        gpu_field(Some(figures)) == JsonField::Object(figures.fields()),
        gpu_field(None) == JsonField::Null,
{
    reveal_strlit("gpu_copy_submit_ns");
    reveal_strlit("map_wait_ns");
    reveal_strlit("cpu_copy_ns");
    reveal_strlit("total_ns");
    reveal_strlit("bytes_read");
    reveal_strlit("full_frame_bytes");
    reveal_strlit("bytes_avoided");
    reveal_strlit("contiguous_rows");
    assert("gpu_copy_submit_ns"@.len() == 18 && "map_wait_ns"@.len() == 11 && "cpu_copy_ns"@.len() == 11 && "total_ns"@.len() == 8 && "bytes_read"@.len() == 10 && "full_frame_bytes"@.len() == 16 && "bytes_avoided"@.len() == 13 && "contiguous_rows"@.len() == 15);
    assert("map_wait_ns"@[0] == 'm');
    assert("cpu_copy_ns"@[0] == 'c');
}

/// An engine is described by its backend, the display it was asked for and those it has; a binding by
/// its action and its keys; and a queue by its capacity, where it is in use.
pub proof fn law_what_is_in_use_is_described(
    backend: Seq<char>,
    policy: Policy,
    displays: Seq<JsonObject>,
    binding: HotkeyBinding,
    capacity: usize,
)
    ensures
        ({
            let engine = engine_fields(backend, policy, displays);
            &&& engine["backend"@] == JsonField::Text(backend)
            &&& engine["configured_display"@] == JsonField::Text(policy.text())
            &&& engine["displays"@] == JsonField::List(fields_of(displays))
        }),
        binding_fields(binding)["action"@] == JsonField::Text(binding.action.name()),
        binding_fields(binding)["chord"@] == JsonField::Text(binding.chord.text()),
        capacity_field(true, capacity) == JsonField::Number(capacity as int),
        capacity_field(false, capacity) == JsonField::Null,
        chord_text(Some(binding.chord)) == Some(binding.chord.text()),
        chord_text(None) is None,
{
    reveal_strlit("backend");
    reveal_strlit("configured_display");
    reveal_strlit("displays");
    reveal_strlit("action");
    reveal_strlit("chord");
    assert("backend"@.len() == 7 && "configured_display"@.len() == 18 && "displays"@.len() == 8 && "action"@.len() == 6 && "chord"@.len() == 5);
}

} // verus!
