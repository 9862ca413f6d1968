//! One capture from the command line: the steps it takes, with or without a selection, and where
//! the result goes.
use vstd::prelude::*;
use vstd::string::*;

use crate::capture::{CaptureError, CaptureId, CaptureMode, CursorMode, Rect};
use crate::cli::{capture_mode, CaptureArgs, ModeArg, PreviewArg};
use crate::config::AppConfig;
use crate::daemon::dispatch::{Materialization, SelectionKind};
use crate::error::{after, AppError, ConfigError};
use crate::events::{gpu_field, insert_gpu, GpuFigures, PublishReport};
use crate::json::{
    event_fields, insert_flag, insert_null, insert_number, insert_number_or_null, insert_object,
    insert_text, insert_text_or_null, json_fields, json_text, new_event, new_object, no_fields,
    number_or_null, pretty_json_text, rect_fields, rect_object, render, render_pretty,
    text_or_null, JsonField, JsonObject,
};
use crate::region::DisplayUiState;
use crate::selection::{kind_name, selection_kind};
use crate::text::same;

verus! {

/// What a one-shot capture was asked to do.
#[derive(Clone, Copy, Debug, Eq, PartialEq, Structural)]
pub struct OneShotSettings {
    pub selection: bool,
    pub preview: PreviewArg,
    pub clipboard: bool,
    pub cpu_frame: bool,
    pub mode: CaptureMode,
    pub cursor: CursorMode,
    /// Whether the capture is saved to a file.
    pub save: bool,
    /// Whether the platform has an overlay and a clipboard.
    pub native: bool,
}

/// What the command line and the configuration ask of a one-shot capture: the pointer and the file
/// are the configuration's business, the rest is the command line's.
pub fn one_shot_settings(args: &CaptureArgs, config: &AppConfig, native: bool) -> (settings:
    OneShotSettings)
    ensures
        settings == (OneShotSettings {
            selection: args.selection,
            preview: args.selection_preview,
            clipboard: args.clipboard,
            cpu_frame: args.cpu_frame,
            mode: match args.mode {
                ModeArg::Fresh => CaptureMode::Fresh { timeout_ms: 100 },
                ModeArg::Latest => CaptureMode::Latest { max_age_ms: None },
            },
            cursor: if config.capture.cursor@ == "include"@ {
                CursorMode::Include
            } else {
                CursorMode::Exclude
            },
            save: config.output.enabled,
            native,
        }),
{
    OneShotSettings {
        selection: args.selection,
        preview: args.selection_preview,
        clipboard: args.clipboard,
        cpu_frame: args.cpu_frame,
        mode: capture_mode(args.mode),
        cursor: if same(config.capture.cursor.as_str(), "include") {
            CursorMode::Include
        } else {
            CursorMode::Exclude
        },
        save: config.output.enabled,
        native,
    }
}

/// A frame that is asked for.
#[derive(Clone, Copy, Debug, Eq, PartialEq, Structural)]
pub struct OneShotRequest {
    pub mode: CaptureMode,
    pub cpu_frame: bool,
    /// Whether the graphics device keeps its copy, so that a region can be cut out there.
    pub retain_native_frame: bool,
    pub cursor: CursorMode,
}

/// What is done next.
#[derive(Clone, Copy, Debug, Eq, PartialEq, Structural)]
pub enum OneShotStep {
    /// Let the user select on the live screen.
    SelectLive,
    Capture(OneShotRequest),
    /// Let the user select on the captured frame.
    SelectFrozen,
    /// Take the frame that the overlay made of the selected window.
    TakeWindowFrame,
    /// Cut the selection out, on the graphics device first where it can.
    Materialize { ask_gpu: bool },
    /// Put the frame on the clipboard.
    Publish,
    /// Write the frame to a file.
    Save,
    /// Report the capture; it is over.
    Report,
    /// Report that the selection was cancelled; there is no capture.
    Cancelled,
}

/// What came of a selection on the live screen.
#[derive(Debug)]
pub enum LiveAnswer {
    Confirmed(SelectionKind),
    Cancelled,
    Failed(CaptureError),
}

/// How far a one-shot capture has come.
#[derive(Debug)]
pub struct OneShot {
    pub settings: OneShotSettings,
    /// Whether the selection is made before the capture.
    pub live: bool,
    pub kind: Option<SelectionKind>,
    pub has_frame: bool,
    pub has_native_frame: bool,
    /// Why the live preview could not be used.
    pub fallback_reason: Option<String>,
}

/// The error of an engine that cannot do what was asked.
pub open spec fn unavailable<T>(result: Result<T, AppError>, message: Seq<char>) -> bool {
    result matches Err(AppError::BackendUnavailable(text)) && text@ == message
}

/// The error of an engine that cannot do what was asked.
fn refuse(message: &str) -> (result: Result<OneShotStep, AppError>)
    ensures
        unavailable(result, message@),
{
    Err(AppError::BackendUnavailable(message.to_owned()))
}

impl OneShot {
    /// The frame that a capture without a live selection asks for.
    pub open spec fn first_request(settings: OneShotSettings) -> OneShotRequest {
        OneShotRequest {
            mode: settings.mode,
            cpu_frame: settings.cpu_frame,
            retain_native_frame: settings.selection,
            cursor: settings.cursor,
        }
    }

    /// The frame that a confirmed live selection asks for.
    pub open spec fn confirmation_request(settings: OneShotSettings, kind: SelectionKind) -> OneShotRequest {
        OneShotRequest {
            mode: settings.mode,
            cpu_frame: true,
            retain_native_frame: kind == SelectionKind::Region,
            cursor: settings.cursor,
        }
    }

    /// Starts a capture. One whose result has to be looked at or copied needs its pixels.
    pub fn begin(settings: OneShotSettings) -> (result: Result<(OneShot, OneShotStep), AppError>)
        ensures
            if (settings.selection || settings.clipboard) && !settings.cpu_frame {
                result matches Err(AppError::InvalidArgument(text)) && text@
                    == "selection and clipboard output require --cpu-frame true"@
            } else {
                let live = settings.native && settings.selection && settings.preview
                    != PreviewArg::Frozen;
                result == Ok::<(OneShot, OneShotStep), AppError>(
                    (
                        OneShot {
                            settings,
                            live,
                            kind: None,
                            has_frame: false,
                            has_native_frame: false,
                            fallback_reason: None,
                        },
                        if live {
                            OneShotStep::SelectLive
                        } else {
                            OneShotStep::Capture(Self::first_request(settings))
                        },
                    ),
                )
            },
    {
        if (settings.selection || settings.clipboard) && !settings.cpu_frame {
            return Err(
                AppError::InvalidArgument(
                    "selection and clipboard output require --cpu-frame true".to_owned(),
                ),
            );
        }
        let frozen = match settings.preview {
            PreviewArg::Frozen => true,
            PreviewArg::Auto | PreviewArg::Live => false,
        };
        let live = settings.native && settings.selection && !frozen;
        let step = if live {
            OneShotStep::SelectLive
        } else {
            OneShotStep::Capture(
                OneShotRequest {
                    mode: settings.mode,
                    cpu_frame: settings.cpu_frame,
                    retain_native_frame: settings.selection,
                    cursor: settings.cursor,
                },
            )
        };
        Ok(
            (
                OneShot {
                    settings,
                    live,
                    kind: None,
                    has_frame: false,
                    has_native_frame: false,
                    fallback_reason: None,
                },
                step,
            ),
        )
    }

    /// Takes what came of a selection on the live screen. A presenter that fails is replaced by a
    /// frozen preview where the choice was left open.
    pub fn on_live(&mut self, answer: LiveAnswer) -> (result: Result<OneShotStep, AppError>)
        requires
            old(self).live,
        ensures
            match answer {
                LiveAnswer::Confirmed(kind) => {
                    &&& *final(self) == (OneShot { kind: Some(kind), ..*old(self) })
                    &&& result == Ok::<OneShotStep, AppError>(
                        if kind == SelectionKind::Window {
                            OneShotStep::TakeWindowFrame
                        } else {
                            OneShotStep::Capture(
                                Self::confirmation_request(old(self).settings, kind),
                            )
                        },
                    )
                },
                LiveAnswer::Cancelled => {
                    &&& *final(self) == *old(self)
                    &&& result == Ok::<OneShotStep, AppError>(OneShotStep::Cancelled)
                },
                LiveAnswer::Failed(error) => if old(self).settings.preview == PreviewArg::Auto {
                    &&& *final(self) == (OneShot {
                        live: false,
                        settings: OneShotSettings {
                            preview: PreviewArg::Frozen,
                            ..old(self).settings
                        },
                        fallback_reason: Some(error.message),
                        ..*old(self)
                    })
                    &&& result == Ok::<OneShotStep, AppError>(
                        OneShotStep::Capture(Self::first_request(old(self).settings)),
                    )
                } else {
                    &&& *final(self) == *old(self)
                    &&& result == Err::<OneShotStep, AppError>(AppError::Capture(error))
                },
            },
    {
        match answer {
            LiveAnswer::Confirmed(kind) => {
                self.kind = Some(kind);
                match kind {
                    SelectionKind::Window => Ok(OneShotStep::TakeWindowFrame),
                    SelectionKind::Display | SelectionKind::Region => Ok(
                        OneShotStep::Capture(
                            OneShotRequest {
                                mode: self.settings.mode,
                                cpu_frame: true,
                                retain_native_frame: kind == SelectionKind::Region,
                                cursor: self.settings.cursor,
                            },
                        ),
                    ),
                }
            },
            LiveAnswer::Cancelled => Ok(OneShotStep::Cancelled),
            LiveAnswer::Failed(error) => match self.settings.preview {
                PreviewArg::Auto => {
                    self.live = false;
                    self.settings.preview = PreviewArg::Frozen;
                    self.fallback_reason = Some(error.message);
                    Ok(
                        OneShotStep::Capture(
                            OneShotRequest {
                                mode: self.settings.mode,
                                cpu_frame: self.settings.cpu_frame,
                                retain_native_frame: self.settings.selection,
                                cursor: self.settings.cursor,
                            },
                        ),
                    )
                },
                PreviewArg::Live | PreviewArg::Frozen => Err(AppError::Capture(error)),
            },
        }
    }

    /// Takes the frame of a window that was selected on the live screen, which the overlay has to
    /// have kept.
    pub fn on_window_frame(&mut self, kept: bool) -> (result: Result<OneShotStep, AppError>)
        ensures
            *final(self) == (OneShot { has_frame: kept, has_native_frame: false, ..*old(self) }),
            if kept {
                result == Ok::<OneShotStep, AppError>(OneShotStep::Materialize { ask_gpu: false })
            } else {
                unavailable(result, "confirmed window selection did not retain its native frame"@)
            },
    {
        self.has_frame = kept;
        self.has_native_frame = false;
        if kept {
            Ok(OneShotStep::Materialize { ask_gpu: false })
        } else {
            refuse("confirmed window selection did not retain its native frame")
        }
    }

    /// Takes what a capture gave.
    pub fn on_captured(&mut self, has_frame: bool, has_native_frame: bool) -> (result: Result<
        OneShotStep,
        AppError,
    >)
        ensures
            *final(self) == (OneShot { has_frame, has_native_frame, ..*old(self) }),
            if old(self).live {
                if has_frame {
                    result == Ok::<OneShotStep, AppError>(
                        OneShotStep::Materialize {
                            ask_gpu: old(self).kind == Some(SelectionKind::Region)
                                && has_native_frame,
                        },
                    )
                } else {
                    unavailable(result, "confirmation capture returned no CPU frame"@)
                }
            } else if old(self).settings.selection {
                if !old(self).settings.native {
                    unavailable(result, "native selection is currently available only on Windows"@)
                } else if !has_frame {
                    unavailable(result, "selection was requested but no CPU frame was returned"@)
                } else {
                    result == Ok::<OneShotStep, AppError>(OneShotStep::SelectFrozen)
                }
            } else {
                final(self).delivers(result)
            },
    {
        self.has_frame = has_frame;
        self.has_native_frame = has_native_frame;
        if self.live {
            if has_frame {
                let region = match self.kind {
                    Some(SelectionKind::Region) => true,
                    _ => false,
                };
                Ok(OneShotStep::Materialize { ask_gpu: region && has_native_frame })
            } else {
                refuse("confirmation capture returned no CPU frame")
            }
        } else if self.settings.selection {
            if !self.settings.native {
                refuse("native selection is currently available only on Windows")
            } else if !has_frame {
                refuse("selection was requested but no CPU frame was returned")
            } else {
                Ok(OneShotStep::SelectFrozen)
            }
        } else {
            self.deliver()
        }
    }

    /// Takes what came of a selection on the captured frame; `None` where it was cancelled.
    pub fn on_frozen(&mut self, kind: Option<SelectionKind>) -> (step: OneShotStep)
        ensures
            *final(self) == (OneShot {
                kind: if kind is Some {
                    kind
                } else {
                    old(self).kind
                },
                ..*old(self)
            }),
            step == match kind {
                Some(kind) => OneShotStep::Materialize {
                    ask_gpu: kind == SelectionKind::Region && old(self).has_native_frame,
                },
                None => OneShotStep::Cancelled,
            },
    {
        match kind {
            Some(kind) => {
                self.kind = Some(kind);
                OneShotStep::Materialize {
                    ask_gpu: kind == SelectionKind::Region && self.has_native_frame,
                }
            },
            None => OneShotStep::Cancelled,
        }
    }

    /// Takes the selection that was cut out.
    pub fn on_materialized(&mut self) -> (result: Result<OneShotStep, AppError>)
        ensures
            *final(self) == (OneShot { has_frame: true, ..*old(self) }),
            final(self).delivers(result),
    {
        self.has_frame = true;
        self.deliver()
    }

    /// What follows the clipboard.
    pub open spec fn after_publish(self) -> OneShotStep {
        if self.settings.save && self.has_frame {
            OneShotStep::Save
        } else {
            OneShotStep::Report
        }
    }

    /// Whether a result is where the frame goes first.
    pub open spec fn delivers(self, result: Result<OneShotStep, AppError>) -> bool {
        if self.settings.clipboard {
            if !self.settings.native {
                unavailable(
                    result,
                    "native clipboard output is currently available only on Windows"@,
                )
            } else if !self.has_frame {
                unavailable(
                    result,
                    "clipboard output was requested but no CPU frame was returned"@,
                )
            } else {
                result == Ok::<OneShotStep, AppError>(OneShotStep::Publish)
            }
        } else {
            result == Ok::<OneShotStep, AppError>(self.after_publish())
        }
    }

    /// Where the frame goes first.
    fn deliver(&self) -> (result: Result<OneShotStep, AppError>)
        ensures
            self.delivers(result),
    {
        if self.settings.clipboard {
            if !self.settings.native {
                return refuse("native clipboard output is currently available only on Windows");
            }
            if !self.has_frame {
                return refuse("clipboard output was requested but no CPU frame was returned");
            }
            return Ok(OneShotStep::Publish);
        }
        Ok(self.on_published())
    }

    /// What follows the clipboard.
    pub fn on_published(&self) -> (step: OneShotStep)
        ensures
            step == self.after_publish(),
    {
        if self.settings.save && self.has_frame {
            OneShotStep::Save
        } else {
            OneShotStep::Report
        }
    }

    /// The preview that was asked for, as it is reported. A fallback was asked for as the automatic
    /// choice.
    pub open spec fn requested_preview_name(self) -> Seq<char> {
        if self.fallback_reason is Some {
            "auto"@
        } else {
            match self.settings.preview {
                PreviewArg::Auto => "auto"@,
                PreviewArg::Live => "live"@,
                PreviewArg::Frozen => "frozen"@,
            }
        }
    }

    /// The preview that was asked for, as it is reported.
    pub fn requested_preview_mode(&self) -> (name: &'static str)
        ensures
            name@ == self.requested_preview_name(),
    {
        if self.fallback_reason.is_some() {
            return "auto";
        }
        match self.settings.preview {
            PreviewArg::Auto => "auto",
            PreviewArg::Live => "live",
            PreviewArg::Frozen => "frozen",
        }
    }

    /// The preview that was used.
    pub open spec fn preview_name(self) -> Seq<char> {
        if self.live {
            "live"@
        } else {
            "frozen"@
        }
    }

    /// The preview that was used.
    pub fn preview_mode(&self) -> (name: &'static str)
        ensures
            name@ == self.preview_name(),
    {
        if self.live {
            "live"
        } else {
            "frozen"
        }
    }

    /// The moment that the capture shows.
    pub open spec fn anchor_name(self) -> Seq<char> {
        if self.live {
            "confirmation"@
        } else if self.fallback_reason is Some {
            "fallback"@
        } else {
            "trigger"@
        }
    }

    /// The moment that the capture shows.
    pub fn capture_anchor(&self) -> (name: &'static str)
        ensures
            name@ == self.anchor_name(),
    {
        if self.live {
            "confirmation"
        } else if self.fallback_reason.is_some() {
            "fallback"
        } else {
            "trigger"
        }
    }
}

/// What a selection came to.
#[derive(Clone, Copy, Debug, Eq, PartialEq, Structural)]
pub struct SelectionReport {
    pub kind: SelectionKind,
    pub rect: Rect,
    pub selection_ns: u64,
    pub overlay_preparation_ns: u64,
    pub window_overview_ns: u64,
    pub window_preview_count: u64,
    pub window_live_preview_count: u64,
    pub window_frozen_preview_count: u64,
    pub window_preview_bytes: u64,
    pub materialization_ns: u64,
    pub gpu: Option<GpuFigures>,
}

impl OneShot {
    /// The fields of the preview. Only a frozen one can have taken the place of another.
    pub open spec fn preview_fields(self, fields: Map<Seq<char>, JsonField>) -> Map<
        Seq<char>,
        JsonField,
    > {
        let fields = fields.insert(
            "requested_preview_mode"@,
            JsonField::Text(self.requested_preview_name()),
        ).insert("preview_mode"@, JsonField::Text(self.preview_name()));
        if self.live {
            fields
        } else {
            fields.insert(
                "preview_fallback_reason"@,
                text_or_null(
                    match self.fallback_reason {
                        Some(reason) => Some(reason@),
                        None => None,
                    },
                ),
            )
        }
    }

    /// The fields of a selection.
    pub open spec fn selection_fields(
        self,
        report: SelectionReport,
        materialization: Materialization,
    ) -> Map<Seq<char>, JsonField> {
        self.preview_fields(
            no_fields().insert("kind"@, JsonField::Text(kind_name(report.kind))).insert(
                "rect"@,
                JsonField::Object(rect_fields(report.rect)),
            ).insert("selection_ns"@, JsonField::Number(report.selection_ns as int)),
        ).insert("capture_anchor"@, JsonField::Text(self.anchor_name())).insert(
            "overlay_preparation_ns"@,
            JsonField::Number(report.overlay_preparation_ns as int),
        ).insert("window_overview_ns"@, JsonField::Number(report.window_overview_ns as int)).insert(
            "window_preview_count"@,
            JsonField::Number(report.window_preview_count as int),
        ).insert(
            "window_live_preview_count"@,
            JsonField::Number(report.window_live_preview_count as int),
        ).insert(
            "window_frozen_preview_count"@,
            JsonField::Number(report.window_frozen_preview_count as int),
        ).insert(
            "window_preview_bytes"@,
            JsonField::Number(report.window_preview_bytes as int),
        ).insert("materialization"@, JsonField::Text(materialization.label@)).insert(
            "materialization_ns"@,
            JsonField::Number(report.materialization_ns as int),
        ).insert("gpu_materialization"@, gpu_field(report.gpu)).insert(
            "gpu_fallback_error"@,
            text_or_null(
                match materialization.gpu_fallback_error {
                    Some(error) => Some(error@),
                    None => None,
                },
            ),
        )
    }

    /// A selection as an object.
    fn selection_object(&self, report: &SelectionReport, materialization: &Materialization) -> (object:
        JsonObject)
        ensures
            json_fields(object) == self.selection_fields(*report, *materialization),
    {
        let mut object = new_object();
        insert_text(&mut object, "kind", selection_kind(report.kind));
        insert_object(&mut object, "rect", rect_object(report.rect));
        insert_number(&mut object, "selection_ns", report.selection_ns);
        insert_text(&mut object, "requested_preview_mode", self.requested_preview_mode());
        insert_text(&mut object, "preview_mode", self.preview_mode());
        if !self.live {
            insert_text_or_null(
                &mut object,
                "preview_fallback_reason",
                match &self.fallback_reason {
                    Some(reason) => Some(reason.as_str()),
                    None => None,
                },
            );
        }
        insert_text(&mut object, "capture_anchor", self.capture_anchor());
        insert_number(&mut object, "overlay_preparation_ns", report.overlay_preparation_ns);
        insert_number(&mut object, "window_overview_ns", report.window_overview_ns);
        insert_number(&mut object, "window_preview_count", report.window_preview_count);
        insert_number(&mut object, "window_live_preview_count", report.window_live_preview_count);
        insert_number(
            &mut object,
            "window_frozen_preview_count",
            report.window_frozen_preview_count,
        );
        insert_number(&mut object, "window_preview_bytes", report.window_preview_bytes);
        insert_text(&mut object, "materialization", materialization.label);
        insert_number(&mut object, "materialization_ns", report.materialization_ns);
        insert_gpu(&mut object, &report.gpu);
        insert_text_or_null(
            &mut object,
            "gpu_fallback_error",
            match &materialization.gpu_fallback_error {
                Some(error) => Some(error.as_str()),
                None => None,
            },
        );
        object
    }

    /// The fields of a finished capture.
    pub open spec fn report_fields(
        self,
        backend: Seq<char>,
        metadata: Map<Seq<char>, JsonField>,
        frame_bytes: Option<u64>,
        selection: Option<(SelectionReport, Materialization)>,
        published: Option<PublishReport>,
    ) -> Map<Seq<char>, JsonField> {
        no_fields().insert("schema_version"@, JsonField::Number(1)).insert(
            "synthetic"@,
            JsonField::Flag(backend == "fake"@),
        ).insert("metadata"@, JsonField::Object(metadata)).insert(
            "cpu_frame_bytes"@,
            number_or_null(
                match frame_bytes {
                    Some(bytes) => Some(bytes as int),
                    None => None,
                },
            ),
        ).insert("native_frame_retained"@, JsonField::Flag(self.has_native_frame)).insert(
            "selection"@,
            match selection {
                Some((report, materialization)) => JsonField::Object(
                    self.selection_fields(report, materialization),
                ),
                None => JsonField::Null,
            },
        ).insert(
            "clipboard"@,
            match published {
                Some(report) => JsonField::Object(report.fields()),
                None => JsonField::Null,
            },
        )
    }

    /// The report of a finished capture: on several lines for standard output, on one for the log.
    pub fn report(
        &self,
        backend: &str,
        metadata: JsonObject,
        frame_bytes: Option<u64>,
        selection: &Option<(SelectionReport, Materialization)>,
        published: &Option<PublishReport>,
        several_lines: bool,
    ) -> (text: String)
        ensures
            ({
                let fields = self.report_fields(
                    backend@,
                    json_fields(metadata),
                    frame_bytes,
                    *selection,
                    *published,
                );
                text@ == if several_lines {
                    pretty_json_text(fields)
                } else {
                    json_text(fields)
                }
            }),
    {
        let mut object = new_object();
        insert_number(&mut object, "schema_version", 1);
        insert_flag(&mut object, "synthetic", same(backend, "fake"));
        insert_object(&mut object, "metadata", metadata);
        insert_number_or_null(&mut object, "cpu_frame_bytes", frame_bytes);
        insert_flag(&mut object, "native_frame_retained", self.has_native_frame);
        match selection {
            Some((report, materialization)) => insert_object(
                &mut object,
                "selection",
                self.selection_object(report, materialization),
            ),
            None => insert_null(&mut object, "selection"),
        }
        match published {
            Some(report) => insert_object(&mut object, "clipboard", report.to_object()),
            None => insert_null(&mut object, "clipboard"),
        }
        if several_lines {
            render_pretty(object)
        } else {
            render(object)
        }
    }
}

/// A frame is copied or saved only where there is one, and it is copied only where that was asked
/// for.
pub proof fn law_only_frames_are_delivered(state: OneShot, result: Result<OneShotStep, AppError>)
    requires
        state.delivers(result),
    ensures
        result == Ok::<OneShotStep, AppError>(OneShotStep::Publish) ==> state.has_frame
            && state.settings.clipboard,
        result == Ok::<OneShotStep, AppError>(OneShotStep::Save) ==> state.has_frame
            && state.settings.save,
{
}

/// The JSON event of a selection that was cancelled, on several lines.
pub fn cancelled_event(capture_id: CaptureId) -> (text: String)
    ensures
        text@ == pretty_json_text(
            event_fields("selection_cancelled"@, capture_id),
        ),
{
    render_pretty(new_event("selection_cancelled", capture_id))
}

/// What is said of selection preferences that were not saved. The capture stands all the same.
pub fn one_shot_ui_state_warning(error: &AppError) -> (text: String)
    ensures
        text@ == "Captastic could not save selection preferences. "@ + error.text(),
{
    after("Captastic could not save selection preferences. ", error.message().as_str())
}

/// The remembered state that a selection starts from, and what is said where it could not be read:
/// it costs the user their remembered layout and nothing else.
pub fn load_optional_one_shot_ui_state(loaded: Result<DisplayUiState, ConfigError>) -> (state: (
    DisplayUiState,
    Option<String>,
))
    ensures
        match loaded {
            Ok(read) => state.0 == read && state.1 is None,
            Err(error) => state.0 == DisplayUiState::blank() && (state.1 matches Some(text) && text@
                == "could not load remembered selection preferences; continuing with defaults: "@
                + error.text()),
        },
{
    match loaded {
        Ok(read) => (read, None),
        Err(error) => (
            DisplayUiState::default(),
            Some(
                after(
                    "could not load remembered selection preferences; continuing with defaults: ",
                    error.message().as_str(),
                ),
            ),
        ),
    }
}

/// A frame is asked for as the settings say: in their mode, with or without the pointer. Before a
/// selection it is kept where there will be one; for a confirmed selection its pixels are asked for
/// and it is kept where a region will be cut from it.
pub proof fn law_frames_are_asked_for_as_set(settings: OneShotSettings, kind: SelectionKind)
    ensures
        ({
            let first = OneShot::first_request(settings);
            let confirmed = OneShot::confirmation_request(settings, kind);
            &&& first.mode == settings.mode && confirmed.mode == settings.mode
            &&& first.cursor == settings.cursor && confirmed.cursor == settings.cursor
            &&& first.cpu_frame == settings.cpu_frame && confirmed.cpu_frame
            &&& first.retain_native_frame == settings.selection
            &&& confirmed.retain_native_frame <==> kind is Region
        }),
{
}

/// A captured frame goes to the clipboard first where it was asked for, and to a file afterwards where
/// that was; a capture without either is only reported. One for the clipboard that has no pixels, or no
/// clipboard to go to, is refused.
pub proof fn law_a_frame_goes_where_it_was_asked_to(
    state: OneShot,
    result: Result<OneShotStep, AppError>,
)
    requires
        state.delivers(result),
    ensures
        result is Ok <==> !state.settings.clipboard || state.settings.native && state.has_frame,
        result == Ok::<OneShotStep, AppError>(OneShotStep::Publish) ==> state.settings.clipboard,
        state.settings.clipboard && result is Ok ==> result == Ok::<OneShotStep, AppError>(
            OneShotStep::Publish,
        ),
        !state.settings.clipboard && state.settings.save && state.has_frame ==> result == Ok::<
            OneShotStep,
            AppError,
        >(OneShotStep::Save),
        !state.settings.clipboard && !(state.settings.save && state.has_frame) ==> result == Ok::<
            OneShotStep,
            AppError,
        >(OneShotStep::Report),
        state.after_publish() == OneShotStep::Save <==> state.settings.save && state.has_frame,
        state.after_publish() == OneShotStep::Report <==> !(state.settings.save && state.has_frame),
{
}

/// A capture is reported with the preview that was used, the one that was asked for, and the moment
/// that it shows.
pub proof fn law_the_preview_is_reported_as_it_was(state: OneShot)
    ensures
        state.preview_name() == "live"@ <==> state.live,
        state.preview_name() == "frozen"@ <==> !state.live,
        state.anchor_name() == "confirmation"@ <==> state.live,
        state.anchor_name() == "fallback"@ <==> !state.live && state.fallback_reason is Some,
        state.anchor_name() == "trigger"@ <==> !state.live && state.fallback_reason is None,
        state.requested_preview_name() == "auto"@ <==> state.fallback_reason is Some
            || state.settings.preview == PreviewArg::Auto,
        state.requested_preview_name() == "live"@ <==> state.fallback_reason is None
            && state.settings.preview == PreviewArg::Live,
        state.requested_preview_name() == "frozen"@ <==> state.fallback_reason is None
            && state.settings.preview == PreviewArg::Frozen,
{
    reveal_strlit("live");
    reveal_strlit("frozen");
    reveal_strlit("auto");
    reveal_strlit("confirmation");
    reveal_strlit("fallback");
    reveal_strlit("trigger");
    assert("live"@.len() == 4 && "auto"@.len() == 4 && "frozen"@.len() == 6);
    assert("live"@[0] == 'l' && "auto"@[0] == 'a');
    assert("confirmation"@.len() == 12 && "fallback"@.len() == 8 && "trigger"@.len() == 7);
}

/// A preview is reported under its own names, and why it took the place of another only where it could
/// have.
pub proof fn law_previews_are_reported_under_their_names(
    state: OneShot,
    fields: Map<Seq<char>, JsonField>,
    other: Seq<char>,
)
    requires
        other != "requested_preview_mode"@,
        other != "preview_mode"@,
        other != "preview_fallback_reason"@,
    ensures
        ({
            let shown = state.preview_fields(fields);
            &&& shown["requested_preview_mode"@] == JsonField::Text(state.requested_preview_name())
            &&& shown["preview_mode"@] == JsonField::Text(state.preview_name())
            &&& !state.live ==> shown["preview_fallback_reason"@] == match state.fallback_reason {
                Some(reason) => JsonField::Text(reason@),
                None => JsonField::Null,
            }
            &&& state.live ==> (shown.dom().contains("preview_fallback_reason"@)
                <==> fields.dom().contains("preview_fallback_reason"@))
            &&& shown.dom().contains(other) == fields.dom().contains(other)
            &&& shown[other] == fields[other]
        }),
{
    reveal_strlit("requested_preview_mode");
    reveal_strlit("preview_mode");
    reveal_strlit("preview_fallback_reason");
    assert("requested_preview_mode"@.len() == 22 && "preview_mode"@.len() == 12 && "preview_fallback_reason"@.len() == 23);
}

/// A selection is reported with every figure under its own name.
pub proof fn law_selections_are_reported_under_their_names(
    state: OneShot,
    report: SelectionReport,
    materialization: Materialization,
)
    ensures
        ({
            let shown = state.selection_fields(report, materialization);
            &&& shown["kind"@] == JsonField::Text(kind_name(report.kind))
            &&& shown["rect"@] == JsonField::Object(rect_fields(report.rect))
            &&& shown["selection_ns"@] == JsonField::Number(report.selection_ns as int)
            &&& shown["capture_anchor"@] == JsonField::Text(state.anchor_name())
            &&& shown["overlay_preparation_ns"@] == JsonField::Number(report.overlay_preparation_ns as int)
            &&& shown["window_overview_ns"@] == JsonField::Number(report.window_overview_ns as int)
            &&& shown["window_preview_count"@] == JsonField::Number(report.window_preview_count as int)
            &&& shown["window_live_preview_count"@] == JsonField::Number(report.window_live_preview_count as int)
            &&& shown["window_frozen_preview_count"@] == JsonField::Number(report.window_frozen_preview_count as int)
            &&& shown["window_preview_bytes"@] == JsonField::Number(report.window_preview_bytes as int)
            &&& shown["materialization"@] == JsonField::Text(materialization.label@)
            &&& shown["materialization_ns"@] == JsonField::Number(report.materialization_ns as int)
            &&& shown["gpu_materialization"@] == gpu_field(report.gpu)
            &&& shown["preview_mode"@] == JsonField::Text(state.preview_name())
            &&& shown["requested_preview_mode"@] == JsonField::Text(state.requested_preview_name())
            &&& shown["gpu_fallback_error"@] == match materialization.gpu_fallback_error {
                Some(error) => JsonField::Text(error@),
                None => JsonField::Null,
            }
        }),
{
    reveal_strlit("kind");
    reveal_strlit("rect");
    reveal_strlit("selection_ns");
    reveal_strlit("capture_anchor");
    reveal_strlit("overlay_preparation_ns");
    reveal_strlit("window_overview_ns");
    reveal_strlit("window_preview_count");
    reveal_strlit("window_live_preview_count");
    reveal_strlit("window_frozen_preview_count");
    reveal_strlit("window_preview_bytes");
    reveal_strlit("materialization");
    reveal_strlit("materialization_ns");
    reveal_strlit("gpu_materialization");
    reveal_strlit("preview_mode");
    reveal_strlit("requested_preview_mode");
    reveal_strlit("gpu_fallback_error");
    reveal_strlit("preview_fallback_reason");
    assert("kind"@.len() == 4 && "rect"@.len() == 4 && "selection_ns"@.len() == 12 && "capture_anchor"@.len() == 14 && "overlay_preparation_ns"@.len() == 22 && "window_overview_ns"@.len() == 18 && "window_preview_count"@.len() == 20 && "window_live_preview_count"@.len() == 25 && "window_frozen_preview_count"@.len() == 27 && "window_preview_bytes"@.len() == 20 && "materialization"@.len() == 15 && "materialization_ns"@.len() == 18 && "gpu_materialization"@.len() == 19 && "preview_mode"@.len() == 12 && "requested_preview_mode"@.len() == 22 && "gpu_fallback_error"@.len() == 18 && "preview_fallback_reason"@.len() == 23);
    assert("kind"@[0] == 'k');
    assert("rect"@[0] == 'r');
    assert("selection_ns"@[0] == 's');
    assert("preview_mode"@[0] == 'p');
    assert("overlay_preparation_ns"@[0] == 'o');
    assert("requested_preview_mode"@[0] == 'r');
    assert("window_overview_ns"@[0] == 'w');
    assert("materialization_ns"@[0] == 'm');
    assert("gpu_fallback_error"@[0] == 'g');
    assert("window_preview_count"@[15] == 'c');
    assert("window_preview_bytes"@[15] == 'b');
}

/// What an engine cannot do is reported as a backend that is not available, with the reason.
pub proof fn law_what_cannot_be_done_is_reported<T>(result: Result<T, AppError>, message: Seq<char>)
    requires
        unavailable(result, message),
    ensures
        result matches Err(error) && error.text() == "backend unavailable: "@ + message,
{
}

/// A finished capture is reported with every part under its own name, and a part that it does not have
/// as nothing.
pub proof fn law_captures_are_reported_under_their_names(
    state: OneShot,
    backend: Seq<char>,
    metadata: Map<Seq<char>, JsonField>,
    frame_bytes: Option<u64>,
    selection: Option<(SelectionReport, Materialization)>,
    published: Option<PublishReport>,
)
    ensures
        ({
            let shown = state.report_fields(backend, metadata, frame_bytes, selection, published);
            &&& shown["schema_version"@] == JsonField::Number(1)
            &&& shown["synthetic"@] == JsonField::Flag(backend == "fake"@)
            &&& shown["metadata"@] == JsonField::Object(metadata)
            &&& shown["cpu_frame_bytes"@] == match frame_bytes {
                Some(bytes) => JsonField::Number(bytes as int),
                None => JsonField::Null,
            }
            &&& shown["native_frame_retained"@] == JsonField::Flag(state.has_native_frame)
            &&& shown["selection"@] == match selection {
                Some((report, materialization)) => JsonField::Object(
                    state.selection_fields(report, materialization),
                ),
                None => JsonField::Null,
            }
            &&& shown["clipboard"@] == match published {
                Some(report) => JsonField::Object(report.fields()),
                None => JsonField::Null,
            }
        }),
{
    reveal_strlit("schema_version");
    reveal_strlit("synthetic");
    reveal_strlit("metadata");
    reveal_strlit("cpu_frame_bytes");
    reveal_strlit("native_frame_retained");
    reveal_strlit("selection");
    reveal_strlit("clipboard");
    assert("schema_version"@.len() == 14 && "synthetic"@.len() == 9 && "metadata"@.len() == 8 && "cpu_frame_bytes"@.len() == 15 && "native_frame_retained"@.len() == 21 && "selection"@.len() == 9 && "clipboard"@.len() == 9);
    assert("synthetic"@[0] == 's' && "synthetic"@[1] == 'y');
    assert("selection"@[0] == 's' && "selection"@[1] == 'e');
    assert("clipboard"@[0] == 'c' && "clipboard"@[1] == 'l');
}

} // verus!
