use captastic::capture::{
    CaptureId, CaptureMode, CpuFrame, DisplayId, FrameMetadata, Rect, TimingProvenance,
};
use captastic::clipboard::{
    publish_times, ClipboardFailure, PublishRetry, PublishStep, PUBLISH_RETRY_DELAY_MS,
    PUBLISH_RETRY_LIMIT,
};
use captastic::daemon::dispatch::{
    deliver, materialize, submission, GpuAnswer, SelectionKind, Submission,
};
use captastic::error::AppError;
use captastic::events::{
    clipboard_complete, clipboard_failed, clipboard_skipped, repeat_region_fallback,
    repeat_region_materialized, selection_complete, selection_finished, GpuFigures, PublishReport,
    SelectionFigures,
};
use captastic::file_output::{
    capture_stem, check_template, directory_error, encode_failure, failed_event, one_shot_stem,
    written_event, HistoryRecorder, NameSearch, NameStep, WriteReport, MAX_COLLISION_ATTEMPTS,
};
use captastic::fsio::{
    after_failed_move, atomic_write, create_temporary_file, finalize_new,
    maintain_config_artifacts_at, quarantine_config, quarantine_path, replace_file,
    replacement_attributes, settable_attributes, temporary_path, usable_parent, wide_path,
    AfterStep, Artifact, Claim, FileOutcome, MoveStep, WriteStep, CORRUPT_ARTIFACT_RETENTION,
    MOVE_RETRY_TIMEOUT, NAME_ATTEMPTS, TEMP_ARTIFACT_MAX_AGE,
};
use captastic::history::{HistoryStore, RetentionPolicy};
use captastic::hotkey::{HotkeyAction, HotkeyChord};
use captastic::output::{
    before_receive, on_received, ChannelSink, OutputJob, OutputRejection, OutputSink, QueueStep,
    Received,
};
use captastic::output_metrics::{
    LatencySummary, OutputMetrics, OutputSummary, ShownFigures, SAMPLE_CAPACITY,
};
use captastic::path::{FilePath, PathPart};
use std::sync::mpsc;

fn job() -> OutputJob {
    let metadata = FrameMetadata {
        capture_id: CaptureId(1),
        backend: "test".to_owned(),
        display_id: DisplayId::primary(),
        source_rect: Rect {
            x: 0,
            y: 0,
            width: 2,
            height: 2,
        },
        rotation_degrees: 0,
        capture_mode: CaptureMode::Latest { max_age_ms: None },
        presentation_offset_ns: None,
        timing_provenance: TimingProvenance::Synthetic,
        native_ready_offset_ns: 0,
        cpu_ready_offset_ns: Some(0),
        frame_age_ns: Some(0),
        frame_generation: Some(1),
        copy_count: 0,
        pool_slot: None,
    };
    OutputJob {
        capture_id: CaptureId(1),
        triggered_at: 0,
        action: HotkeyAction::LastWorkflow,
        chord: None,
        cpu_ready_offset_ns: 0,
        source: "test",
        frame: CpuFrame {
            pixels: vec![0_u8; 16],
            width: 2,
            height: 2,
            stride: 8,
            metadata,
        },
        window_title: None,
        window_application: None,
    }
}

#[test]
fn a_full_sink_hands_the_job_back_rather_than_dropping_it() {
    let (sender, _receiver) = mpsc::sync_channel(1);
    let sink = ChannelSink::new("test", sender);

    sink.submit(job()).expect("the first job fits");
    let rejection = sink.submit(job()).expect_err("the second does not");

    assert_eq!(rejection.status(), "queue_full");
    assert_eq!(rejection.into_job().capture_id, CaptureId(1));
}

#[test]
fn a_stopped_sink_reports_disconnection_distinctly() {
    let (sender, receiver) = mpsc::sync_channel(1);
    drop(receiver);
    let sink = ChannelSink::new("test", sender);

    let rejection = sink.submit(job()).expect_err("nobody is listening");

    assert_eq!(rejection.status(), "worker_disconnected");
}

#[test]
fn a_sink_that_accepts_reports_nothing() {
    let (sender, receiver) = mpsc::sync_channel(1);
    let sink = ChannelSink::new("clipboard", sender);

    assert!(sink.submit(job()).is_ok());
    assert_eq!(sink.name(), "clipboard");
    assert!(receiver.try_recv().is_ok());
}

#[test]
fn producers_can_hold_sinks_without_knowing_the_destination() {
    let (clipboard_sender, clipboard) = mpsc::sync_channel(1);
    let (file_sender, file) = mpsc::sync_channel(1);
    let sinks: Vec<Box<dyn OutputSink>> = vec![
        Box::new(ChannelSink::new("clipboard", clipboard_sender)),
        Box::new(ChannelSink::new("file", file_sender)),
    ];

    for sink in &sinks {
        assert!(sink.submit(job()).is_ok(), "{} rejected", sink.name());
    }
    assert!(clipboard.try_recv().is_ok());
    assert!(file.try_recv().is_ok());
}

#[test]
fn a_job_carries_window_identity_for_naming() {
    let (sender, receiver) = mpsc::sync_channel(1);
    let sink = ChannelSink::new("file", sender);

    let mut job = job();
    job.window_title = Some("Some Document - Editor".to_owned());
    job.window_application = Some("editor".to_owned());
    sink.submit(job).expect("accepted");

    let delivered = receiver.try_recv().expect("delivered");
    assert_eq!(
        delivered.window_title.as_deref(),
        Some("Some Document - Editor")
    );
    assert_eq!(delivered.window_application.as_deref(), Some("editor"));
}

#[test]
fn one_full_destination_does_not_affect_another() {
    let (clipboard_sender, clipboard) = mpsc::sync_channel(1);
    let (file_sender, _file) = mpsc::sync_channel(1);
    let clipboard_sink = ChannelSink::new("clipboard", clipboard_sender);
    let file_sink = ChannelSink::new("file", file_sender);

    file_sink.submit(job()).expect("first file job fits");
    assert!(file_sink.submit(job()).is_err());

    assert!(clipboard_sink.submit(job()).is_ok());
    assert!(clipboard.try_recv().is_ok());
}

#[test]
fn a_capture_is_offered_to_every_destination() {
    let (full_sender, _full) = mpsc::sync_channel(1);
    let (file_sender, file) = mpsc::sync_channel(1);
    let (gone_sender, gone) = mpsc::sync_channel(1);
    drop(gone);
    let sinks = vec![
        ChannelSink::new("clipboard", full_sender),
        ChannelSink::new("file", file_sender),
        ChannelSink::new("gone", gone_sender),
    ];
    sinks[0].submit(job()).expect("the first job fits");
    let mut offered = job();
    offered.window_title = Some("Editor".to_owned());
    let (answers, status) = deliver(&sinks, &offered);
    assert_eq!(
        answers,
        vec![
            Submission::Full {
                metrics_error: None
            },
            Submission::Accepted,
            Submission::Disconnected {
                metrics_error: None
            },
        ]
    );
    assert_eq!(status, "queued");
    let delivered = file.try_recv().expect("delivered");
    assert_eq!(delivered.window_title.as_deref(), Some("Editor"));
    assert_eq!(delivered.frame, offered.frame);
    assert_eq!(deliver(&Vec::new(), &offered).1, "disabled");
    drop(file);
    assert_eq!(deliver(&sinks, &offered).1, "worker_disconnected");
}

#[test]
fn a_worker_stops_when_it_is_asked_to_or_nobody_can_send() {
    assert_eq!(before_receive(false), QueueStep::Receive);
    assert_eq!(before_receive(true), QueueStep::Stop);
    assert_eq!(on_received(Received::Job, false), QueueStep::Deliver);
    assert_eq!(on_received(Received::Job, true), QueueStep::Deliver);
    assert_eq!(on_received(Received::Nothing, false), QueueStep::Receive);
    assert_eq!(on_received(Received::Nothing, true), QueueStep::Stop);
    assert_eq!(on_received(Received::Closed, false), QueueStep::Stop);
}

fn summarize(samples: &[u64]) -> LatencySummary {
    let mut sorted = samples.to_vec();
    sorted.sort();
    let count = sorted.len();
    let at = |percent: usize| {
        if count == 0 {
            0
        } else {
            sorted[(count * percent).div_ceil(100).max(1) - 1]
        }
    };
    LatencySummary {
        count,
        min_ns: at(0),
        p50_ns: at(50),
        p90_ns: at(90),
        p95_ns: at(95),
        p99_ns: at(99),
        max_ns: at(100),
        mean_ns: if count == 0 {
            0
        } else {
            sorted.iter().sum::<u64>() / count as u64
        },
    }
}

fn summary_of(metrics: &OutputMetrics) -> OutputSummary {
    metrics.summary(summarize(&metrics.encode_ns), summarize(&metrics.write_ns))
}

#[test]
fn counts_are_exact_and_percentiles_describe_the_samples() {
    let mut metrics = OutputMetrics::new("file");
    for index in 1..=10_u64 {
        metrics.record_write(1_000, index * 1_000_000, index * 2_000_000, 0);
    }
    metrics.record_failure();

    let summary = summary_of(&metrics);
    assert_eq!(summary.written, 10);
    assert_eq!(summary.failed, 1);
    assert_eq!(summary.bytes, 10_000);
    assert_eq!(summary.encode.count, 10);
    assert_eq!(summary.encode.min_ns, 1_000_000);
    assert_eq!(summary.encode.max_ns, 10_000_000);
    assert_eq!(summary.write.max_ns, 20_000_000);
}

#[test]
fn collisions_accumulate_across_captures() {
    let mut metrics = OutputMetrics::new("file");
    metrics.record_write(10, 1, 1, 0);
    metrics.record_write(10, 1, 1, 3);
    metrics.record_write(10, 1, 1, 1);

    assert_eq!(summary_of(&metrics).collisions, 4);
}

#[test]
fn counts_stay_exact_after_the_sample_buffer_is_full() {
    let mut metrics = OutputMetrics::new("file");
    for index in 0..(SAMPLE_CAPACITY as u64 + 500) {
        metrics.record_write(1, index, index, 0);
    }

    let summary = summary_of(&metrics);
    assert_eq!(summary.written, SAMPLE_CAPACITY as u64 + 500);
    assert_eq!(summary.bytes, SAMPLE_CAPACITY as u64 + 500);
    assert_eq!(summary.encode.count, SAMPLE_CAPACITY);
    assert_eq!(summary.encode.min_ns, 500);
    assert_eq!(summary.encode.max_ns, SAMPLE_CAPACITY as u64 + 499);
}

#[test]
fn an_unused_destination_reports_nothing() {
    let metrics = OutputMetrics::new("file");
    assert!(metrics.is_empty());

    let mut used = OutputMetrics::new("file");
    used.record_failure();
    assert!(
        !used.is_empty(),
        "a failure is still activity worth reporting"
    );
}

fn shown(summary: &OutputSummary) -> ShownFigures {
    let ms = |ns: u64| format!("{:.1}", ns as f64 / 1_000_000.0);
    ShownFigures {
        mebibytes: format!("{:.1}", summary.bytes as f64 / (1024.0 * 1024.0)),
        encode_p50_ms: ms(summary.encode.p50_ns),
        encode_p99_ms: ms(summary.encode.p99_ns),
        write_p50_ms: ms(summary.write.p50_ns),
        write_p99_ms: ms(summary.write.p99_ns),
    }
}

#[test]
fn the_summary_names_its_destination_in_both_forms() {
    let mut metrics = OutputMetrics::new("file");
    metrics.record_write(2_097_152, 5_000_000, 1_000_000, 2);
    let summary = summary_of(&metrics);

    let line = summary.to_line(&shown(&summary));
    assert!(
        line.starts_with("file output: 1 written (2.0 MiB)"),
        "{line}"
    );
    assert!(line.contains("2 name collision(s)"), "{line}");
    assert_eq!(
        line,
        "file output: 1 written (2.0 MiB), 0 failed, 2 name collision(s); encode p50 5.0 ms p99 5.0 ms, write p50 1.0 ms p99 1.0 ms"
    );

    let json: serde_json::Value = serde_json::from_str(&summary.to_json()).expect("JSON");
    assert_eq!(json["destination"], "file");
    assert_eq!(json["written"], 1);
    assert_eq!(json["collisions"], 2);
    assert_eq!(json["encode_ns"]["p50"], 5_000_000);
}

#[test]
fn a_summary_reads_back_from_its_json() {
    let mut metrics = OutputMetrics::new("file");
    metrics.record_write(2_097_152, 5_000_000, 1_000_000, 2);
    let summary = summary_of(&metrics);

    let json: serde_json::Value = serde_json::from_str(&summary.to_json()).expect("JSON");
    assert_eq!(json["destination"], "file");
    assert_eq!(json["written"], 1);
    assert_eq!(json["collisions"], 2);
    assert_eq!(json["encode_ns"]["p50"], 5_000_000);
    assert_eq!(json["write_ns"]["max"], 1_000_000);
    assert_eq!(json["bytes"], 2_097_152);
    assert_eq!(json["failed"], 0);
}

fn publish(outcomes: &[Option<bool>], stopping: bool) -> (u32, u32, Vec<u64>) {
    let mut retry = PublishRetry::begin();
    let mut waits = Vec::new();
    let mut attempts = 0_u32;
    loop {
        let outcome = outcomes[(attempts as usize).min(outcomes.len() - 1)];
        attempts += 1;
        match retry.publish_with_retry(outcome, stopping) {
            PublishStep::RetryAfter(delay) => waits.push(delay),
            PublishStep::Done => return (attempts, retry.retries, waits),
        }
    }
}

#[test]
fn retryable_clipboard_failures_are_retried_to_the_limit() {
    let (attempts, retries, waits) = publish(&[Some(true)], false);
    assert_eq!(attempts, PUBLISH_RETRY_LIMIT + 1);
    assert_eq!(retries, PUBLISH_RETRY_LIMIT);
    assert_eq!(
        waits,
        vec![PUBLISH_RETRY_DELAY_MS; PUBLISH_RETRY_LIMIT as usize]
    );
}

#[test]
fn non_retryable_clipboard_failure_is_not_retried() {
    assert_eq!(publish(&[Some(false)], false), (1, 0, Vec::new()));
}

#[test]
fn retry_loop_returns_success_after_transient_failures() {
    let (attempts, retries, _) = publish(&[Some(true), Some(true), None], false);
    assert_eq!(attempts, 3);
    assert_eq!(retries, 2);
}

#[test]
fn retry_loop_stops_after_shutdown_is_requested() {
    assert_eq!(publish(&[Some(true)], true), (1, 0, Vec::new()));
}

#[test]
fn a_publish_that_cleared_the_clipboard_is_retried_and_reported_as_such() {
    let (attempts, retries, _) = publish(&[Some(true)], false);
    assert_eq!(retries, PUBLISH_RETRY_LIMIT);
    assert_eq!(attempts, PUBLISH_RETRY_LIMIT + 1);
    let failure = ClipboardFailure {
        capture_id: CaptureId(9),
        message: "scripted failure".to_owned(),
        cleared_previous_contents: true,
    };
    assert!(failure.notification().contains("Capture 9"));
    assert!(failure.notification().contains("cleared"));
}

#[test]
fn a_publish_that_failed_before_emptying_reports_no_loss() {
    let failure = ClipboardFailure {
        capture_id: CaptureId(9),
        message: "scripted failure".to_owned(),
        cleared_previous_contents: false,
    };
    assert!(!failure.notification().contains("cleared"));
    assert!(failure.notification().contains("scripted failure"));
    assert!(failure.retained_line().contains("scripted failure"));
}

#[test]
fn publishing_is_timed_from_the_frame() {
    assert_eq!(publish_times(10, 4).cpu_to_clipboard_ns, 6);
    assert_eq!(publish_times(10, 4).total_offset_ns, 10);
    assert_eq!(publish_times(4, 10).cpu_to_clipboard_ns, 0);
}

fn directory() -> FilePath {
    FilePath {
        parts: vec![PathPart::Root, PathPart::Normal("captures".to_owned())],
    }
}

#[test]
fn a_rejected_template_stops_the_worker_starting() {
    let error = check_template("captastic-{tilte}").expect_err("an unknown token must be rejected");
    assert!(error.message().contains("unknown token"), "{}", error.message());
    assert!(check_template("captastic-{timestamp}").is_ok());
}

#[test]
fn the_write_path_refuses_a_stem_that_would_escape() {
    let error = NameSearch::begin()
        .next_path(&directory(), "/captures", "../escape")
        .expect_err("a traversing stem must be refused");
    assert!(error.contains("outside"), "{error}");
}

#[test]
fn a_capture_never_overwrites_a_file_it_did_not_create() {
    let stem = "captastic-20260815-221030-123";
    let mut search = NameSearch::begin();
    let occupied = search
        .next_path(&directory(), "/captures", stem)
        .expect("a path");
    assert_eq!(
        occupied.file_name().map(String::as_str),
        Some("captastic-20260815-221030-123.png")
    );
    assert!(matches!(
        search.write_without_clobbering(FileOutcome::AlreadyExists, "shown", "exists", "/captures"),
        NameStep::TryNext
    ));
    let path = search
        .next_path(&directory(), "/captures", stem)
        .expect("a path");
    assert_ne!(path, occupied);
    assert!(matches!(
        search.write_without_clobbering(FileOutcome::Done, "shown", "", "/captures"),
        NameStep::Written(1)
    ));
}

#[test]
fn successive_collisions_keep_finding_free_names() {
    let mut search = NameSearch::begin();
    let mut names = Vec::new();
    loop {
        let name = search.candidate("captastic-20260815-221030-123");
        assert!(!names.contains(&name), "reused {name}");
        names.push(name);
        match search.write_without_clobbering(
            FileOutcome::AlreadyExists,
            "shown",
            "exists",
            "/captures",
        ) {
            NameStep::TryNext => {}
            NameStep::Fail(message) => {
                assert!(message.contains("/captures"), "{message}");
                break;
            }
            NameStep::Written(_) => panic!("nothing was written"),
        }
    }
    assert_eq!(names.len(), MAX_COLLISION_ATTEMPTS as usize);
}

#[test]
fn a_write_into_a_missing_directory_reports_rather_than_panicking() {
    let mut search = NameSearch::begin();
    match search.write_without_clobbering(
        FileOutcome::NotFound,
        "/missing/a.png",
        "not found",
        "/missing",
    ) {
        NameStep::Fail(message) => assert!(message.contains("failed to write"), "{message}"),
        _ => panic!("a missing directory cannot be written to"),
    }
}

#[test]
fn a_directory_that_cannot_be_created_fails_at_startup() {
    let error = directory_error("/captures", "not a directory");
    assert!(matches!(error, AppError::InvalidArgument(_)));
    assert!(error.message().contains("output directory"));
    assert!(encode_failure("no encoder").contains("no encoder"));
}

#[test]
fn a_capture_is_named_after_its_template() {
    let mut job = job();
    job.window_title = Some("a/b".to_owned());
    assert_eq!(
        capture_stem("{date}-{mode}-{width}x{height}-{title}", &job, 0),
        "19700101-last_workflow-2x2-a-b"
    );
    assert_eq!(
        one_shot_stem("{display}-{mode}", &job.frame, HotkeyAction::Region, 0),
        "primary-region"
    );
}

fn written() -> WriteReport {
    WriteReport {
        path: "/captures/a.png".to_owned(),
        bytes: 7,
        encode_ns: 1,
        write_ns: 2,
        collisions: 3,
    }
}

#[test]
fn a_written_capture_is_remembered_unless_nothing_is() {
    let recorder = |max_items: usize| {
        HistoryRecorder::new(
            HistoryStore::at(directory().join("history.toml")),
            RetentionPolicy {
                max_items,
                max_age: None,
                max_total_bytes: None,
            },
        )
    };
    assert!(recorder(0).entry(&job(), &written(), 5).is_none());
    let entry = recorder(1).entry(&job(), &written(), 5).expect("an entry");
    assert_eq!(entry.path, "/captures/a.png");
    assert_eq!(entry.captured_at_micros, 5);
    assert_eq!(entry.bytes, 7);
    assert_eq!((entry.width, entry.height), (2, 2));
    assert_eq!(entry.display, "primary");
    assert_eq!(entry.mode, "last_workflow");
}

#[test]
fn a_write_is_reported_as_json() {
    let event: serde_json::Value =
        serde_json::from_str(&written_event(&job(), &written())).expect("JSON");
    assert_eq!(event["event"], "file_output_written");
    assert_eq!(event["path"], "/captures/a.png");
    assert_eq!(event["bytes"], 7);
    assert_eq!(event["collisions"], 3);
    assert_eq!(event["capture_id"], 1);
    let event: serde_json::Value =
        serde_json::from_str(&failed_event(&job(), "disk \"full\"")).expect("JSON");
    assert_eq!(event["event"], "file_output_failed");
    assert_eq!(event["error"], "disk \"full\"");
}

fn parsed(text: &str) -> serde_json::Value {
    serde_json::from_str(text).expect("JSON")
}

#[test]
fn a_published_capture_is_reported_as_json() {
    let mut job = job();
    job.chord = Some(HotkeyChord::parse("shift+ctrl+f9").expect("chord"));
    let report = PublishReport {
        payload_bytes: 1,
        png_payload_bytes: 2,
        png_encode_ns: 3,
        allocation_copy_ns: 4,
        open_wait_ns: 5,
        open_retries: 6,
        publish_ns: 7,
    };
    let event = parsed(&clipboard_complete(&job, &publish_times(10, 4), &report, 2));
    assert_eq!(event["schema_version"], 1);
    assert_eq!(event["event"], "clipboard_complete");
    assert_eq!(event["chord"], "Ctrl+Shift+F9");
    assert_eq!(event["cpu_to_clipboard_ns"], 6);
    assert_eq!(event["open_retries"], 6);
    assert_eq!(event["publish_ns"], 7);
    assert_eq!(event.as_object().expect("an object").len(), 16);

    job.chord = None;
    let event = parsed(&clipboard_complete(&job, &publish_times(10, 4), &report, 2));
    assert!(event["chord"].is_null());
    let event = parsed(&clipboard_failed(&job, "denied", Some(-5), true, 3));
    assert_eq!(event["event"], "clipboard_failed");
    assert_eq!(event["native_code"], -5);
    assert_eq!(event["retryable"], true);
    assert_eq!(event["publish_retries"], 3);
    assert!(parsed(&clipboard_failed(&job, "denied", None, false, 0))["native_code"].is_null());
    let event = parsed(&clipboard_skipped(CaptureId(4), "queue_full"));
    assert_eq!(event["capture_id"], 4);
    assert_eq!(event["reason"], "queue_full");
}

#[test]
fn a_selection_is_reported_as_json() {
    let rect = Rect {
        x: -3,
        y: 4,
        width: 5,
        height: 6,
    };
    let mut figures = SelectionFigures {
        kind: SelectionKind::Region,
        rect,
        selection_offset_ns: 1,
        selection_interaction_ns: 2,
        overlay_preparation_ns: 3,
        window_overview_ns: 4,
        window_preview_count: 5,
        window_preview_bytes: 6,
        materialization_ns: 7,
        gpu: None,
        selected_frame_bytes: 120,
    };
    let made = materialize("frozen_desktop_crop", GpuAnswer::Failed("driver".to_owned()));
    let action = HotkeyAction::Region;
    let event = parsed(&selection_complete(
        CaptureId(2),
        "hotkey",
        action,
        None,
        &figures,
        &made,
    ));
    assert_eq!(event["event"], "selection_complete");
    assert_eq!(event["rect"]["x"], -3);
    assert_eq!(event["rect"]["height"], 6);
    assert_eq!(event["kind"], "region");
    assert_eq!(event["materialization"], "frozen_desktop_crop");
    assert_eq!(event["gpu_fallback_error"], "driver");
    assert!(event["gpu_materialization"].is_null());
    figures.gpu = Some(GpuFigures {
        gpu_copy_submit_ns: 1,
        map_wait_ns: 2,
        cpu_copy_ns: 3,
        total_ns: 6,
        bytes_read: 120,
        full_frame_bytes: 500,
        bytes_avoided: 380,
        contiguous_rows: true,
    });
    let made = materialize("frozen_desktop_crop", GpuAnswer::Materialized);
    let event = parsed(&selection_complete(
        CaptureId(2),
        "hotkey",
        action,
        None,
        &figures,
        &made,
    ));
    assert_eq!(event["materialization"], "dxgi_gpu_region");
    assert_eq!(event["gpu_materialization"]["bytes_avoided"], 380);
    assert_eq!(event["gpu_materialization"]["contiguous_rows"], true);
    assert!(event["gpu_fallback_error"].is_null());

    let event = parsed(&selection_finished(
        CaptureId(2),
        "hotkey",
        "selection_cancelled",
        "selection was cancelled",
    ));
    assert_eq!(event["event"], "selection_cancelled");
    assert_eq!(event["message"], "selection was cancelled");
    let display = DisplayId("left".to_owned());
    let event = parsed(&repeat_region_fallback(
        CaptureId(2),
        HotkeyAction::RepeatLastRegion,
        &display,
        "source_geometry_changed",
    ));
    assert_eq!(event["display_id"], "left");
    assert_eq!(event["route"], "region_overlay");
    let event = parsed(&repeat_region_materialized(
        CaptureId(2),
        HotkeyAction::RepeatLastRegion,
        rect,
        &made,
        9,
    ));
    assert_eq!(event["route"], "direct");
    assert_eq!(event["rect"]["width"], 5);
    assert_eq!(event["materialization_ns"], 9);
}

fn artifact(name: &str, modified: i128, protected: bool) -> Artifact {
    Artifact {
        name: name.to_owned(),
        modified: Some(modified),
        protected,
    }
}

#[test]
fn artifact_maintenance_never_deletes_the_new_quarantine() {
    let mut artifacts = vec![artifact("captastic.toml.corrupt-protected", 0, true)];
    for sequence in 0..CORRUPT_ARTIFACT_RETENTION {
        artifacts.push(artifact(
            &format!("captastic.toml.corrupt-old-{sequence}"),
            10 + sequence as i128,
            false,
        ));
    }
    let removed = maintain_config_artifacts_at("captastic.toml", &artifacts, 100);
    assert_eq!(removed, vec![1]);
    assert_eq!(
        artifacts.len() - removed.len(),
        CORRUPT_ARTIFACT_RETENTION
    );
}

#[test]
fn artifact_maintenance_removes_stale_temps_and_bounds_corrupt_backups() {
    let second = 1_000_000_000;
    let mut artifacts = vec![
        artifact(".captastic.toml.tmp-first", 0, false),
        artifact(".captastic.toml.tmp-second", 0, false),
        artifact("captastic.toml", 0, false),
        artifact("other.toml.corrupt-1", 0, false),
    ];
    assert!(maintain_config_artifacts_at(
        "captastic.toml",
        &artifacts,
        TEMP_ARTIFACT_MAX_AGE - second
    )
    .is_empty());
    for sequence in 0..=CORRUPT_ARTIFACT_RETENTION {
        artifacts.push(artifact(
            &format!("captastic.toml.corrupt-test-{sequence}"),
            20 - sequence as i128,
            false,
        ));
    }
    let removed = maintain_config_artifacts_at(
        "captastic.toml",
        &artifacts,
        TEMP_ARTIFACT_MAX_AGE + second,
    );
    assert_eq!(removed, vec![0, 1, 9]);
}

#[test]
fn atomic_replace_filters_filesystem_controlled_windows_attributes() {
    let readonly: u32 = 0x1;
    let hidden: u32 = 0x2;
    let compressed: u32 = 0x800;
    let encrypted: u32 = 0x4000;
    let sparse_file: u32 = 0x200;
    let reparse_point: u32 = 0x400;
    assert_eq!(
        settable_attributes(
            readonly | hidden | compressed | encrypted | sparse_file | reparse_point
        ),
        readonly | hidden
    );
}

#[test]
fn a_readonly_file_is_made_writable_for_its_replacement() {
    assert_eq!(replacement_attributes(0x3), (0x3, Some(0x2)));
    assert_eq!(replacement_attributes(0x2), (0x2, None));
    assert_eq!(replacement_attributes(0x1), (0x1, Some(0x80)));
    assert_eq!(replacement_attributes(0), (0x80, None));
}

#[test]
fn a_write_that_fails_takes_its_temporary_file_along() {
    assert_eq!(
        atomic_write(WriteStep::PreservePermissions, true),
        AfterStep::Next(WriteStep::WriteContents)
    );
    assert_eq!(
        atomic_write(WriteStep::WriteContents, true),
        AfterStep::Next(WriteStep::Replace)
    );
    assert_eq!(
        atomic_write(WriteStep::Replace, true),
        AfterStep::Next(WriteStep::SyncParent)
    );
    assert_eq!(
        atomic_write(WriteStep::SyncParent, true),
        AfterStep::Finished
    );
    for step in [
        WriteStep::PreservePermissions,
        WriteStep::WriteContents,
        WriteStep::Replace,
    ] {
        assert_eq!(atomic_write(step, false), AfterStep::RemoveTemporary);
    }
}

#[test]
fn a_name_that_is_taken_is_tried_with_the_next_number() {
    let path = directory().join("captastic.toml");
    assert_eq!(
        temporary_path(&path, 12, 3)
            .expect("a name")
            .file_name()
            .map(String::as_str),
        Some(".captastic.toml.tmp-12-3")
    );
    assert_eq!(
        quarantine_path(&path, 12, 3)
            .expect("a name")
            .file_name()
            .map(String::as_str),
        Some("captastic.toml.corrupt-12-3")
    );
    assert_eq!(
        create_temporary_file(FileOutcome::AlreadyExists, 1),
        Claim::TryNext
    );
    assert_eq!(
        create_temporary_file(FileOutcome::AlreadyExists, NAME_ATTEMPTS),
        Claim::Exhausted
    );
    assert_eq!(create_temporary_file(FileOutcome::Done, 1), Claim::Taken);
    assert_eq!(quarantine_config(FileOutcome::NotFound, 1), Claim::SourceGone);
    assert_eq!(quarantine_config(FileOutcome::Failed, 1), Claim::Fail);
    assert_eq!(usable_parent(&path), directory());
    assert_eq!(
        usable_parent(&FilePath {
            parts: vec![PathPart::Normal("captastic.toml".to_owned())]
        }),
        FilePath {
            parts: vec![PathPart::Current]
        }
    );
}

#[test]
fn a_new_file_never_lands_on_another() {
    assert!(replace_file(true).is_ok());
    assert!(finalize_new(false).is_ok());
    assert!(finalize_new(true).is_err());
    assert_eq!(wide_path(vec![65, 66]), Ok(vec![65, 66, 0]));
    assert!(wide_path(vec![65, 0, 66]).is_err());
    assert!(matches!(
        after_failed_move(true, 0),
        MoveStep::RetryAfter(_)
    ));
    assert_eq!(after_failed_move(true, MOVE_RETRY_TIMEOUT), MoveStep::Fail);
    assert_eq!(after_failed_move(false, 0), MoveStep::Fail);
}

#[test]
fn a_rejection_says_what_became_of_the_copy() {
    assert_eq!(submission(Ok(())), Submission::Accepted);
    assert_eq!(
        submission(Err(OutputRejection::QueueFull(Box::new(job())))),
        Submission::Full {
            metrics_error: None
        }
    );
    assert_eq!(
        submission(Err(OutputRejection::Disconnected(Box::new(job())))),
        Submission::Disconnected {
            metrics_error: None
        }
    );
}

#[test]
fn a_named_capture_is_given_a_file_on_a_drive() {
    let directory = FilePath {
        parts: vec![
            PathPart::Prefix("D:".to_owned()),
            PathPart::Root,
            PathPart::Normal("shots".to_owned()),
        ],
    };
    let mut search = NameSearch::begin();
    for name in ["report.png", "report-2.png", "report-3.png"] {
        let found = search
            .next_path(&directory, "D:/shots", "report")
            .expect("a free name is tried");
        assert_eq!(found.parts[3], PathPart::Normal(name.to_owned()));
        let step =
            search.write_without_clobbering(FileOutcome::AlreadyExists, "shown", "", "D:/shots");
        assert!(matches!(step, NameStep::TryNext));
    }
    assert!(search.next_path(&directory, "D:/shots", "../x").is_err());
}
