use captastic::benchmark::benchmark_options;
use captastic::capture::{
    CaptureError, CaptureErrorKind, CaptureId, CaptureMode, CaptureSource, CursorMode, DisplayId,
    Rect,
};
use captastic::cli::{
    capture_mode, logging_config_path, resolve_logging_config, uses_persistent_logging,
    BenchmarkArgs, BenchmarkRunArgs, CaptureArgs, Cli, Command, CursorArg, DaemonArgs, ModeArg,
    PreviewArg,
};
use captastic::config::{AppConfig, LoggingConfig};
use captastic::daemon::dispatch::{materialize, GpuAnswer, SelectionKind};
use captastic::display_policy::{
    backend_named, dxgi_display, fake_benchmark_source, needs_pointer, resolve_capture_source,
    resolve_display_policy, BackendChoice, DisplayPolicy,
};
use captastic::error::{AppError, ConfigError};
use captastic::events::PublishReport;
use captastic::one_shot::{
    cancelled_event, load_optional_one_shot_ui_state, one_shot_settings, one_shot_ui_state_warning,
    LiveAnswer, OneShot, OneShotRequest, OneShotSettings, OneShotStep, SelectionReport,
};
use captastic::region::DisplayUiState;
use captastic::text::{control, whitespace};

fn cli(command: Option<Command>) -> Cli {
    Cli {
        log_file: None,
        log_level: None,
        log_format: None,
        command,
    }
}

fn capture_args() -> CaptureArgs {
    CaptureArgs {
        config: None,
        backend: "dxgi".to_owned(),
        display: "primary".to_owned(),
        mode: ModeArg::Latest,
        cpu_frame: true,
        selection: true,
        selection_preview: PreviewArg::Auto,
        clipboard: true,
        json: false,
    }
}

fn benchmark_args() -> BenchmarkRunArgs {
    BenchmarkRunArgs {
        backend: "fake".to_owned(),
        display: "primary".to_owned(),
        mode: ModeArg::Latest,
        iterations: 100,
        warmup: 10,
        native_delay_us: 0,
        readback_delay_us: 0,
        frame_age_us: 0,
        max_frame_age_ms: 25,
        cpu_frame: true,
        cursor: CursorArg::Exclude,
        repeat: 1,
        budgets: None,
        output_results: None,
        raw_events: None,
        output_dir: None,
        json: false,
    }
}

#[test]
fn only_operational_commands_persist_logs_by_default() {
    assert!(uses_persistent_logging(&cli(None)));
    assert!(uses_persistent_logging(&cli(Some(Command::Daemon(
        DaemonArgs::default()
    )))));
    assert!(!uses_persistent_logging(&cli(Some(Command::Doctor {
        json: true
    }))));
    let capture = cli(Some(Command::Capture(capture_args())));
    assert!(uses_persistent_logging(&capture));
    let benchmark = cli(Some(Command::Benchmark(BenchmarkArgs {
        command: None,
        run: benchmark_args(),
    })));
    assert!(uses_persistent_logging(&benchmark));

    let mut explicit = cli(Some(Command::Doctor { json: true }));
    explicit.log_file = Some("doctor.log".to_owned());
    assert!(uses_persistent_logging(&explicit));
}

#[test]
fn raw_events_under_repeat_says_which_flag_is_missing() {
    let mut args = benchmark_args();
    args.repeat = 3;
    args.raw_events = Some("events.jsonl".to_owned());
    let error = args.validate().expect_err("the combination is refused");
    assert!(
        error.message().contains("--output-dir"),
        "the refusal names the flag that would fix it: {}",
        error.message()
    );

    args.output_dir = Some("C:/tmp/run".to_owned());
    args.validate().expect("the combination is accepted");

    let mut single = benchmark_args();
    single.raw_events = Some("events.jsonl".to_owned());
    single.validate().expect("a single run needs no directory");
}

#[test]
fn a_run_is_measured_as_the_command_line_says() {
    let mut args = benchmark_args();
    let source = || CaptureSource::Display(DisplayId::primary());
    let options = benchmark_options(&args, source());
    assert_eq!(
        options.mode,
        CaptureMode::Latest {
            max_age_ms: Some(25)
        }
    );
    assert_eq!(options.metrics_capacity, 1_032);
    assert_eq!(options.trigger_queue_capacity, 4);
    assert_eq!(options.cursor, CursorMode::Exclude);
    args.max_frame_age_ms = 0;
    args.cursor = CursorArg::Include;
    let options = benchmark_options(&args, source());
    assert_eq!(options.mode, CaptureMode::Latest { max_age_ms: None });
    assert_eq!(options.cursor, CursorMode::Include);
    args.mode = ModeArg::Fresh;
    assert_eq!(
        benchmark_options(&args, source()).mode,
        CaptureMode::Fresh { timeout_ms: 100 }
    );
}

#[test]
fn no_command_means_the_daemon() {
    assert_eq!(Command::default(), Command::Daemon(DaemonArgs::default()));
    assert_eq!(
        capture_mode(ModeArg::Latest),
        CaptureMode::Latest { max_age_ms: None }
    );
    assert_eq!(
        capture_mode(ModeArg::Fresh),
        CaptureMode::Fresh { timeout_ms: 100 }
    );
}

#[test]
fn flags_come_before_the_logging_section() {
    let mut asked = cli(Some(Command::Daemon(DaemonArgs {
        config: Some("profile.toml".to_owned()),
        ..DaemonArgs::default()
    })));
    assert_eq!(
        logging_config_path(&asked).map(String::as_str),
        Some("profile.toml")
    );
    assert_eq!(logging_config_path(&cli(Some(Command::Stop))), None);
    asked.log_level = Some("debug".to_owned());
    let logging = resolve_logging_config(&asked, None);
    assert_eq!(logging.level, "debug");
    assert_eq!(logging.format, LoggingConfig::default().format);
    asked.log_format = Some("json".to_owned());
    asked.log_file = Some("a.log".to_owned());
    let logging = resolve_logging_config(
        &asked,
        Some(LoggingConfig {
            level: "warn".to_owned(),
            retained_files: 9,
            ..LoggingConfig::default()
        }),
    );
    assert_eq!(logging.level, "debug");
    assert_eq!(logging.format, "json");
    assert_eq!(logging.file.as_deref(), Some("a.log"));
    assert_eq!(logging.retained_files, 9);
}

#[test]
fn display_policy_resolves_pointer_primary_virtual_desktop_and_fixed_ids() {
    assert_eq!(
        resolve_display_policy("pointer").expect("pointer"),
        DisplayPolicy::Pointer
    );
    assert_eq!(
        resolve_display_policy("primary").expect("primary"),
        DisplayPolicy::Primary
    );
    assert_eq!(
        resolve_display_policy("virtual_desktop").expect("virtual desktop"),
        DisplayPolicy::VirtualDesktop
    );
    assert_eq!(
        resolve_display_policy("display:windows-monitor-0123456789abcdef").expect("fixed display"),
        DisplayPolicy::Fixed(DisplayId("windows-monitor-0123456789abcdef".to_owned()))
    );
}

#[test]
fn unresolved_display_policies_fail_before_backend_initialization() {
    for value in ["display:", "unexpected"] {
        assert!(matches!(
            resolve_display_policy(value),
            Err(AppError::InvalidArgument(_))
        ));
    }
}

#[test]
fn a_policy_reads_back_from_its_own_words() {
    for policy in [
        DisplayPolicy::Pointer,
        DisplayPolicy::Primary,
        DisplayPolicy::VirtualDesktop,
        DisplayPolicy::Fixed(DisplayId("left".to_owned())),
    ] {
        assert_eq!(resolve_display_policy(&policy.as_config_value()), Ok(policy));
    }
}

#[test]
fn only_the_pointer_policy_asks_where_the_pointer_is() {
    assert!(needs_pointer(&DisplayPolicy::Pointer));
    assert!(!needs_pointer(&DisplayPolicy::Primary));
    assert_eq!(
        resolve_capture_source(
            &DisplayPolicy::Pointer,
            Some(Ok(DisplayId("left".to_owned())))
        ),
        Ok(CaptureSource::Display(DisplayId("left".to_owned())))
    );
    let lost = || CaptureError {
        kind: CaptureErrorKind::PointerOutsideDisplays,
        message: "nowhere".to_owned(),
    };
    assert_eq!(
        resolve_capture_source(&DisplayPolicy::Pointer, Some(Err(lost()))),
        Err(lost())
    );
    assert_eq!(
        resolve_capture_source(&DisplayPolicy::VirtualDesktop, None),
        Ok(CaptureSource::VirtualDesktop)
    );
    assert_eq!(
        resolve_capture_source(&DisplayPolicy::Primary, None),
        Ok(CaptureSource::Display(DisplayId::primary()))
    );
    assert!(fake_benchmark_source(&DisplayPolicy::Pointer).is_err());
    assert!(fake_benchmark_source(&DisplayPolicy::Primary).is_ok());
    assert_eq!(backend_named("fake"), Ok(BackendChoice::Fake));
    assert_eq!(backend_named("dxgi"), Ok(BackendChoice::Dxgi));
    assert!(backend_named("gdi").is_err());
    assert_eq!(
        dxgi_display(&DisplayPolicy::Fixed(DisplayId("left".to_owned()))),
        Some(DisplayId("left".to_owned()))
    );
}

fn settings() -> OneShotSettings {
    OneShotSettings {
        selection: true,
        preview: PreviewArg::Auto,
        clipboard: true,
        cpu_frame: true,
        mode: CaptureMode::Latest { max_age_ms: None },
        cursor: CursorMode::Exclude,
        save: false,
        native: true,
    }
}

#[test]
fn a_one_shot_capture_follows_its_configuration() {
    let mut config = AppConfig::default();
    config.output.enabled = true;
    config.capture.cursor = "include".to_owned();
    let resolved = one_shot_settings(&capture_args(), &config, true);
    assert_eq!(resolved.cursor, CursorMode::Include);
    assert!(resolved.save && resolved.clipboard && resolved.selection);
    assert_eq!(resolved.mode, capture_mode(ModeArg::Latest));
}

#[test]
fn a_confirmed_live_selection_is_captured_and_delivered() {
    let (mut shot, step) = OneShot::begin(settings()).expect("a start");
    assert_eq!(step, OneShotStep::SelectLive);
    let step = shot
        .on_live(LiveAnswer::Confirmed(SelectionKind::Region))
        .expect("a step");
    assert!(matches!(
        step,
        OneShotStep::Capture(OneShotRequest {
            cpu_frame: true,
            ..
        })
    ));
    let step = shot.on_captured(true, true).expect("a step");
    assert_eq!(step, OneShotStep::Materialize { ask_gpu: true });
    let step = shot.on_materialized().expect("a step");
    assert_eq!(step, OneShotStep::Publish);
    assert_eq!(shot.on_published(), OneShotStep::Report);
    assert_eq!(shot.preview_mode(), "live");
    assert_eq!(shot.requested_preview_mode(), "auto");
}

#[test]
fn a_live_preview_that_fails_falls_back_only_when_it_may() {
    let failed = || {
        LiveAnswer::Failed(CaptureError {
            kind: CaptureErrorKind::NativeFailure,
            message: "overlay".to_owned(),
        })
    };
    let (mut shot, _) = OneShot::begin(settings()).expect("a start");
    assert!(matches!(
        shot.on_live(failed()),
        Ok(OneShotStep::Capture(_))
    ));
    assert!(shot.fallback_reason.is_some());
    assert_eq!(shot.preview_mode(), "frozen");
    assert_eq!(
        shot.on_captured(true, false).expect("a step"),
        OneShotStep::SelectFrozen
    );
    assert_eq!(shot.on_frozen(None), OneShotStep::Cancelled);

    let mut strict = settings();
    strict.preview = PreviewArg::Live;
    let (mut shot, _) = OneShot::begin(strict).expect("a start");
    assert!(shot.on_live(failed()).is_err());

    let (mut shot, _) = OneShot::begin(settings()).expect("a start");
    assert!(matches!(
        shot.on_live(LiveAnswer::Cancelled),
        Ok(OneShotStep::Cancelled)
    ));
}

#[test]
fn a_capture_without_a_frame_is_not_delivered() {
    let mut plain = settings();
    plain.selection = false;
    let (mut shot, step) = OneShot::begin(plain).expect("a start");
    assert!(matches!(step, OneShotStep::Capture(_)));
    assert!(shot.on_captured(false, false).is_err());

    let mut blind = settings();
    blind.cpu_frame = false;
    assert!(OneShot::begin(blind).is_err());
    let event: serde_json::Value =
        serde_json::from_str(&cancelled_event(CaptureId(1))).expect("JSON");
    assert_eq!(event["capture_id"], 1);
    assert!(cancelled_event(CaptureId(1)).contains('\n'));
}

fn selected() -> SelectionReport {
    SelectionReport {
        kind: SelectionKind::Window,
        rect: Rect {
            x: -1,
            y: 2,
            width: 3,
            height: 4,
        },
        selection_ns: 5,
        overlay_preparation_ns: 6,
        window_overview_ns: 7,
        window_preview_count: 8,
        window_live_preview_count: 9,
        window_frozen_preview_count: 10,
        window_preview_bytes: 11,
        materialization_ns: 12,
        gpu: None,
    }
}

#[test]
fn a_finished_capture_is_reported_as_json() {
    let (mut shot, _) = OneShot::begin(settings()).expect("a start");
    let mut metadata = serde_json::Map::new();
    metadata.insert("backend".to_owned(), serde_json::Value::from("fake"));
    let made = materialize("window_frame", GpuAnswer::NotUsed);
    let published = PublishReport {
        payload_bytes: 1,
        png_payload_bytes: 2,
        png_encode_ns: 3,
        allocation_copy_ns: 4,
        open_wait_ns: 5,
        open_retries: 6,
        publish_ns: 7,
    };
    let text = shot.report(
        "fake",
        metadata.clone(),
        Some(48),
        &Some((selected(), made)),
        &Some(published),
        false,
    );
    assert!(!text.contains('\n'));
    let value: serde_json::Value = serde_json::from_str(&text).expect("JSON");
    assert_eq!(value["synthetic"], true);
    assert_eq!(value["metadata"]["backend"], "fake");
    assert_eq!(value["cpu_frame_bytes"], 48);
    assert_eq!(value["selection"]["kind"], "window");
    assert_eq!(value["selection"]["rect"]["x"], -1);
    assert_eq!(value["selection"]["preview_mode"], "live");
    assert_eq!(value["selection"]["capture_anchor"], "confirmation");
    assert_eq!(value["selection"]["window_frozen_preview_count"], 10);
    assert_eq!(value["selection"].get("preview_fallback_reason"), None);
    assert_eq!(value["clipboard"]["open_retries"], 6);

    let failed = LiveAnswer::Failed(CaptureError {
        kind: CaptureErrorKind::NativeFailure,
        message: "overlay".to_owned(),
    });
    shot.on_live(failed).expect("a step");
    let made = materialize("window_frame", GpuAnswer::Failed("driver".to_owned()));
    let text = shot.report(
        "dxgi",
        metadata.clone(),
        None,
        &Some((selected(), made)),
        &None,
        true,
    );
    assert!(text.contains('\n'));
    let value: serde_json::Value = serde_json::from_str(&text).expect("JSON");
    assert_eq!(value["synthetic"], false);
    assert!(value["cpu_frame_bytes"].is_null());
    assert!(value["clipboard"].is_null());
    assert_eq!(value["selection"]["requested_preview_mode"], "auto");
    assert_eq!(value["selection"]["preview_mode"], "frozen");
    assert_eq!(value["selection"]["preview_fallback_reason"], "overlay");
    assert_eq!(value["selection"]["capture_anchor"], "fallback");
    assert_eq!(value["selection"]["gpu_fallback_error"], "driver");

    let text = shot.report("dxgi", metadata, None, &None, &None, false);
    let value: serde_json::Value = serde_json::from_str(&text).expect("JSON");
    assert!(value["selection"].is_null());
}

#[test]
fn one_shot_ui_state_warning_matches_the_daemon_phrasing() {
    let warning = one_shot_ui_state_warning(&AppError::BackendUnavailable(
        "failed to persist UI state: access is denied".to_owned(),
    ));
    assert!(warning.starts_with("Captastic could not save selection preferences."));
    assert!(warning.contains("failed to persist UI state"));
}

#[test]
fn one_shot_selection_ignores_unreadable_remembered_ui_state() {
    let (state, warning) = load_optional_one_shot_ui_state(Err(ConfigError::Read {
        path: "state.toml".to_owned(),
        source: "is a directory".to_owned(),
    }));
    assert_eq!(state, DisplayUiState::default());
    assert!(warning.expect("a warning").contains("is a directory"));
}

#[test]
fn characters_are_classified_as_std_classifies_them() {
    for c in '\u{0}'..=char::MAX {
        assert_eq!(whitespace(c), c.is_whitespace(), "{c:?}");
        assert_eq!(control(c), c.is_control(), "{c:?}");
    }
}
