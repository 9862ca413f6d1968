use captastic::capture::{
    preview_metadata, CaptureError, CaptureErrorKind, CaptureId, CaptureMode, CaptureSource,
    DisplayId, DisplayInfo, FrameMetadata, Rect, TimingProvenance,
};
use captastic::cli::{DaemonArgs, ModeArg};
use captastic::config::{AppConfig, ConfigRecovery, PreviewMode};
use captastic::daemon::control::{
    active_hotkey_labels, check_startup, file_failure_message, final_result, hotkey_trigger,
    last_capture_problem, latest_capture, open_capture_failure, open_config_problem, problem_title,
    prune_outcome, retained_file_failure, retained_notice, retained_persistence_failure, run,
    self_test_trigger, startup_outcome, stopped_line, ControlLoop, LastCaptureWish, SelfTrigger,
    TrayAction, TrayEvent, WorkerNews,
};
use captastic::daemon::dispatch::{
    action_requires_selection, action_route, dispatch_destinations, live_selection_tool,
    output_status_or_fatal, queued_to_selection_worker, repeat_region_rect, route_output,
    selection_status, ActionRoute, InitialSelectionTool, OutputRoute, SelectionKind, Submission,
    METRICS_VALIDATION_FAILED,
};
use captastic::daemon::notice::{DaemonNotice, LastMessage};
use captastic::daemon::recovery::{
    backend_outage_needs_notice, recovery_delay, requires_backend_recovery, wait_for_backoff,
    BackoffOutcome, BackoffStep, CaptureRetry, RetryStep,
};
use captastic::daemon::settings::{
    resolve_daemon_args, resolve_daemon_args_with_default, DaemonInputs, ResolvedDaemonArgs,
};
use captastic::daemon::worker::{
    capture_budget_exhausted, capture_limit_reached, CaptureLoop, LoopStep, Resumption, TriggerStep,
    WorkerSettings,
};
use captastic::display_policy::DisplayPolicy;
use captastic::error::{AppError, ConfigError};
use captastic::history::{CaptureHistory, HistoryEntry};
use captastic::events::{capture_complete, engine_ready, ready, ready_line};
use captastic::hotkey::{HotkeyAction, HotkeyBinding, HotkeyChord};
use captastic::path::{FilePath, PathPart};
use captastic::region::{CaptureRegion, CaptureRegionSource, ConfirmedRegion};
use captastic::ui_state::{UiState, STATE_SCHEMA_VERSION};
use captastic::worker_registry::{
    guaranteed_deadline, reserved_deadline, stop_step, QueueAnswer, StopStep, TeardownStep, Worker,
    WorkerRegistry, DAEMON_SHUTDOWN_TIMEOUT, WORKER_TEARDOWN_RESERVE,
};

fn preview_display(id: &str, bounds: Rect, primary: bool) -> DisplayInfo {
    DisplayInfo {
        id: DisplayId(id.to_owned()),
        name: id.to_owned(),
        bounds,
        rotation_degrees: 0,
        is_primary: primary,
        scale_factor_bits: 1.0f32.to_bits(),
    }
}

#[test]
fn live_preview_metadata_preserves_display_identity_and_virtual_bounds() {
    let displays = vec![
        preview_display(
            "left",
            Rect {
                x: -1280,
                y: 0,
                width: 1280,
                height: 1024,
            },
            false,
        ),
        preview_display(
            "primary-id",
            Rect {
                x: 0,
                y: -200,
                width: 1920,
                height: 1080,
            },
            true,
        ),
    ];
    let mode = CaptureMode::Latest { max_age_ms: None };

    let primary = preview_metadata(
        CaptureId(1),
        &CaptureSource::Display(DisplayId::primary()),
        &displays,
        mode,
    )
    .expect("primary preview metadata");
    assert_eq!(primary.display_id.0, "primary-id");
    assert_eq!(primary.source_rect, displays[1].bounds);

    let desktop = preview_metadata(CaptureId(2), &CaptureSource::VirtualDesktop, &displays, mode)
        .expect("virtual preview metadata");
    assert_eq!(desktop.display_id, DisplayId::virtual_desktop());
    assert_eq!(
        desktop.source_rect,
        Rect {
            x: -1280,
            y: -200,
            width: 3200,
            height: 1224,
        }
    );
    assert!(preview_metadata(
        CaptureId(3),
        &CaptureSource::Display(DisplayId("gone".to_owned())),
        &displays,
        mode
    )
    .is_err());
    assert!(
        preview_metadata(CaptureId(3), &CaptureSource::VirtualDesktop, &Vec::new(), mode).is_err()
    );
}

fn inputs(loaded: Result<(AppConfig, Option<ConfigRecovery>), ConfigError>) -> DaemonInputs {
    DaemonInputs {
        config_path: None,
        storage: None,
        loaded,
        ui: Ok(UiState::default()),
        default_directory: Some("/home/someone/Pictures/Captastic".to_owned()),
    }
}

fn settings() -> ResolvedDaemonArgs {
    resolve_daemon_args(
        DaemonArgs::default(),
        inputs(Ok((AppConfig::default(), None))),
    )
    .expect("default settings")
}

#[test]
fn missing_config_argument_uses_the_recovering_default_loader() {
    let resolved = resolve_daemon_args(
        DaemonArgs::default(),
        inputs(Ok((
            AppConfig::default(),
            Some(ConfigRecovery {
                original_path: "damaged-default.toml".to_owned(),
                quarantined_path: "damaged-default.toml.corrupt-test".to_owned(),
                reason: "test syntax damage".to_owned(),
            }),
        ))),
    )
    .expect("default recovery must permit daemon argument resolution");

    assert!(!resolved.backend.is_empty());
    assert_eq!(resolved.startup_warnings.len(), 1);
    assert!(resolved.startup_warnings[0].contains("quarantined"));
}

#[test]
fn the_command_line_comes_before_the_configuration() {
    let resolved = settings();
    assert_eq!(resolved.backend, "dxgi");
    assert_eq!(resolved.display_policy, DisplayPolicy::Pointer);
    assert_eq!(resolved.mode, CaptureMode::Latest { max_age_ms: None });
    assert!(resolved.selection && resolved.clipboard && !resolved.file_output);
    assert_eq!(
        resolved.output_directory,
        "/home/someone/Pictures/Captastic"
    );
    assert_eq!(resolved.hotkey_bindings.len(), 1);
    assert_eq!(resolved.history_retention.max_age, Some(30 * 24 * 60 * 60));
    assert!(resolved.history_store.location.is_none());

    let mut config = AppConfig::default();
    config.output.directory = Some("/captures".to_owned());
    let mut given = inputs(Ok((config, None)));
    given.config_path = Some(FilePath {
        parts: vec![
            PathPart::Root,
            PathPart::Normal("profile".to_owned()),
            PathPart::Normal("captastic.toml".to_owned()),
        ],
    });
    given.ui = Err(ConfigError::Parse("bad".to_owned()));
    let args = DaemonArgs {
        backend: Some("fake".to_owned()),
        display: Some("display:left".to_owned()),
        mode: Some(ModeArg::Fresh),
        fresh_timeout_ms: Some(7),
        selection: Some(false),
        max_captures: Some(3),
        self_trigger: true,
        self_trigger_interval_ms: Some(250),
        ..DaemonArgs::default()
    };
    let resolved = resolve_daemon_args_with_default(args, given, true).expect("settings");
    assert_eq!(resolved.ui.schema_version, STATE_SCHEMA_VERSION);
    assert_eq!(resolved.backend, "fake");
    assert_eq!(
        resolved.display_policy,
        DisplayPolicy::Fixed(DisplayId("left".to_owned()))
    );
    assert_eq!(resolved.mode, CaptureMode::Fresh { timeout_ms: 7 });
    assert!(!resolved.selection);
    assert_eq!(resolved.max_captures, Some(3));
    assert_eq!(resolved.self_trigger_interval_ms, Some(250));
    assert_eq!(resolved.output_directory, "/captures");
    assert_eq!(
        resolved.startup_warnings,
        vec!["unable to read remembered UI state: failed to parse configuration: bad".to_owned()]
    );
    assert_eq!(
        resolved
            .history_store
            .location
            .expect("beside the profile")
            .file_name(),
        Some(&"history.toml".to_owned())
    );
}

#[test]
fn settings_that_cannot_be_settled_are_refused() {
    let error = resolve_daemon_args(
        DaemonArgs::default(),
        inputs(Err(ConfigError::Parse("bad".to_owned()))),
    )
    .err();
    assert_eq!(
        error,
        Some(AppError::Config(ConfigError::Parse("bad".to_owned())))
    );

    let mut config = AppConfig::default();
    config.daemon.trigger_queue_capacity = 0;
    assert!(matches!(
        resolve_daemon_args(DaemonArgs::default(), inputs(Ok((config, None)))),
        Err(AppError::Config(ConfigError::InvalidValue(_)))
    ));

    let args = DaemonArgs {
        display: Some("elsewhere".to_owned()),
        ..DaemonArgs::default()
    };
    assert!(matches!(
        resolve_daemon_args(args, inputs(Ok((AppConfig::default(), None)))),
        Err(AppError::InvalidArgument(_))
    ));

    let mut given = inputs(Ok((AppConfig::default(), None)));
    given.default_directory = None;
    assert!(matches!(
        resolve_daemon_args(DaemonArgs::default(), given),
        Err(AppError::BackendUnavailable(_))
    ));

    let mut config = AppConfig::default();
    config.output.directory = Some("captures".to_owned());
    assert!(matches!(
        resolve_daemon_args(DaemonArgs::default(), inputs(Ok((config, None)))),
        Err(AppError::Config(ConfigError::InvalidValue(_)))
    ));
}

#[test]
fn a_daemon_that_could_not_deliver_does_not_start() {
    let refusal = |settings: &ResolvedDaemonArgs| match check_startup(settings) {
        Err(AppError::InvalidArgument(text)) => text,
        _ => panic!("the settings must be refused"),
    };
    assert!(check_startup(&settings()).is_ok());

    let mut none = settings();
    none.max_captures = Some(0);
    assert_eq!(refusal(&none), "max-captures must be greater than zero");

    let mut blind = settings();
    blind.cpu_frame = false;
    assert_eq!(
        refusal(&blind),
        "output destinations require --cpu-frame true"
    );

    let mut aimless = settings();
    aimless.clipboard = false;
    assert!(refusal(&aimless).contains("at least one output destination"));
    aimless.file_output = true;
    assert!(check_startup(&aimless).is_ok());

    let mut bound = settings();
    bound.selection = false;
    assert!(check_startup(&bound).is_ok());
    bound.hotkey_bindings.push(HotkeyBinding {
        action: HotkeyAction::Window,
        chord: HotkeyChord::parse("Alt+W").expect("chord"),
    });
    assert_eq!(
        refusal(&bound),
        "hotkey action window requires selection.enabled = true"
    );
}

#[test]
fn capture_limit_permits_exactly_the_requested_attempts() {
    assert!(!capture_limit_reached(None, 99, 0));
    assert!(!capture_limit_reached(Some(2), 1, 0));
    assert!(capture_limit_reached(Some(2), 2, 0));
    assert!(capture_limit_reached(Some(1), 1, 0));
}

#[test]
fn capture_limit_waits_for_attempts_the_selection_worker_still_owns() {
    assert!(!capture_limit_reached(Some(1), 1, 1));
    assert!(capture_limit_reached(Some(1), 1, 0));
}

#[test]
fn spent_capture_budget_rejects_further_triggers() {
    assert!(!capture_budget_exhausted(None, 5));
    assert!(!capture_budget_exhausted(Some(2), 1));
    assert!(capture_budget_exhausted(Some(2), 2));
    assert!(capture_budget_exhausted(Some(2), 3));
}

#[test]
fn only_queued_selection_dispatches_stay_in_flight() {
    assert!(queued_to_selection_worker("selection_queued"));
    assert!(queued_to_selection_worker("live_selection_queued"));
    for finished_inline in [
        "selection_queue_full",
        "selection_worker_disconnected",
        "disabled",
        "queued",
        "queue_full",
        "worker_disconnected",
    ] {
        assert!(!queued_to_selection_worker(finished_inline));
    }
}

#[test]
fn metrics_validation_failures_never_stop_the_daemon() {
    let status = output_status_or_fatal(Err(AppError::Metrics("rank regression".to_owned())))
        .expect("telemetry bookkeeping must never be fatal");

    assert_eq!(status, METRICS_VALIDATION_FAILED);
    assert!(!queued_to_selection_worker(status));
}

#[test]
fn real_dispatch_failures_still_stop_the_daemon() {
    assert_eq!(
        output_status_or_fatal(Ok("selection_queued"))
            .expect("a successful dispatch passes its status through"),
        "selection_queued"
    );

    let error = output_status_or_fatal(Err(AppError::InvalidArgument(
        "hotkey action window requires selection.enabled = true".to_owned(),
    )))
    .expect_err("configuration failures remain fatal");

    assert!(matches!(error, AppError::InvalidArgument(_)));
}

#[test]
fn dropped_selections_are_surfaced_with_their_reason() {
    let mut state = CaptureLoop::new();
    state.selections_in_flight = 1;
    let notice = state
        .handed_back(
            CaptureId(7),
            Resumption::Confirmed(SelectionKind::Region),
            false,
            false,
        )
        .expect("dropped selection notice");
    assert!(matches!(
        notice,
        DaemonNotice::DroppedSelection {
            capture_id: CaptureId(7),
            ..
        }
    ));
    assert_eq!(
        notice.message(),
        "Capture 7 was not completed because it could not resume after its confirmation capture."
    );
    assert_eq!(state.selections_in_flight, 0);
}

#[test]
fn a_persistent_capture_engine_outage_is_announced_once() {
    let threshold = 3;
    for failed_attempts in 1..threshold {
        assert!(!backend_outage_needs_notice(failed_attempts, false));
    }
    assert!(backend_outage_needs_notice(threshold, false));
    for failed_attempts in [threshold, threshold + 1, u32::MAX] {
        assert!(!backend_outage_needs_notice(failed_attempts, true));
    }
}

#[test]
fn capture_engine_notices_dedupe_across_an_outage_but_not_across_its_recovery() {
    let unavailable = DaemonNotice::CaptureEngineUnavailable.message();
    assert_eq!(
        unavailable,
        DaemonNotice::CaptureEngineUnavailable.message()
    );
    assert_ne!(unavailable, DaemonNotice::CaptureEngineRecovered.message());
    assert_ne!(
        DaemonNotice::CaptureEngineUnavailable.title(),
        DaemonNotice::CaptureEngineRecovered.title()
    );
}

#[test]
fn backend_recovery_is_limited_to_session_invalidating_errors() {
    assert!(requires_backend_recovery(CaptureErrorKind::AccessLost));
    assert!(requires_backend_recovery(CaptureErrorKind::DeviceRemoved));
    assert!(!requires_backend_recovery(CaptureErrorKind::Timeout));
    assert_eq!(recovery_delay(1), 50);
    assert_eq!(recovery_delay(99), 1_600);
}

#[test]
fn recovery_delays_double_up_to_their_limit() {
    let delays: Vec<u64> = (0..8).map(recovery_delay).collect();
    assert_eq!(delays, [50, 50, 100, 200, 400, 800, 1_600, 1_600]);
}

#[test]
fn scripted_access_loss_rebuilds_backend_and_retries_capture() {
    let mut retry = CaptureRetry::begin();
    assert_eq!(retry.next, RetryStep::Capture);
    retry.captured(Some(CaptureErrorKind::AccessLost));
    assert_eq!(
        retry.next,
        RetryStep::BackOff {
            attempt: 1,
            delay_ms: 50
        }
    );
    retry.waited(BackoffOutcome::Elapsed);
    retry.rebuilt(true);
    assert_eq!(retry.next, RetryStep::Capture);
    retry.captured(None);
    assert!(retry.failure.is_none());
    assert_eq!(retry.recovery_attempts, 1);
    assert!(!retry.reinitialize_failed);
    assert!(retry.engine_ready);
}

#[test]
fn a_shutdown_during_the_back_off_stops_retrying_instead_of_rebuilding() {
    let mut retry = CaptureRetry::begin();
    retry.captured(Some(CaptureErrorKind::AccessLost));
    retry.waited(BackoffOutcome::Stopping);
    assert_eq!(retry.recovery_attempts, 1);
    assert!(!retry.reinitialize_failed);
    assert_eq!(retry.failure, Some(CaptureErrorKind::AccessLost));
    assert!(!retry.engine_ready);
    assert_eq!(retry.next, RetryStep::Done);
}

#[test]
fn a_lost_engine_is_rebuilt_only_so_often() {
    let mut retry = CaptureRetry::begin();
    let mut rebuilds = 0;
    while retry.next != RetryStep::Done {
        match retry.next {
            RetryStep::Capture => retry.captured(Some(CaptureErrorKind::DeviceRemoved)),
            RetryStep::BackOff { .. } => retry.waited(BackoffOutcome::Elapsed),
            RetryStep::Rebuild => {
                rebuilds += 1;
                retry.rebuilt(true);
            }
            RetryStep::Done => unreachable!(),
        }
    }
    assert_eq!(rebuilds, 3);
    assert_eq!(retry.failure, Some(CaptureErrorKind::DeviceRemoved));
    assert!(retry.engine_ready);

    let mut retry = CaptureRetry::begin();
    retry.captured(Some(CaptureErrorKind::TopologyChanged));
    retry.waited(BackoffOutcome::Elapsed);
    retry.rebuilt(false);
    assert_eq!(retry.next, RetryStep::Done);
    assert!(retry.reinitialize_failed && !retry.engine_ready);
}

#[test]
fn a_back_off_that_is_never_interrupted_waits_out_its_whole_delay() {
    let delay = 30_000_000;
    let mut now = 1_000;
    let deadline = now + delay;
    let mut slept = 0;
    loop {
        match wait_for_backoff(deadline, now, false) {
            BackoffStep::Sleep(nanoseconds) => {
                assert!(nanoseconds > 0 && nanoseconds <= 10_000_000);
                slept += nanoseconds;
                now += nanoseconds;
            }
            BackoffStep::Ended(outcome) => {
                assert_eq!(outcome, BackoffOutcome::Elapsed);
                break;
            }
        }
    }
    assert!(slept >= delay);

    assert_eq!(
        wait_for_backoff(now + 2_000_000_000, now, true),
        BackoffStep::Ended(BackoffOutcome::Stopping)
    );
}

#[test]
fn disconnected_clipboard_worker_does_not_invalidate_capture() {
    let status = dispatch_destinations(&vec![Submission::Disconnected {
        metrics_error: None,
    }])
    .expect("capture remains successful");
    assert_eq!(status, "worker_disconnected");
}

#[test]
fn one_destination_that_accepts_is_enough() {
    let full = || Submission::Full {
        metrics_error: None,
    };
    assert_eq!(
        dispatch_destinations(&vec![full(), Submission::Accepted]),
        Ok("queued")
    );
    assert_eq!(
        dispatch_destinations(&vec![Submission::Accepted, full()]),
        Ok("queued")
    );
    assert_eq!(dispatch_destinations(&Vec::new()), Ok("disabled"));
    assert_eq!(dispatch_destinations(&vec![full()]), Ok("queue_full"));
    assert!(selection_status(
        Submission::Full {
            metrics_error: Some("order".to_owned())
        },
        true
    )
    .is_err());
    assert_eq!(
        selection_status(Submission::Accepted, true),
        Ok("live_selection_queued")
    );
}

#[test]
fn every_hotkey_action_has_exactly_one_route() {
    assert_eq!(
        action_route(HotkeyAction::LastWorkflow),
        ActionRoute::Overlay(InitialSelectionTool::Remembered)
    );
    assert_eq!(
        action_route(HotkeyAction::Region),
        ActionRoute::Overlay(InitialSelectionTool::Region)
    );
    assert_eq!(
        action_route(HotkeyAction::Window),
        ActionRoute::Overlay(InitialSelectionTool::Window)
    );
    assert_eq!(
        action_route(HotkeyAction::FullDisplay),
        ActionRoute::FullDisplay
    );
    assert_eq!(
        action_route(HotkeyAction::RepeatLastRegion),
        ActionRoute::RepeatLastRegion
    );
    assert!(!action_requires_selection(HotkeyAction::LastWorkflow));
    assert!(!action_requires_selection(HotkeyAction::FullDisplay));
    assert!(action_requires_selection(HotkeyAction::Region));
    assert!(action_requires_selection(HotkeyAction::Window));
    assert!(action_requires_selection(HotkeyAction::RepeatLastRegion));
}

fn repeat_metadata(source_rect: Rect) -> FrameMetadata {
    FrameMetadata {
        capture_id: CaptureId(42),
        backend: "test".to_owned(),
        display_id: DisplayId("display-a".to_owned()),
        source_rect,
        rotation_degrees: 0,
        capture_mode: CaptureMode::Latest { max_age_ms: None },
        presentation_offset_ns: Some(0),
        timing_provenance: TimingProvenance::Synthetic,
        native_ready_offset_ns: 1,
        cpu_ready_offset_ns: Some(2),
        frame_age_ns: Some(0),
        frame_generation: Some(1),
        copy_count: 1,
        pool_slot: Some(0),
    }
}

#[test]
fn repeat_region_validates_source_and_preserves_negative_display_origins() {
    let metadata = repeat_metadata(Rect {
        x: -1920,
        y: -240,
        width: 3840,
        height: 2160,
    });
    let confirmed = ConfirmedRegion {
        region: CaptureRegion {
            x: 40,
            y: 20,
            width: 800,
            height: 600,
        },
        source: CaptureRegionSource {
            width: 3840,
            height: 2160,
            rotation_degrees: 0,
        },
    };
    assert_eq!(
        repeat_region_rect(Some(confirmed), &metadata),
        Ok(Rect {
            x: -1880,
            y: -220,
            width: 800,
            height: 600,
        })
    );
}

#[test]
fn missing_stale_and_out_of_bounds_repeat_regions_fall_back() {
    let metadata = repeat_metadata(Rect {
        x: 0,
        y: 0,
        width: 3840,
        height: 2160,
    });
    assert_eq!(
        repeat_region_rect(None, &metadata),
        Err("missing_confirmed_region")
    );
    let stale = ConfirmedRegion {
        region: CaptureRegion {
            x: 0,
            y: 0,
            width: 100,
            height: 100,
        },
        source: CaptureRegionSource {
            width: 1920,
            height: 1080,
            rotation_degrees: 0,
        },
    };
    assert_eq!(
        repeat_region_rect(Some(stale), &metadata),
        Err("source_geometry_changed")
    );
    let outside = ConfirmedRegion {
        region: CaptureRegion {
            x: 3800,
            y: 2100,
            width: 100,
            height: 100,
        },
        source: CaptureRegionSource {
            width: 3840,
            height: 2160,
            rotation_degrees: 0,
        },
    };
    assert_eq!(
        repeat_region_rect(Some(outside), &metadata),
        Err("invalid_region_bounds")
    );
}

#[test]
fn a_capture_goes_where_its_action_says() {
    let metadata = repeat_metadata(Rect {
        x: 0,
        y: 0,
        width: 100,
        height: 100,
    });
    let routed = route_output(
        HotkeyAction::RepeatLastRegion,
        true,
        None,
        &metadata,
        PreviewMode::Live,
    )
    .expect("a fallback");
    assert_eq!(routed.fallback_reason, Some("missing_confirmed_region"));
    assert_eq!(
        routed.route,
        OutputRoute::Selection {
            tool: InitialSelectionTool::Region,
            preview: PreviewMode::Frozen
        }
    );
    assert!(route_output(
        HotkeyAction::Window,
        false,
        None,
        &metadata,
        PreviewMode::Auto
    )
    .is_err());
    let direct = route_output(
        HotkeyAction::LastWorkflow,
        false,
        None,
        &metadata,
        PreviewMode::Auto,
    )
    .expect("direct");
    assert_eq!(direct.route, OutputRoute::Destinations);
    assert!(live_selection_tool(HotkeyAction::FullDisplay).is_err());
}

fn worker_settings(max_captures: Option<usize>) -> WorkerSettings {
    WorkerSettings {
        selection_enabled: true,
        selection_preview: PreviewMode::Auto,
        max_captures,
        cpu_frame: true,
    }
}

#[test]
fn the_capture_loop_counts_its_attempts_and_selections() {
    let settings = worker_settings(Some(1));
    let mut state = CaptureLoop::new();
    assert_eq!(state.poll(&settings, false, 0), LoopStep::Receive(None));
    assert_eq!(
        state.trigger(&settings, HotkeyAction::Region),
        TriggerStep::LiveSelection(CaptureId(1))
    );
    assert_eq!(
        state.dispatched(Ok("live_selection_queued")),
        Ok("live_selection_queued")
    );
    assert_eq!(state.selections_in_flight, 1);
    assert_eq!(
        state.trigger(&settings, HotkeyAction::Region),
        TriggerStep::Ignored
    );
    assert_eq!(state.poll(&settings, false, 0), LoopStep::Receive(None));
    state.selection_finished();
    assert_eq!(state.poll(&settings, false, 0), LoopStep::Finish);
    assert_eq!(
        CaptureLoop::new().poll(&settings, true, 0),
        LoopStep::Finish
    );
}

#[test]
fn a_limit_counts_the_first_triggers_and_numbers_them() {
    let settings = worker_settings(Some(2));
    let mut state = CaptureLoop::new();
    let steps: Vec<TriggerStep> = (0..4)
        .map(|_| state.trigger(&settings, HotkeyAction::FullDisplay))
        .collect();
    assert!(matches!(
        steps[..],
        [
            TriggerStep::Capture {
                id: CaptureId(1),
                ..
            },
            TriggerStep::Capture {
                id: CaptureId(2),
                retain_native_frame: false,
                ..
            },
            TriggerStep::Ignored,
            TriggerStep::Ignored
        ]
    ));
    assert_eq!(state.attempts, 2);
    assert_eq!(state.next_capture_id, 3);
}

#[test]
fn an_outage_is_announced_once_and_so_is_its_end() {
    let settings = worker_settings(None);
    let mut state = CaptureLoop::new();
    let mut retry = CaptureRetry::begin();
    retry.captured(Some(CaptureErrorKind::AccessLost));
    retry.waited(BackoffOutcome::Elapsed);
    retry.rebuilt(false);
    state.capture_ended(&retry, 0);
    let mut now = 0;
    let mut notices = Vec::new();
    for _ in 0..6 {
        while state.poll(&settings, false, now) != LoopStep::Reinitialize {
            now += state.wait_limit(now).expect("recovering");
        }
        let report = state.reinitialized(false, now);
        notices.extend(report.notice);
    }
    assert_eq!(notices, vec![DaemonNotice::CaptureEngineUnavailable]);
    assert!(matches!(
        state.trigger(&settings, HotkeyAction::FullDisplay),
        TriggerStep::EngineRecovering(_)
    ));
    let report = state.reinitialized(true, now);
    assert_eq!(report.notice, Some(DaemonNotice::CaptureEngineRecovered));
}

#[test]
fn messages_are_not_repeated_in_a_row() {
    let mut last = LastMessage::new();
    assert!(last.admit_message("a"));
    assert!(!last.admit_message("a"));
    assert!(last.admit_message("b"));
    assert!(last.admit_message("a"));
}

#[test]
fn a_slow_capture_join_cannot_spend_the_whole_shutdown_budget() {
    let now = 5_000_000_000;
    let teardown_deadline = now + DAEMON_SHUTDOWN_TIMEOUT;

    let capture_deadline = reserved_deadline(now, teardown_deadline, WORKER_TEARDOWN_RESERVE);

    assert_eq!(
        capture_deadline,
        teardown_deadline - WORKER_TEARDOWN_RESERVE
    );
    assert_eq!(
        teardown_deadline.saturating_sub(capture_deadline),
        WORKER_TEARDOWN_RESERVE
    );
    assert!(WORKER_TEARDOWN_RESERVE < DAEMON_SHUTDOWN_TIMEOUT);
}

#[test]
fn an_exhausted_shutdown_budget_reserves_nothing_and_waits_for_nothing() {
    let base = 7;
    let now = base + 10_000_000_000;

    assert_eq!(reserved_deadline(now, base, WORKER_TEARDOWN_RESERVE), now);
    assert_eq!(
        reserved_deadline(
            now,
            now + WORKER_TEARDOWN_RESERVE / 2,
            WORKER_TEARDOWN_RESERVE
        ),
        now
    );
    assert_eq!(
        reserved_deadline(now, now + WORKER_TEARDOWN_RESERVE, WORKER_TEARDOWN_RESERVE),
        now
    );
    assert_eq!(guaranteed_deadline(now, base, 9), now + 9);
}

#[test]
fn a_second_shutdown_request_leaves_the_first_deadline() {
    let mut registry = WorkerRegistry::new();
    registry.has_clipboard = true;
    assert!(!registry.is_shutting_down());
    let asked = registry.begin_shutdown(10).expect("a shutdown");
    assert_eq!(asked, vec![Worker::Capture, Worker::Clipboard]);
    let first = registry.deadline.expect("a deadline");
    assert!(registry.paused && registry.capture_stop_requested);
    assert!(registry.begin_shutdown(99).is_none());
    assert_eq!(registry.deadline, Some(first));
    assert!(!registry.deadline_expired(first - 1));
    assert!(registry.deadline_expired(first));
}

#[test]
fn a_full_queue_leaves_the_shutdown_command_outstanding() {
    let mut registry = WorkerRegistry::new();
    registry.send_capture_shutdown(QueueAnswer::Full);
    assert!(registry.owes_capture_shutdown());
    registry.send_capture_shutdown(QueueAnswer::Accepted);
    assert!(!registry.owes_capture_shutdown());
    let mut registry = WorkerRegistry::new();
    registry.send_capture_shutdown(QueueAnswer::Disconnected);
    assert!(!registry.owes_capture_shutdown());
}

#[test]
fn a_teardown_asks_every_worker_without_a_shutdown_before_it() {
    let mut registry = WorkerRegistry::new();
    registry.has_hotkey = true;
    registry.has_file_output = true;
    let (asked, steps) = registry.teardown(100);
    assert_eq!(
        asked,
        vec![Worker::Capture, Worker::FileOutput, Worker::Hotkey]
    );
    let deadline = 100 + DAEMON_SHUTDOWN_TIMEOUT;
    assert_eq!(
        steps,
        vec![
            TeardownStep::StopHotkey { deadline },
            TeardownStep::SendCaptureShutdown,
            TeardownStep::JoinCapture {
                deadline,
                reserve: WORKER_TEARDOWN_RESERVE
            },
            TeardownStep::StopFileOutput { deadline },
        ]
    );
    assert!(registry.paused && registry.capture_stop_requested);
    assert_eq!(stop_step(true, 9, 1), StopStep::Join);
    assert_eq!(stop_step(false, 0, 1), StopStep::Wait);
    assert_eq!(stop_step(false, 1, 1), StopStep::Detach);
}

#[test]
fn a_hotkey_is_ignored_while_the_daemon_is_paused_or_stopping() {
    let chord = HotkeyChord::parse("Alt+R").expect("chord");
    let trigger =
        hotkey_trigger(false, false, HotkeyAction::Region, chord, 5, 7).expect("a trigger");
    assert_eq!(trigger.received_at, 5);
    assert_eq!(trigger.enqueued_at, 7);
    assert_eq!(trigger.source, "hotkey");
    assert_eq!(trigger.chord, Some(chord));
    assert!(hotkey_trigger(true, false, HotkeyAction::Region, chord, 5, 7).is_none());
    assert!(hotkey_trigger(false, true, HotkeyAction::Region, chord, 5, 7).is_none());
    assert_eq!(self_test_trigger(3).source, "self_test");
}

#[test]
fn self_triggers_keep_their_distance() {
    let mut repeat = SelfTrigger::begin(Some(2), 0);
    assert!(!repeat.due(1_999_999));
    assert!(repeat.due(2_000_000));
    assert!(!repeat.due(3_999_999));
    assert!(repeat.due(9_000_000));
    assert!(!SelfTrigger::begin(None, 0).due(u64::MAX));
    assert_eq!(
        SelfTrigger::begin(Some(u64::MAX), 0).interval,
        Some(u64::MAX)
    );
}

#[test]
fn a_shutdown_begins_once_and_for_its_first_reason() {
    let mut control = ControlLoop::new(WorkerRegistry::new());
    assert!(matches!(control.begin_turn(false, 0), (None, false)));
    assert!(matches!(control.end_turn(false, false, 0), (None, false)));
    assert!(matches!(
        control.on_tray_event(TrayEvent::Exit, 0),
        TrayAction::Nothing
    ));
    let (start, owed) = control.end_turn(true, true, 10);
    assert_eq!(start.expect("a start").reason, "console shutdown requested");
    assert!(owed);
    let (start, expired) = control.begin_turn(true, 20);
    assert!(start.is_none() && !expired);
    let (_, expired) = control.begin_turn(false, 10 + DAEMON_SHUTDOWN_TIMEOUT);
    assert!(expired);

    let mut control = ControlLoop::new(WorkerRegistry::new());
    let (start, _) = control.begin_turn(true, 0);
    assert_eq!(start.expect("a start").reason, "Windows session is ending");
}

#[test]
fn the_tray_drives_the_daemon() {
    let mut control = ControlLoop::new(WorkerRegistry::new());
    match control.on_tray_event(TrayEvent::Capture, 11) {
        TrayAction::Trigger(trigger) => {
            assert_eq!(trigger.source, "tray");
            assert_eq!(trigger.action, HotkeyAction::LastWorkflow);
            assert_eq!(trigger.received_at, 11);
        }
        _ => panic!("a capture was asked for"),
    }
    assert_eq!(
        control.on_tray_event(TrayEvent::PausedChanged(true), 0),
        TrayAction::Log("Captastic paused from the notification area")
    );
    assert!(control.registry.paused);
    assert_eq!(
        control.on_tray_event(TrayEvent::PruneHistory, 0),
        TrayAction::PruneHistory
    );
    assert_eq!(control.dropped_line(), None);
    control.trigger_dropped();
    assert_eq!(
        control.dropped_line().as_deref(),
        Some("Captastic dropped 1 hotkey trigger(s) because the queue was full")
    );
    assert_eq!(control.persistence_message("disk full", false), None);
    assert_eq!(
        control.persistence_message("disk full", true).as_deref(),
        Some("Captastic could not save selection preferences. disk full")
    );
    assert_eq!(control.persistence_message("disk full", true), None);
    let notice = DaemonNotice::CaptureEngineUnavailable;
    assert!(control.notice_message(&notice).is_some());
    assert!(control.notice_message(&notice).is_none());
    assert!(control
        .notice_message(&DaemonNotice::CaptureEngineRecovered)
        .is_some());
    assert!(control.notice_message(&notice).is_some());
}

#[test]
fn the_daemon_ends_as_its_worker_does() {
    assert!(ControlLoop::on_news(WorkerNews::Nothing).is_none());
    assert_eq!(ControlLoop::on_news(WorkerNews::Ended(Ok(()))), Some(Ok(())));
    assert_eq!(
        ControlLoop::on_news(WorkerNews::Gone),
        Some(Err(AppError::BackendUnavailable(
            "capture worker stopped unexpectedly".to_owned()
        )))
    );
    assert_eq!(final_result(None, Ok(())), Ok(()));
    let error = CaptureError {
        kind: CaptureErrorKind::NativeFailure,
        message: "hook".to_owned(),
    };
    assert!(matches!(
        final_result(Some(error), Ok(())),
        Err(AppError::Capture(_))
    ));
    assert!(matches!(
        run(DaemonArgs::default()),
        Err(AppError::BackendUnavailable(_))
    ));
}

#[test]
fn the_last_capture_is_the_newest_that_is_still_there() {
    let history = || CaptureHistory {
        schema_version: 1,
        entries: ["new", "old"]
            .iter()
            .map(|name| HistoryEntry {
                path: (*name).to_owned(),
                captured_at_micros: 0,
                bytes: 1,
                width: 1,
                height: 1,
                display: "primary".to_owned(),
                mode: "region".to_owned(),
            })
            .collect(),
    };
    assert_eq!(
        latest_capture(Ok(history()), &vec![true, true]),
        Ok(Some("new".to_owned()))
    );
    assert_eq!(
        latest_capture(Ok(history()), &vec![false, true]),
        Ok(Some("old".to_owned()))
    );
    let gone = latest_capture(Ok(history()), &vec![false, false]);
    assert_eq!(gone, Ok(None));
    assert!(last_capture_problem(LastCaptureWish::Open, &gone)
        .expect("a problem")
        .contains("no remembered capture to open"));
    assert_eq!(
        last_capture_problem(LastCaptureWish::ShowFolder, &Ok(Some("x".to_owned()))),
        None
    );
    assert!(last_capture_problem(
        LastCaptureWish::ShowFolder,
        &Err(ConfigError::HomeDirectoryUnavailable)
    )
    .expect("a problem")
    .contains("could not read its capture history"));
}

#[test]
fn opening_the_configuration_says_what_went_wrong() {
    let prepared = Ok("captastic.toml".to_owned());
    assert_eq!(open_config_problem(&prepared, true, None), None);
    assert_eq!(
        open_config_problem(&prepared, false, None).as_deref(),
        Some("configuration does not exist: captastic.toml")
    );
    assert_eq!(
        open_config_problem(&prepared, true, Some("denied")).as_deref(),
        Some("failed to open configuration: denied")
    );
    assert!(
        open_config_problem(&Err(ConfigError::HomeDirectoryUnavailable), true, None)
            .expect("a problem")
            .starts_with("failed to prepare the configuration: ")
    );
    assert_eq!(
        file_failure_message(CaptureId(4), "disk full"),
        "Capture 4 was not saved to disk. disk full"
    );
    assert!(retained_file_failure(CaptureId(4), "x").contains("capture 4"));
}

#[test]
fn tray_commands_say_what_came_of_them() {
    assert_eq!(
        problem_title(&TrayAction::OpenConfig),
        Some("Captastic could not open configuration")
    );
    assert_eq!(
        problem_title(&TrayAction::PruneHistory),
        Some("Captastic capture history")
    );
    assert_eq!(problem_title(&TrayAction::OpenLogs), None);
    assert_eq!(
        open_capture_failure(LastCaptureWish::Open, "denied"),
        "Captastic could not open the capture: denied"
    );
    assert_eq!(
        open_capture_failure(LastCaptureWish::ShowFolder, "denied"),
        "Captastic could not open the folder: denied"
    );
    assert_eq!(
        prune_outcome(&Ok(3)),
        Ok("capture history pruned; 3 entr(ies) forgotten".to_owned())
    );
    assert!(prune_outcome(&Err(ConfigError::HomeDirectoryUnavailable))
        .expect_err("a problem")
        .starts_with("Captastic could not prune its capture history: "));
    assert_eq!(
        startup_outcome(&Ok(true)),
        Ok("launch at login enabled from the notification area".to_owned())
    );
    assert_eq!(
        startup_outcome(&Ok(false)),
        Ok("launch at login disabled from the notification area".to_owned())
    );
    assert_eq!(
        startup_outcome(&Err(CaptureError {
            kind: CaptureErrorKind::PermissionDenied,
            message: "denied".to_owned(),
        })),
        Err("failed to change launch-at-login state: denied".to_owned())
    );
}

#[test]
fn what_could_not_be_announced_is_kept_in_the_log() {
    assert_eq!(
        retained_persistence_failure("disk full"),
        "shutdown retained UI-state persistence failure in the persistent log: disk full"
    );
    assert_eq!(
        retained_notice(&DaemonNotice::CaptureEngineRecovered),
        "shutdown retained a daemon notice in the persistent log: The capture engine recovered. \
         Captures are running again."
    );
    assert_eq!(stopped_line(true), "Captastic stopped cleanly");
    assert_eq!(stopped_line(false), "daemon stopped cleanly");
}

#[test]
fn a_daemon_that_is_ready_says_what_it_runs_with() {
    let mut settings = settings();
    settings.clipboard = true;
    settings.selection = false;
    settings.file_output = false;
    settings.clipboard_queue_capacity = 3;
    settings.hotkey_bindings = vec![HotkeyBinding {
        action: HotkeyAction::Region,
        chord: HotkeyChord::parse("shift+ctrl+f9").expect("chord"),
    }];
    let mut display = serde_json::Map::new();
    display.insert("id".to_owned(), serde_json::Value::from("left"));
    let engine = engine_ready("fake", &settings.display_policy, vec![display]);
    let text = ready(&settings, engine, None, true, Some("captastic.log"));
    let event: serde_json::Value = serde_json::from_str(&text).expect("JSON");
    assert_eq!(event["event"], "ready");
    assert_eq!(event["hotkeys"][0]["action"], "region");
    assert_eq!(event["hotkeys"][0]["chord"], "Ctrl+Shift+F9");
    assert_eq!(event["hotkeys"].as_array().expect("a list").len(), 1);
    assert_eq!(event["capture"]["backend"], "fake");
    assert_eq!(event["capture"]["displays"][0]["id"], "left");
    assert_eq!(
        event["capture"]["configured_display"].as_str(),
        Some(settings.display_policy.as_config_value().as_str())
    );
    assert_eq!(event["clipboard_queue_capacity"], 3);
    assert!(event["selection_queue_capacity"].is_null());
    assert!(event["output_directory"].is_null());
    assert!(event["output_queue_capacity"].is_null());
    assert_eq!(event["tray"], true);
    assert_eq!(event["log_file"], "captastic.log");
    assert_eq!(event.as_object().expect("an object").len(), 14);

    settings.backend = "fake".to_owned();
    assert_eq!(
        ready_line(&settings),
        "Captastic is ready: hotkeys [region=Ctrl+Shift+F9] using fake, selection disabled, \
         clipboard enabled (press Ctrl+C to stop)"
    );
}

#[test]
fn a_captured_frame_is_reported_as_json() {
    let mut metadata = serde_json::Map::new();
    metadata.insert("backend".to_owned(), serde_json::Value::from("fake"));
    let trigger = self_test_trigger(5);
    let text = capture_complete(&trigger, metadata.clone(), Some(16), false, "queued");
    let event: serde_json::Value = serde_json::from_str(&text).expect("JSON");
    assert_eq!(event["event"], "capture_complete");
    assert_eq!(event["source"], "self_test");
    assert_eq!(event["action"], "last_workflow");
    assert!(event["chord"].is_null());
    assert_eq!(event["metadata"]["backend"], "fake");
    assert_eq!(event["cpu_frame_bytes"], 16);
    assert_eq!(event["native_frame_retained"], false);
    assert_eq!(event["output"], "queued");
    let text = capture_complete(&trigger, metadata, None, true, "queued");
    let event: serde_json::Value = serde_json::from_str(&text).expect("JSON");
    assert!(event["cpu_frame_bytes"].is_null());
    assert_eq!(event["native_frame_retained"], true);
}

#[test]
fn bindings_are_listed_in_order() {
    let bind = |action, chord: &str| HotkeyBinding {
        action,
        chord: HotkeyChord::parse(chord).expect("chord"),
    };
    assert_eq!(active_hotkey_labels(&Vec::new()), "");
    assert_eq!(
        active_hotkey_labels(&vec![
            bind(HotkeyAction::LastWorkflow, "ctrl+shift+f9"),
            bind(HotkeyAction::Region, "alt+r"),
        ]),
        "last_workflow=Ctrl+Shift+F9, region=Alt+R"
    );
}
