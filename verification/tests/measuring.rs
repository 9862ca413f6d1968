use captastic::benchmark::{
    capture_error_kind_label, check_iterations, check_queue, check_repeat,
    critical_path_order_verified, cursor_outcome_label, has_complete_capture_path, join_texts,
    metrics_capacity, report, request, run_repeated, AttemptOutcome, BenchmarkOptions,
    BenchmarkReport, BenchmarkTally, CursorAbsence, CursorCapture, PerfEvent, PerfEventKind,
    RunCompatibility, RunSummaries,
};
use captastic::budget::{
    any_breached, evaluate, evaluate_each, AbsoluteBudgets, BudgetCheck, BudgetFile, HostMatch,
};
use captastic::build_identity::{parse_bool, parse_number, write_build_info, BuildInputs};
use captastic::capture::{
    CaptureErrorKind, CaptureId, CaptureMode, CaptureSource, CursorMode, DisplayId, DisplayInfo,
    Rect,
};
use captastic::compare::{
    compare, extremes, median, not_json, not_runs, run_file_shape, shape_of, unreadable, values,
    verdict, Percentile, RunFileShape, RunSet, Stage, StageFigures, Verdict,
};
use captastic::fingerprint::{
    identity_of, AdapterFingerprint, BuildIdentity, BuildInfo, DisplayHardwareFacts,
    EnvironmentFingerprint, HostFacts, ProcessFacts,
};
use captastic::output_metrics::LatencySummary;

fn options(cursor: CursorMode) -> BenchmarkOptions {
    BenchmarkOptions {
        iterations: 3,
        warmup: 1,
        mode: CaptureMode::Latest { max_age_ms: None },
        cpu_frame: true,
        cursor,
        source: CaptureSource::Display(DisplayId::primary()),
        trigger_queue_capacity: 4,
        metrics_capacity: 128,
    }
}

fn build_info() -> BuildInfo {
    BuildInfo {
        release_version: "0.1.0",
        version: "0.1.0-dev.7",
        channel: "development",
        git_commit: Some("0123456789abcdef"),
        git_short_commit: Some("0123456789ab"),
        revision_count: Some(7),
        source_tag: None,
        dirty: true,
        ci_run_id: Some("9"),
        ci_run_number: Some(3),
        ci_run_attempt: None,
        ci_run_url: None,
        target: "x86_64-unknown-linux-gnu",
        profile: "release",
    }
}

fn process() -> ProcessFacts {
    ProcessFacts {
        os: "linux".to_owned(),
        architecture: "x86_64".to_owned(),
        build: BuildIdentity::of(&build_info()),
        debug_assertions: false,
        logical_cpus: Some(8),
        now_micros: 0,
    }
}

fn summary(p50: u64, p99: u64) -> LatencySummary {
    LatencySummary {
        count: 100,
        min_ns: p50 / 2,
        p50_ns: p50,
        p90_ns: p99,
        p95_ns: p99,
        p99_ns: p99,
        max_ns: p99,
        mean_ns: p50,
    }
}

fn success(cursor: CursorCapture) -> AttemptOutcome {
    AttemptOutcome::Captured {
        native_ready_offset_ns: 10,
        cpu_ready_offset_ns: Some(25),
        frame_age_ns: Some(5),
        cursor: Some(cursor),
    }
}

fn tally(attempts: u64) -> BenchmarkTally {
    let mut tally = BenchmarkTally::new();
    for index in 1..=attempts {
        tally.attempt(CaptureId(index), 1, success(CursorCapture::Excluded));
    }
    tally
}

fn run_report(options: &BenchmarkOptions) -> BenchmarkReport {
    let summaries = RunSummaries {
        trigger_to_dequeue: summary(100, 200),
        native_frame: summary(1_000, 2_000),
        cpu_frame: summary(3_000, 4_000),
        readback: summary(500, 900),
        frame_age: summary(50, 60),
    };
    report(
        options,
        tally(options.iterations as u64),
        "fake",
        summaries,
        0,
        true,
        EnvironmentFingerprint::collect(&Vec::new(), HostFacts::default(), process()),
    )
}

#[test]
fn compatible_repeats_are_summarised_by_their_spread() {
    let options = options(CursorMode::Exclude);
    let repeated = run_repeated(vec![
        run_report(&options),
        run_report(&options),
        run_report(&options),
    ]);

    assert_eq!(repeated.runs.len(), 3);
    assert!(repeated.incompatibilities.is_empty());
    let agreement = repeated.agreement.expect("compatible runs are summarised");
    assert_eq!(agreement.runs, 3);
    assert_eq!(agreement.native_p50_ns.len(), 3);
    assert_eq!(agreement.total_successes, 9);
    assert_eq!(agreement.total_failures, 0);
}

fn compatibility(cursor: &str) -> RunCompatibility {
    RunCompatibility {
        backend: "fake".to_owned(),
        mode: "latest".to_owned(),
        cursor: cursor.to_owned(),
        cpu_frame: true,
        synthetic: true,
        build: "0.1.0".to_owned(),
        debug_assertions: false,
        displays: vec!["primary:1920x1080@0".to_owned()],
    }
}

#[test]
fn a_run_that_measured_something_else_is_refused_rather_than_averaged() {
    let mut with_cursor = compatibility("include");
    let without_cursor = compatibility("exclude");
    let differences = with_cursor.differences(&without_cursor);
    assert_eq!(differences.len(), 1);
    assert!(differences[0].contains("cursor"), "{differences:?}");

    with_cursor.displays = vec!["primary:3840x2160@0".to_owned()];
    with_cursor.debug_assertions = true;
    with_cursor.build = "0.2.0".to_owned();
    let differences = with_cursor.differences(&without_cursor);
    assert_eq!(differences.len(), 4, "{differences:?}");
}

#[test]
fn runs_that_do_not_match_are_not_summed_up() {
    let repeated = run_repeated(vec![
        run_report(&options(CursorMode::Exclude)),
        run_report(&options(CursorMode::Include)),
    ]);
    assert!(repeated.agreement.is_none());
    assert_eq!(repeated.incompatibilities.len(), 1);
    assert!(repeated.incompatibilities[0].contains("cursor"));
    let compatibility = RunCompatibility::of(&run_report(&options(CursorMode::Exclude)));
    assert_eq!(compatibility.cursor, "exclude");
    assert_eq!(compatibility.build, "0.1.0-dev.7");
    assert_eq!(repeated.compatibility, compatibility);
}

#[test]
fn repeating_zero_times_is_refused() {
    assert!(check_repeat(0).is_err());
    assert!(check_repeat(1).is_ok());
}

#[test]
fn critical_path_requires_every_mandatory_event() {
    let id = CaptureId(7);
    let events = vec![PerfEvent {
        capture_id: id,
        kind: PerfEventKind::HotkeyReceived,
        ticks_ns: 0,
        value: 0,
    }];
    assert!(!has_complete_capture_path(&events, id, true));
}

#[test]
fn a_complete_path_holds_every_event_of_its_capture() {
    let every = |id: u64| -> Vec<PerfEvent> {
        [
            PerfEventKind::HotkeyReceived,
            PerfEventKind::TriggerEnqueued,
            PerfEventKind::TriggerDequeued,
            PerfEventKind::CaptureRequested,
            PerfEventKind::NativeFrameReady,
            PerfEventKind::ReadbackStarted,
            PerfEventKind::CpuFrameReady,
            PerfEventKind::AttemptFinished,
        ]
        .into_iter()
        .map(|kind| PerfEvent {
            capture_id: CaptureId(id),
            kind,
            ticks_ns: 0,
            value: 0,
        })
        .collect()
    };
    let events = every(1);
    assert!(has_complete_capture_path(&events, CaptureId(1), true));
    assert!(!has_complete_capture_path(&events, CaptureId(2), true));
    for missing in 0..events.len() {
        let mut some = every(1);
        let kind = some.remove(missing).kind;
        let needless = kind == PerfEventKind::ReadbackStarted || kind == PerfEventKind::CpuFrameReady;
        assert!(!has_complete_capture_path(&some, CaptureId(1), true));
        assert_eq!(
            has_complete_capture_path(&some, CaptureId(1), false),
            needless,
            "{kind:?}"
        );
    }
    let ids = vec![CaptureId(1)];
    assert!(critical_path_order_verified(0, &ids, &events, true));
    assert!(!critical_path_order_verified(1, &ids, &events, true));
    assert!(!critical_path_order_verified(
        0,
        &vec![CaptureId(1), CaptureId(2)],
        &events,
        true
    ));
}

#[test]
fn every_attempt_is_counted_under_its_outcome() {
    let mut tally = tally(2);
    tally.attempt(
        CaptureId(3),
        4,
        AttemptOutcome::Failed(CaptureErrorKind::Timeout),
    );
    tally.attempt(
        CaptureId(4),
        4,
        AttemptOutcome::Failed(CaptureErrorKind::AccessLost),
    );
    tally.attempt(
        CaptureId(5),
        4,
        success(CursorCapture::Absent {
            reason: CursorAbsence::NotVisible,
        }),
    );
    assert_eq!(tally.attempts, 5);
    assert_eq!(tally.failures, 2);
    assert_eq!(tally.timeouts, 1);
    assert_eq!(tally.failures_by_kind.get("timeout"), Some(&1));
    assert_eq!(tally.failures_by_kind.get("access_lost"), Some(&1));
    assert_eq!(tally.trigger_to_dequeue_samples, vec![1, 1, 4, 4, 4]);
    assert_eq!(tally.native_samples, vec![10, 10, 10]);
    assert_eq!(tally.readback_samples, vec![15, 15, 15]);
    assert_eq!(
        tally.successful_ids,
        vec![CaptureId(1), CaptureId(2), CaptureId(5)]
    );
    let outcomes: usize = (0..tally.cursor_outcomes.len())
        .map(|i| *tally.cursor_outcomes.value_at(i))
        .sum();
    assert_eq!(outcomes, 3);
    assert_eq!(
        tally
            .cursor_outcomes
            .get(cursor_outcome_label(Some(CursorCapture::Excluded))),
        Some(&2)
    );
    assert_eq!(
        capture_error_kind_label(CaptureErrorKind::PointerOutsideDisplays),
        "pointer_outside_displays"
    );
}

#[test]
fn a_run_without_iterations_or_queue_is_refused() {
    let mut none = options(CursorMode::Exclude);
    none.iterations = 0;
    assert!(check_iterations(&none).is_err());
    none.iterations = 1;
    assert!(check_iterations(&none).is_ok());
    none.trigger_queue_capacity = 0;
    assert!(check_queue(&none).is_err());
    none.trigger_queue_capacity = 1;
    assert!(check_queue(&none).is_ok());
    assert!(metrics_capacity(usize::MAX) > 0);
    let asked = request(4, &none);
    assert_eq!(asked.id, CaptureId(4));
    assert!(asked.cpu_frame && !asked.retain_native_frame);
    assert_eq!(asked.source, CaptureSource::Display(DisplayId::primary()));
    assert_eq!(
        join_texts(&vec!["a".to_owned(), "b".to_owned()], "; "),
        "a; b"
    );
}

fn here() -> BenchmarkReport {
    run_report(&BenchmarkOptions {
        iterations: 1,
        warmup: 0,
        ..options(CursorMode::Exclude)
    })
}

#[test]
fn a_budget_for_another_machine_is_skipped_rather_than_failed() {
    let mut report = here();
    report.environment.debug_assertions = true;
    let budget = BudgetFile {
        host: HostMatch {
            description: "the bench box".to_owned(),
            backend: Some("dxgi".to_owned()),
            debug_assertions: Some(false),
            ..HostMatch::default()
        },
        absolute: AbsoluteBudgets {
            native_frame_p50_ns: Some(1),
            ..AbsoluteBudgets::default()
        },
    };

    let outcome = evaluate(&budget, &report, Vec::new());
    assert!(!outcome.applied());
    assert!(!outcome.breached());
    assert!(outcome.checks.is_empty());
    assert_eq!(outcome.skipped_because.len(), 2, "{outcome:?}");
    let text = outcome.to_text();
    assert!(text.contains("were not applied"), "{text}");
    assert!(text.contains("nothing was judged"), "{text}");
}

#[test]
fn a_budget_for_this_machine_is_enforced() {
    let mut report = here();
    report.native_frame_latency = summary(1_000, 3_000);
    let budget = BudgetFile {
        host: HostMatch {
            description: "here".to_owned(),
            backend: Some("fake".to_owned()),
            ..HostMatch::default()
        },
        absolute: AbsoluteBudgets {
            native_frame_p50_ns: Some(2_000),
            ..AbsoluteBudgets::default()
        },
    };

    let outcome = evaluate(&budget, &report, Vec::new());
    assert!(outcome.applied());
    assert!(!outcome.breached());
    assert_eq!(outcome.checks.len(), 1);

    report.native_frame_latency = summary(9_000, 12_000);
    let outcome = evaluate(&budget, &report, Vec::new());
    assert!(outcome.breached());
    assert!(outcome.to_text().contains("BREACH"), "{}", outcome.to_text());
}

#[test]
fn every_repeat_must_meet_a_budget_for_it_to_be_met() {
    let budget = BudgetFile {
        host: HostMatch::default(),
        absolute: AbsoluteBudgets {
            native_frame_p50_ns: Some(2_000),
            ..AbsoluteBudgets::default()
        },
    };
    let good = || {
        let mut good = here();
        good.native_frame_latency = summary(1_000, 1_200);
        good
    };
    let mut bad = here();
    bad.native_frame_latency = summary(9_000, 9_500);

    let all_good = evaluate_each(
        &budget,
        &vec![good(), good(), good()],
        vec![Vec::new(), Vec::new(), Vec::new()],
    );
    assert_eq!(all_good.len(), 3);
    assert!(!any_breached(&all_good));

    let mixed = evaluate_each(
        &budget,
        &vec![good(), bad, good()],
        vec![Vec::new(), Vec::new(), Vec::new()],
    );
    assert!(any_breached(&mixed));
    assert_eq!(mixed.iter().filter(|outcome| outcome.breached()).count(), 1);
}

#[test]
fn an_empty_host_matches_anywhere() {
    let budget = BudgetFile {
        host: HostMatch::default(),
        absolute: AbsoluteBudgets::default(),
    };
    let failure_rate = BudgetCheck {
        name: "failure rate".to_owned(),
        limit: "0.00%".to_owned(),
        measured: "0.00%".to_owned(),
        met: true,
    };
    let outcome = evaluate(&budget, &here(), vec![failure_rate]);
    assert!(outcome.applied());
    assert_eq!(outcome.checks.len(), 1);
}

fn one_run(label: &str) -> RunSet {
    pinned(label, &[(1_000, 2_000)])
}

fn pinned(label: &str, figures: &[(u64, u64)]) -> RunSet {
    RunSet {
        label: label.to_owned(),
        runs: figures
            .iter()
            .map(|&(p50, p95)| {
                let mut run = run_report(&options(CursorMode::Exclude));
                run.native_frame_latency.p50_ns = p50;
                run.native_frame_latency.p95_ns = p95;
                run
            })
            .collect(),
    }
}

#[test]
fn a_host_that_changed_is_named_field_by_field_rather_than_compared() {
    let baseline = one_run("baseline.json");
    let mut candidate = one_run("candidate.json");
    candidate.runs[0].environment.os_build = Some("26200.9999 (25H2)".to_owned());
    candidate.runs[0].environment.session = Some("remote".to_owned());
    candidate.runs[0].cursor = "include".to_owned();

    let error = compare(&baseline, &candidate).expect_err("the hosts differ");
    let message = error.message();
    for field in ["os_build", "session", "cursor"] {
        assert!(message.contains(field), "{field} is not named in {message}");
    }
    assert!(message.contains("26200.9999"), "{message}");
    assert!(message.contains("remote"), "{message}");
    assert!(message.contains("baseline.json"), "{message}");
    assert_eq!(error.exit_code(), 2);
}

#[test]
fn the_moment_of_a_run_is_not_compared() {
    let baseline = one_run("baseline.json");
    let mut candidate = one_run("candidate.json");
    candidate.runs[0].environment.recorded_at_utc = "2031-05-06T07:08:09.000000Z".to_owned();
    assert!(compare(&baseline, &candidate).is_ok());
}

#[test]
fn matching_sets_are_compared_stage_by_stage() {
    let baseline = pinned("baseline", &[(1_000_000, 2_000_000), (1_300_000, 2_100_000)]);
    let candidate = pinned("candidate", &[(1_500_000, 2_200_000)]);
    let comparison = compare(&baseline, &candidate).expect("the hosts match");
    assert_eq!(comparison.stages.len(), 5);
    let native = comparison
        .stages
        .iter()
        .find(|figures| figures.stage.name() == "native_frame")
        .expect("the native stage is compared");
    assert_eq!(native.baseline_p50_ns, 1_300_000);
    assert_eq!(native.candidate_p50_ns, 1_500_000);
    assert_eq!(native.candidate_p95_ns, 2_200_000);
    assert_eq!(native.baseline_p50s, vec![1_000_000, 1_300_000]);
    assert_eq!(comparison.cursor_outcomes.baseline.get("excluded"), Some(&6));
    assert_eq!(
        comparison.cursor_outcomes.candidate.get("excluded"),
        Some(&3)
    );
    assert_eq!(baseline.cursor_outcomes().get("excluded"), Some(&6));
    assert_eq!(
        values(&baseline.runs, Stage::NativeFrame, Percentile::P95),
        vec![2_000_000, 2_100_000]
    );
}

#[test]
fn a_stage_without_a_denominator_has_no_verdict() {
    assert_eq!(verdict(0, 100, true, false), Verdict::Unmeasurable);
    assert_eq!(verdict(100, 0, false, false), Verdict::Unmeasurable);
    assert_eq!(verdict(100, 101, true, true), Verdict::WithinNoise);
    assert_eq!(verdict(100, 150, false, true), Verdict::Slower);
    assert_eq!(verdict(150, 100, false, false), Verdict::Faster);
    assert_eq!(Verdict::Unmeasurable.as_str(), "unmeasurable");
    assert_eq!(Verdict::WithinNoise.as_str(), "within_noise");
}

#[test]
fn a_median_stands_in_the_middle() {
    assert_eq!(median(&Vec::new()), None);
    assert_eq!(median(&vec![7]), Some(7));
    assert_eq!(median(&vec![9, 1, 5]), Some(5));
    assert_eq!(median(&vec![4, 1, 3, 2]), Some(3));
    assert_eq!(median(&vec![2, 2, 1, 9, 2]), Some(2));
    assert_eq!(extremes(&vec![4, 1, 3]), Some((1, 4)));
    assert_eq!(extremes(&Vec::new()), None);
}

#[test]
fn a_set_without_runs_is_refused() {
    let error = RunSet::load("empty.json".to_owned(), Vec::new()).expect_err("nothing to compare");
    assert!(error.message().contains("empty.json"), "{}", error.message());
    assert!(RunSet::load("one.json".to_owned(), vec![here()]).is_ok());
}

#[test]
fn the_build_identity_mirrors_the_build_constant_field_for_field() {
    let info = build_info();
    let identity = BuildIdentity::of(&info);
    assert_eq!(identity.version, info.version);
    assert_eq!(identity.release_version, info.release_version);
    assert_eq!(identity.channel, info.channel);
    assert_eq!(identity.target, info.target);
    assert_eq!(identity.profile, info.profile);
    assert_eq!(identity.dirty, info.dirty);
    assert_eq!(identity.git_short_commit.as_deref(), info.git_short_commit);
    assert_eq!(identity.git_commit.as_deref(), info.git_commit);
    assert_eq!(identity.revision_count, info.revision_count);
    assert_eq!(identity.source_tag.as_deref(), info.source_tag);
    assert_eq!(identity.ci_run_id.as_deref(), info.ci_run_id);
    assert_eq!(identity.ci_run_number, info.ci_run_number);
    assert_eq!(identity.ci_run_attempt, info.ci_run_attempt);
    assert_eq!(identity.ci_run_url.as_deref(), info.ci_run_url);
}

#[test]
fn a_fingerprint_survives_a_host_that_answers_nothing() {
    let fingerprint =
        EnvironmentFingerprint::collect(&Vec::new(), HostFacts::default(), process());
    assert_eq!(fingerprint.os, "linux");
    assert_eq!(fingerprint.architecture, "x86_64");
    assert!(fingerprint.displays.is_empty());
    assert_eq!(fingerprint.recorded_at_utc, "1970-01-01T00:00:00.000000Z");
    assert!(fingerprint.primary_adapter().is_none());
}

#[test]
fn a_host_that_cannot_be_asked_reports_absence_rather_than_a_guess() {
    let fingerprint =
        EnvironmentFingerprint::collect(&Vec::new(), HostFacts::default(), process());
    assert_eq!(fingerprint.os_build, None);
    assert_eq!(fingerprint.cpu, None);
    assert_eq!(fingerprint.session, None);
    assert_eq!(fingerprint.power_source, None);
    assert_eq!(fingerprint.power_plan, None);
    assert!(fingerprint.adapters.is_empty());
}

fn adapter(luid: i64) -> AdapterFingerprint {
    AdapterFingerprint {
        description: format!("adapter {luid}"),
        vendor_id: 1,
        device_id: 2,
        luid,
        software: false,
        dedicated_video_memory_mb: 4_096,
        driver_version: None,
    }
}

#[test]
fn the_primary_adapter_drives_the_primary_display() {
    let displays = vec![DisplayInfo {
        id: DisplayId("d".to_owned()),
        name: "Display".to_owned(),
        bounds: Rect {
            x: 0,
            y: 0,
            width: 1920,
            height: 1080,
        },
        rotation_degrees: 90,
        is_primary: true,
        scale_factor_bits: 1.5f32.to_bits(),
    }];
    let host = HostFacts {
        adapters: vec![adapter(1), adapter(2)],
        displays: vec![DisplayHardwareFacts {
            display_id: "d".to_owned(),
            adapter_luid: Some(2),
            refresh_hz_bits: Some(59.94f64.to_bits()),
        }],
        ..HostFacts::default()
    };
    let fingerprint = EnvironmentFingerprint::collect(&displays, host, process());
    assert_eq!(
        fingerprint.primary_adapter().map(|adapter| adapter.luid),
        Some(2)
    );
    assert_eq!(fingerprint.displays[0].adapter_luid, Some(2));
    assert_eq!(
        fingerprint.displays[0].refresh_hz_bits.map(f64::from_bits),
        Some(59.94)
    );
    assert_eq!(fingerprint.displays[0].rotation_degrees, 90);
    let identity = identity_of(&fingerprint);
    assert!(identity.iter().any(|(name, _)| *name == "session"));
}

fn build_inputs() -> BuildInputs {
    BuildInputs {
        release_version: "0.2.0".to_owned(),
        target: "x86_64-pc-windows-msvc".to_owned(),
        profile: "release".to_owned(),
        named_commit: None,
        ci_commit: None,
        head_commit: None,
        named_dirty: None,
        worktree_status: None,
        head_tags: None,
        ci_ref_type: None,
        ci_ref_name: None,
        revisions: None,
        ci: None,
        ci_run_number: None,
        ci_run_attempt: None,
        ci_run_id: None,
        ci_server_url: None,
        ci_repository: None,
        named_version: None,
    }
}

#[test]
fn a_release_is_built_from_its_own_tag() {
    let tagged = BuildInputs {
        head_commit: Some("0123456789abcdef0123".to_owned()),
        worktree_status: Some("".to_owned()),
        head_tags: Some("v0.1.0\nv0.2.0".to_owned()),
        ..build_inputs()
    };
    assert_eq!(tagged.build_fault(), None);
    let identity = tagged.resolve_build_identity();
    assert_eq!(identity.source_tag.as_deref(), Some("v0.2.0"));
    assert_eq!(identity.version, "0.2.0");
    assert!(!identity.dirty);

    let changed = BuildInputs {
        worktree_status: Some(" M src/main.rs".to_owned()),
        ..tagged
    };
    assert_eq!(
        changed.build_fault().as_deref(),
        Some("release builds require a clean worktree")
    );

    let untagged = BuildInputs {
        head_tags: None,
        ..changed
    };
    assert_eq!(untagged.build_fault(), None);
    let identity = untagged.resolve_build_identity();
    assert!(identity.dirty);
    assert_eq!(identity.channel, "development");
    assert_ne!(identity.version, "0.2.0");
}

#[test]
fn a_tag_of_another_release_stops_the_build() {
    let wrong = BuildInputs {
        ci_ref_type: Some("tag".to_owned()),
        ci_ref_name: Some("v9.9.9".to_owned()),
        ci: Some("true".to_owned()),
        head_commit: Some("0123456789abcdef0123".to_owned()),
        ..build_inputs()
    };
    let fault = wrong.build_fault().expect("the tag is not this release's");
    assert!(fault.contains("v9.9.9"), "{fault}");
}

#[test]
fn switches_and_numbers_are_read_as_they_are_written() {
    assert_eq!(parse_bool("true"), Some(true));
    assert_eq!(parse_bool("0"), Some(false));
    assert_eq!(parse_bool("maybe"), None);
    assert_eq!(parse_number("42"), Some(42));
    assert_eq!(parse_number("+42"), "+42".parse::<u64>().ok());
    assert_eq!(parse_number(""), None);
    assert_eq!(parse_number("18446744073709551616"), None);
    assert_eq!(
        parse_number("18446744073709551615"),
        Some(18_446_744_073_709_551_615)
    );
}

#[test]
fn the_build_constants_are_quoted_as_source() {
    let mut identity = BuildIdentity::of(&build_info());
    identity.ci_run_url = Some("a\"b\n".to_owned());
    let source = write_build_info(&identity);
    assert!(source.contains("0.1.0-dev.7"), "{source}");
    assert!(source.contains("Some(\"a\\\"b\\n\")"), "{source}");
    assert!(source.contains("Some(7"), "{source}");
}

#[test]
fn a_file_of_results_is_told_by_its_shape() {
    assert_eq!(
        run_file_shape(r#"{"runs": [], "repeated": {}}"#),
        Ok(RunFileShape::Enveloped)
    );
    assert_eq!(run_file_shape(r#"{"runs": null}"#), Ok(RunFileShape::Several));
    assert_eq!(run_file_shape(r#"{"backend": "fake"}"#), Ok(RunFileShape::Single));
    assert_eq!(run_file_shape(r#"["runs"]"#), Ok(RunFileShape::Single));
    assert!(run_file_shape("{runs}").is_err());
    let mut object = serde_json::Map::new();
    object.insert("runs".to_owned(), serde_json::Value::Null);
    assert_eq!(
        shape_of(&serde_json::Value::Object(object)),
        RunFileShape::Several
    );
    assert_eq!(not_json("a.json", "x").message(), "invalid argument: a.json is not benchmark JSON: x");
    assert_eq!(
        not_runs("a.json", "x").message(),
        "invalid argument: a.json is not a benchmark report or repeat set: x"
    );
    assert_eq!(unreadable("a.json", "x").message(), "invalid argument: cannot read a.json: x");
}

#[test]
fn a_set_from_two_machines_is_no_set() {
    let options = options(CursorMode::Exclude);
    let runs = || {
        let mut other = run_report(&options);
        other.environment.session = Some("remote".to_owned());
        vec![run_report(&options), other]
    };
    let repeated = run_repeated(runs());
    assert!(repeated.agreement.is_none());
    assert_eq!(repeated.incompatibilities.len(), 1);
    assert!(repeated.incompatibilities[0].starts_with("run 2 differs in session"));
    let error = RunSet::load("set.json".to_owned(), runs()).expect_err("two machines");
    assert!(error.message().contains("run 2 differs in session"));
}

#[test]
fn an_unknown_fact_is_not_a_fact_called_unknown() {
    let baseline = one_run("baseline.json");
    let mut candidate = one_run("candidate.json");
    candidate.runs[0].environment.power_plan = Some("unknown".to_owned());
    assert!(compare(&baseline, &candidate).is_err());
}

#[test]
fn swapped_sides_are_compared_alike() {
    let baseline = pinned("baseline", &[(1_000_000, 2_000_000), (1_300_000, 2_100_000)]);
    let candidate = pinned("candidate", &[(0, 2_200_000)]);
    let forward = compare(&baseline, &candidate).expect("a comparison");
    let backward = compare(&candidate, &baseline).expect("a comparison");
    assert_eq!(forward.stages.len(), backward.stages.len());
    for (there, back) in forward.stages.iter().zip(&backward.stages) {
        assert_eq!(there.stage, back.stage);
        assert_eq!(there.baseline_p50_ns, back.candidate_p50_ns);
        assert_eq!(there.candidate_p95_ns, back.baseline_p95_ns);
        assert_eq!(
            verdict(there.baseline_p50_ns, there.candidate_p50_ns, false, true)
                == Verdict::Unmeasurable,
            verdict(back.baseline_p50_ns, back.candidate_p50_ns, true, false)
                == Verdict::Unmeasurable
        );
    }
}

#[test]
fn failures_add_up_by_their_kind() {
    let mut tally = tally(2);
    for (id, kind) in [
        (3, CaptureErrorKind::Timeout),
        (4, CaptureErrorKind::AccessLost),
        (5, CaptureErrorKind::Timeout),
    ] {
        tally.attempt(CaptureId(id), 1, AttemptOutcome::Failed(kind));
    }
    assert_eq!(tally.failures, 3);
    assert_eq!(tally.timeouts, 2);
    assert_eq!(tally.failures_by_kind.get("timeout"), Some(&2));
    assert_eq!(tally.failures_by_kind.get("access_lost"), Some(&1));
    assert_eq!(tally.cursor_outcomes.get("excluded"), Some(&2));
}

/// The verdict of two single runs, whose own spread is nothing.
fn verdict_with(figures: &StageFigures, noise_percent: f64) -> Verdict {
    let (before, after) = (
        figures.baseline_p50_ns as f64,
        figures.candidate_p50_ns as f64,
    );
    let delta = if before == 0.0 {
        0.0
    } else {
        (after - before) / before * 100.0
    };
    verdict(
        figures.baseline_p50_ns,
        figures.candidate_p50_ns,
        delta.abs() <= noise_percent,
        delta > 0.0,
    )
}

#[test]
fn a_stage_with_nothing_to_divide_by_says_so_instead_of_reading_as_unchanged() {
    let mut baseline = pinned("baseline", &[(1_000_000, 2_000_000)]);
    baseline.runs[0].trigger_to_dequeue_latency.p50_ns = 0;
    let candidate = pinned("candidate", &[(1_000_000, 2_000_000)]);

    let comparison = compare(&baseline, &candidate).expect("the hosts match");
    let stage = comparison
        .stages
        .iter()
        .find(|stage| stage.stage.name() == "trigger_to_dequeue")
        .expect("the stage is still reported");
    assert_eq!(verdict_with(stage, 7.0), Verdict::Unmeasurable);
    assert_eq!(stage.baseline_p50_ns, 0);
    assert!(stage.candidate_p50_ns > 0);
    assert_eq!(verdict_with(stage, 7.0).as_str(), "unmeasurable");

    let native = comparison
        .stages
        .iter()
        .find(|stage| stage.stage.name() == "native_frame")
        .expect("the native stage is compared");
    assert_eq!(verdict_with(native, 7.0), Verdict::WithinNoise);

    let mut zero_candidate = pinned("candidate", &[(1_000_000, 2_000_000)]);
    zero_candidate.runs[0].native_frame_latency.p50_ns = 0;
    let comparison = compare(&pinned("baseline", &[(1_000_000, 2_000_000)]), &zero_candidate)
        .expect("the hosts match");
    let native = comparison
        .stages
        .iter()
        .find(|stage| stage.stage.name() == "native_frame")
        .expect("the native stage is compared");
    assert_eq!(verdict_with(native, 7.0), Verdict::Unmeasurable);
}
