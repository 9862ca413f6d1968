use captastic::capture::{
    CaptureId, CaptureMode, DisplayId, FrameMetadata, Rect, TimingProvenance,
};
use captastic::config::{PreviewMode, UiConfig};
use captastic::daemon::dispatch::{repeat_region_rect, GpuAnswer, SelectionKind, Submission};
use captastic::error::ConfigError;
use captastic::lock::{
    break_stale_lock, lock_path, lock_step, lock_timeout_error, rotation_lock_timing,
    state_lock_timing, LockAge, LockAttempt, LockStep, StaleStep,
};
use captastic::path::{FilePath, PathPart};
use captastic::region::{
    CaptureRegion, CaptureRegionSource, CaptureTool, Coordinate, DisplayUiConfig, DisplayUiState,
};
use captastic::selection::{
    coalesce_ui_update, finish_line, offset_after_cpu, on_answer, on_crop, on_gpu_answer, on_live,
    on_submission, pending_saves, remember_confirmed_region, selection_kind,
    selection_materialization, JobStep, LiveStep, OverlayAnswer, OverlayUiUpdate,
};
use captastic::table::TextMap;
use captastic::ui_state::{
    migrated_state, resolve_display_ui_state, StateRead, UiState, UiStateStore,
    STATE_SCHEMA_VERSION,
};

fn storage() -> FilePath {
    FilePath {
        parts: vec![PathPart::Root, PathPart::Normal("storage".to_owned())],
    }
}

fn store() -> UiStateStore {
    UiStateStore::at(storage().join("state.toml"))
}

fn coordinate(value: f64) -> Coordinate {
    Coordinate {
        bits: value.to_bits(),
    }
}

fn region(width: u32, height: u32) -> CaptureRegion {
    CaptureRegion {
        x: 0,
        y: 0,
        width,
        height,
    }
}

fn region_source(width: u32, height: u32) -> CaptureRegionSource {
    CaptureRegionSource {
        width,
        height,
        rotation_degrees: 0,
    }
}

#[test]
fn invalid_values_are_rejected_before_anything_is_written() {
    let store = store();
    for (center_x, center_y) in [
        (-0.1, 0.5),
        (1.1, 0.5),
        (f64::NAN, 0.5),
        (0.5, f64::INFINITY),
    ] {
        assert!(matches!(
            store.save_display_overlay_center(
                StateRead::Missing,
                None,
                "display-1",
                coordinate(center_x),
                coordinate(center_y)
            ),
            Err(ConfigError::InvalidValue(_))
        ));
    }
    assert!(matches!(
        store.save_display_confirmed_region(
            StateRead::Missing,
            None,
            "display-1",
            region(0, 10),
            region_source(10, 10)
        ),
        Err(ConfigError::InvalidValue(_))
    ));
    assert!(matches!(
        store.save_display_interaction_state(
            StateRead::Missing,
            None,
            "display-1",
            CaptureTool::Region,
            Some(region(10, 0)),
            None
        ),
        Err(ConfigError::InvalidValue(_))
    ));
}

#[test]
fn coordinates_are_normal_exactly_between_zero_and_one() {
    for value in [0.0, -0.0, 0.25, 1.0, f64::MIN_POSITIVE] {
        assert!(coordinate(value).is_normalized(), "{value}");
    }
    for value in [-0.25, 1.0000000000000002, f64::NAN, f64::INFINITY, -1e-300] {
        assert!(!coordinate(value).is_normalized(), "{value}");
    }
}

#[test]
fn ui_state_store_reads_and_writes_its_injected_config_path() {
    let path = storage().join("alternate-profile.toml");
    let store = UiStateStore::for_config(path.clone());
    let written = store
        .save_display_overlay_center(
            StateRead::Missing,
            None,
            "external",
            coordinate(0.25),
            coordinate(0.75),
        )
        .expect("save alternate profile UI state");
    let state = store
        .load_display_ui_state(StateRead::Parsed(written), None, "external")
        .expect("load alternate profile UI state");

    assert_eq!(
        state.overlay_center,
        Some((coordinate(0.25), coordinate(0.75)))
    );
    assert_eq!(store.path(), Some(&storage().join("state.toml")));
    assert_eq!(store.config_path(), Some(&path));
}

#[test]
fn writing_a_region_without_a_source_clears_the_previous_source() {
    let store = store();
    let first = CaptureRegion {
        x: 10,
        y: 20,
        width: 300,
        height: 200,
    };
    let source = CaptureRegionSource {
        width: 1_920,
        height: 1_080,
        rotation_degrees: 0,
    };
    let written = store
        .save_display_interaction_state(
            StateRead::Missing,
            None,
            "main",
            CaptureTool::Region,
            Some(first),
            Some(source),
        )
        .expect("save interaction state with a source");
    assert_eq!(
        resolve_display_ui_state(&written, "main").region_source,
        Some(source)
    );

    let new_region = CaptureRegion {
        x: 5,
        y: 5,
        width: 640,
        height: 480,
    };
    let written = store
        .save_display_interaction_state(
            StateRead::Parsed(written),
            None,
            "main",
            CaptureTool::Region,
            Some(new_region),
            None,
        )
        .expect("save interaction state without a source");
    let state = store
        .load_display_ui_state(StateRead::Parsed(written), None, "main")
        .expect("load state without source");
    assert_eq!(state.region, Some(new_region));
    assert_eq!(state.region_source, None, "stale source must be removed");
}

fn section() -> UiConfig {
    let mut ui = UiConfig::default();
    ui.last_capture_tool = Some(CaptureTool::Region);
    ui.displays.insert(
        "display-1".to_owned(),
        DisplayUiConfig {
            overlay_center_x: Some(coordinate(0.5)),
            overlay_center_y: Some(coordinate(0.5)),
            ..DisplayUiConfig::default()
        },
    );
    ui
}

#[test]
fn state_kept_in_the_configuration_moves_out_with_the_first_save() {
    let store = store();
    let migrated = store
        .load(StateRead::Missing, Some(section()))
        .expect("load migrates");
    assert_eq!(migrated.last_capture_tool, Some(CaptureTool::Region));
    assert_eq!(
        resolve_display_ui_state(&migrated, "display-1").overlay_center,
        Some((coordinate(0.5), coordinate(0.5)))
    );
    let state = store
        .save_display_overlay_center(
            StateRead::Missing,
            Some(section()),
            "display-2",
            coordinate(0.1),
            coordinate(0.2),
        )
        .expect("save");
    assert_eq!(state.last_capture_tool, Some(CaptureTool::Region));
    assert_eq!(
        resolve_display_ui_state(&state, "display-1").overlay_center,
        Some((coordinate(0.5), coordinate(0.5)))
    );
    assert_eq!(
        resolve_display_ui_state(&state, "display-2").overlay_center,
        Some((coordinate(0.1), coordinate(0.2)))
    );
    assert!(migrated_state(None).is_empty());
}

#[test]
fn a_state_that_cannot_be_read_is_reported() {
    let store = store();
    let newer = UiState {
        schema_version: STATE_SCHEMA_VERSION + 1,
        ..UiState::default()
    };
    assert!(matches!(
        store.load(StateRead::Parsed(newer), None),
        Err(ConfigError::UnsupportedSchema(version)) if version == STATE_SCHEMA_VERSION + 1
    ));
    assert!(matches!(
        store.load(StateRead::Malformed("bad".to_owned()), None),
        Err(ConfigError::Parse(_))
    ));
    assert!(matches!(
        UiStateStore::for_default_storage(None).load(StateRead::Missing, None),
        Err(ConfigError::HomeDirectoryUnavailable)
    ));
}

#[test]
fn confirmed_regions_come_from_the_displays_that_have_one() {
    let store = store();
    let state = store
        .save_display_confirmed_region(
            StateRead::Missing,
            None,
            "display-1",
            region(10, 20),
            region_source(100, 200),
        )
        .expect("save confirmed region");
    let state = store
        .save_display_interaction_state(
            StateRead::Parsed(state),
            None,
            "display-2",
            CaptureTool::Window,
            None,
            None,
        )
        .expect("save interaction without a confirmed region");
    let regions = store
        .confirmed_regions(StateRead::Parsed(state), None)
        .expect("collect confirmed regions");
    assert_eq!(regions.len(), 1);
    assert_eq!(
        regions.get("display-1").expect("display-1").region,
        region(10, 20)
    );
}

#[test]
fn a_save_changes_one_display_and_no_other() {
    let store = store();
    let mut state = UiState::default();
    for name in ["b", "a", "c"] {
        state = store
            .save_display_overlay_center(
                StateRead::Parsed(state),
                None,
                name,
                coordinate(0.5),
                coordinate(0.25),
            )
            .expect("save");
    }
    let state = store
        .save_display_overlay_center(
            StateRead::Parsed(state),
            None,
            "a",
            coordinate(1.0),
            coordinate(0.0),
        )
        .expect("save");
    assert_eq!(
        resolve_display_ui_state(&state, "a").overlay_center,
        Some((coordinate(1.0), coordinate(0.0)))
    );
    for name in ["b", "c"] {
        assert_eq!(
            resolve_display_ui_state(&state, name).overlay_center,
            Some((coordinate(0.5), coordinate(0.25)))
        );
    }
    assert_eq!(
        resolve_display_ui_state(&state, "unknown"),
        DisplayUiState::default()
    );
}

#[test]
fn an_explicit_configuration_is_opened_as_it_is() {
    let default_path = storage().join("captastic.toml");
    let store = UiStateStore::for_default_storage(Some(&storage()));
    assert_eq!(
        store.prepare_for_open(false, Some(&default_path)),
        Ok((default_path.clone(), true))
    );
    let explicit = storage().join("explicit.toml");
    let store = UiStateStore::for_config(explicit.clone());
    assert_eq!(
        store.prepare_for_open(false, Some(&default_path)),
        Ok((explicit, false))
    );
}

#[test]
fn a_map_keeps_its_keys_in_order() {
    let mut map: TextMap<u32> = TextMap::new();
    assert!(map.is_empty());
    for (key, value) in [("m", 1), ("", 2), ("zz", 3), ("z", 4), ("Ä", 5)] {
        assert_eq!(map.insert(key.to_owned(), value), None);
    }
    assert_eq!(map.insert("z".to_owned(), 6), Some(4));
    let keys: Vec<&str> = (0..map.len()).map(|i| map.key_at(i).as_str()).collect();
    assert_eq!(keys, ["", "m", "z", "zz", "Ä"]);
    assert_eq!(map.get("z"), Some(&6));
    assert_eq!(map.get("y"), None);
    assert_eq!(*map.value_at(1), 1);
    assert_eq!(map.clone().len(), 5);
}

#[test]
fn coalescing_interactions_preserves_a_region_from_earlier_in_the_batch() {
    let region = CaptureRegion {
        x: 1,
        y: 2,
        width: 30,
        height: 40,
    };
    let mut latest = TextMap::new();
    coalesce_ui_update(
        &mut latest,
        OverlayUiUpdate::Interaction {
            display_id: "display-1".to_owned(),
            tool: CaptureTool::Region,
            region: Some(region),
            source: None,
        },
    );
    coalesce_ui_update(
        &mut latest,
        OverlayUiUpdate::Interaction {
            display_id: "display-1".to_owned(),
            tool: CaptureTool::Window,
            region: None,
            source: None,
        },
    );

    let saved = latest
        .get("display-1")
        .expect("coalesced interaction")
        .interaction
        .expect("expected interaction update");
    assert_eq!(saved.tool, CaptureTool::Window);
    assert_eq!(saved.region, Some(region));
    assert_eq!(pending_saves(&latest).len(), 1);
}

fn metadata(source_rect: Rect) -> FrameMetadata {
    FrameMetadata {
        capture_id: CaptureId(42),
        backend: "test".to_owned(),
        display_id: DisplayId("display-a".to_owned()),
        source_rect,
        rotation_degrees: 0,
        capture_mode: CaptureMode::Latest { max_age_ms: None },
        presentation_offset_ns: Some(0),
        timing_provenance: TimingProvenance::Synthetic,
        native_ready_offset_ns: 1,
        cpu_ready_offset_ns: Some(2),
        frame_age_ns: Some(0),
        frame_generation: Some(1),
        copy_count: 1,
        pool_slot: Some(0),
    }
}

#[test]
fn a_confirmed_region_can_be_repeated() {
    let metadata = metadata(Rect {
        x: -1920,
        y: -240,
        width: 3840,
        height: 2160,
    });
    let rect = Rect {
        x: -1880,
        y: -220,
        width: 800,
        height: 600,
    };
    let mut cache = TextMap::new();
    let update = remember_confirmed_region(&mut cache, &metadata, rect).expect("inside");
    assert!(matches!(update, OverlayUiUpdate::ConfirmedRegion { .. }));
    let confirmed = *cache.get("display-a").expect("remembered");
    assert_eq!(repeat_region_rect(Some(confirmed), &metadata), Ok(rect));

    let outside = Rect {
        x: i32::MAX,
        y: 0,
        width: 100,
        height: 100,
    };
    assert_eq!(
        remember_confirmed_region(&mut cache, &metadata, outside),
        Err("confirmed region x coordinate is out of range")
    );
    assert_eq!(
        cache.get("display-a").map(|region| region.region.x),
        Some(40)
    );
}

#[test]
fn a_selection_goes_from_the_overlay_to_its_destination() {
    assert_eq!(
        on_answer(OverlayAnswer::Confirmed(SelectionKind::Region), true),
        JobStep::Materialize {
            remember_region: true,
            ask_gpu: true
        }
    );
    assert_eq!(
        on_answer(OverlayAnswer::Confirmed(SelectionKind::Window), true),
        JobStep::Materialize {
            remember_region: false,
            ask_gpu: false
        }
    );
    assert!(matches!(
        on_answer(OverlayAnswer::Cancelled, false),
        JobStep::Finish {
            event: "selection_cancelled",
            ..
        }
    ));
    assert!(matches!(
        on_answer(OverlayAnswer::Failed("gone".to_owned()), false),
        JobStep::Finish { event: "selection_failed", message } if message == "gone"
    ));
    let used = on_gpu_answer(SelectionKind::Region, true, GpuAnswer::Materialized);
    assert!(matches!(used, JobStep::UseGpuFrame(m) if m.label == "dxgi_gpu_region"));
    let cropped = on_gpu_answer(
        SelectionKind::Region,
        false,
        GpuAnswer::Failed("driver".to_owned()),
    );
    assert!(matches!(cropped, JobStep::CropFrame(m)
        if m.label == "frozen_desktop_crop" && m.gpu_fallback_error.as_deref() == Some("driver")));
    assert_eq!(on_crop(None), JobStep::Submit);
    assert!(matches!(
        on_crop(Some("bad".to_owned())),
        JobStep::Finish { .. }
    ));
    assert_eq!(on_submission(&Submission::Accepted), JobStep::Delivered);
    assert_eq!(
        on_submission(&Submission::Full {
            metrics_error: None
        }),
        JobStep::Skipped("queue_full")
    );
    assert_eq!(selection_kind(SelectionKind::Display), "display");
    assert_eq!(
        selection_materialization(SelectionKind::Display, true),
        "confirmation_display"
    );
    assert_eq!(offset_after_cpu(10, 4), 6);
    assert_eq!(offset_after_cpu(4, 10), 0);
    assert!(!finish_line(CaptureId(3), "selection_cancelled", "x").text.is_empty());
}

#[test]
fn a_lock_is_broken_only_when_its_holder_is_gone() {
    let timing = state_lock_timing();
    assert_eq!(
        break_stale_lock(&timing, LockAge::Known(timing.timeout)),
        StaleStep::Keep
    );
    assert_eq!(
        break_stale_lock(&timing, LockAge::Known(30_000_000_000)),
        StaleStep::Keep
    );
    assert_eq!(
        break_stale_lock(&timing, LockAge::Known(30_000_000_001)),
        StaleStep::Remove
    );
    assert_eq!(break_stale_lock(&timing, LockAge::Unknown), StaleStep::Keep);
    assert_eq!(break_stale_lock(&timing, LockAge::Gone), StaleStep::Released);
    assert_eq!(
        lock_step(&timing, LockAttempt::Created, false, 5, 9),
        LockStep::Hold
    );
    assert_eq!(
        lock_step(&timing, LockAttempt::Taken, false, 5, 9),
        LockStep::Sleep(5_000_000)
    );
    assert_eq!(
        lock_step(&timing, LockAttempt::Taken, true, 10, 9),
        LockStep::Retry
    );
    assert_eq!(
        lock_step(&timing, LockAttempt::Taken, false, 9, 9),
        LockStep::TimedOut
    );
    assert_eq!(
        lock_step(&rotation_lock_timing(), LockAttempt::Failed, true, 0, 9),
        LockStep::Fail
    );
    let error = lock_timeout_error("state.toml".to_owned(), "access is denied");
    assert_eq!(
        error.message(),
        "failed to write configuration state.toml: could not take the UI state lock within 2000 ms (last attempt: access is denied)"
    );
    assert_eq!(
        lock_path(&storage().join("state.toml")),
        storage().join("state.toml.lock")
    );
}

#[test]
fn a_save_that_could_not_be_loaded_is_refused() {
    let store = store();
    for (area, source) in [
        (region(30, 10), region_source(20, 20)),
        (
            region(10, 10),
            CaptureRegionSource {
                width: 20,
                height: 20,
                rotation_degrees: 45,
            },
        ),
    ] {
        assert!(matches!(
            store.save_display_confirmed_region(StateRead::Missing, None, "left", area, source),
            Err(ConfigError::InvalidValue(_))
        ));
    }
    assert!(matches!(
        store.save_display_interaction_state(
            StateRead::Missing,
            None,
            "left",
            CaptureTool::Region,
            Some(region(10, 10)),
            Some(CaptureRegionSource {
                width: 20,
                height: 20,
                rotation_degrees: 45,
            }),
        ),
        Err(ConfigError::InvalidValue(_))
    ));
    assert!(matches!(
        store.save_display_overlay_center(
            StateRead::Missing,
            None,
            "  ",
            coordinate(0.5),
            coordinate(0.5)
        ),
        Err(ConfigError::InvalidValue(_))
    ));
    let saved = store
        .save_display_confirmed_region(
            StateRead::Missing,
            None,
            "left",
            region(10, 10),
            region_source(20, 20),
        )
        .expect("a region within its source");
    let loaded = store.load(StateRead::Parsed(saved), None).expect("it loads again");
    assert!(loaded.confirmed_regions().get("left").is_some());
}

#[test]
fn a_bad_entry_from_a_configuration_is_not_written_on() {
    let mut ui = UiConfig::default();
    ui.displays.insert(
        "right".to_owned(),
        DisplayUiConfig {
            overlay_x: Some(1),
            ..DisplayUiConfig::default()
        },
    );
    assert!(matches!(
        store().save_display_overlay_center(
            StateRead::Missing,
            Some(ui),
            "left",
            coordinate(0.5),
            coordinate(0.5)
        ),
        Err(ConfigError::InvalidValue(_))
    ));
}

#[test]
fn a_live_overlay_falls_back_only_where_the_choice_was_left_open() {
    for preview in [PreviewMode::Auto, PreviewMode::Live] {
        assert_eq!(
            on_live(OverlayAnswer::Confirmed(SelectionKind::Window), preview),
            LiveStep::UseWindowFrame
        );
        assert_eq!(
            on_live(OverlayAnswer::Confirmed(SelectionKind::Region), preview),
            LiveStep::Capture(SelectionKind::Region)
        );
        assert_eq!(
            on_live(OverlayAnswer::Confirmed(SelectionKind::Display), preview),
            LiveStep::Capture(SelectionKind::Display)
        );
        assert_eq!(
            on_live(OverlayAnswer::Cancelled, preview),
            LiveStep::Finish {
                event: "selection_cancelled",
                message: "selection was cancelled".to_owned(),
            }
        );
    }
    assert_eq!(
        on_live(OverlayAnswer::Failed("gone".to_owned()), PreviewMode::Auto),
        LiveStep::FreezePreview {
            warning: "live presenter failed; retrying with a frozen preview: gone".to_owned(),
        }
    );
    assert_eq!(
        on_live(OverlayAnswer::Failed("gone".to_owned()), PreviewMode::Live),
        LiveStep::Finish {
            event: "selection_failed",
            message: "gone".to_owned(),
        }
    );
}
