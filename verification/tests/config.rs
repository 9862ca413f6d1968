use captastic::config::{
    begin_load, check_schema_version, needs_default_config, optional_load, recovered, AppConfig,
    FileContents, HotkeyBindingsConfig, LoadStep, PreviewMode, CONFIG_FILE_NAME,
    CONFIG_SCHEMA_VERSION,
};
use captastic::config_edit::set_output_enabled;
use captastic::error::{AppError, ConfigError};
use captastic::hotkey::{
    parse_hotkey_key, HotkeyAction, HotkeyBinding, HotkeyChord, HotkeyKey, HotkeyParseError,
};
use captastic::path::{
    default_config_path, default_output_directory, storage_directory_from, FilePath, PathPart,
};
use captastic::region::{CaptureRegion, Coordinate, DisplayUiConfig};

fn path(text: &str) -> FilePath {
    let parts = std::path::Path::new(text)
        .components()
        .map(|part| match part {
            std::path::Component::Prefix(prefix) => {
                PathPart::Prefix(prefix.as_os_str().to_string_lossy().into_owned())
            }
            std::path::Component::RootDir => PathPart::Root,
            std::path::Component::CurDir => PathPart::Current,
            std::path::Component::ParentDir => PathPart::Parent,
            std::path::Component::Normal(name) => {
                PathPart::Normal(name.to_string_lossy().into_owned())
            }
        })
        .collect();
    FilePath { parts }
}

fn coordinate(value: f64) -> Coordinate {
    Coordinate {
        bits: value.to_bits(),
    }
}

fn is_invalid(result: Result<(), ConfigError>) -> bool {
    matches!(result, Err(ConfigError::InvalidValue(_)))
}

#[test]
fn defaults_are_valid() {
    let config = AppConfig::default();
    config.validate().expect("valid defaults");
    assert_eq!(config.selection.preview, PreviewMode::Auto);
}

#[test]
fn rejects_zero_queue_capacity() {
    let mut config = AppConfig::default();
    config.daemon.trigger_queue_capacity = 0;
    assert!(is_invalid(config.validate()));
}

#[test]
fn every_queue_capacity_has_the_same_bounds() {
    for capacity in [0usize, 1_025] {
        for pick in 0..4 {
            let mut config = AppConfig::default();
            match pick {
                0 => config.daemon.trigger_queue_capacity = capacity,
                1 => config.selection.queue_capacity = capacity,
                2 => config.clipboard.queue_capacity = capacity,
                _ => config.output.queue_capacity = capacity,
            }
            let error = config.validate().expect_err("out of range");
            assert!(error.message().contains("must be between 1 and 1024"));
        }
    }
    let mut config = AppConfig::default();
    config.daemon.trigger_queue_capacity = 1_024;
    config.validate().expect("the largest queue");
}

#[test]
fn accepts_pointer_primary_virtual_desktop_or_a_persistent_display_id() {
    let mut config = AppConfig::default();
    config.daemon.display = "pointer".to_owned();
    config.validate().expect("pointer display policy");
    config.daemon.display = "primary".to_owned();
    config.validate().expect("primary display policy");
    config.daemon.display = "virtual_desktop".to_owned();
    config.validate().expect("virtual desktop policy");
    config.daemon.display = "display:windows-monitor-0123456789abcdef".to_owned();
    config.validate().expect("fixed display policy");
}

#[test]
fn rejects_empty_or_unknown_display_policies() {
    for value in ["display:", "windows-monitor-id"] {
        let mut config = AppConfig::default();
        config.daemon.display = value.to_owned();
        assert!(is_invalid(config.validate()));
    }
}

#[test]
fn output_can_now_be_enabled() {
    let mut config = AppConfig::default();
    config.output.enabled = true;
    config.validate().expect("file output is implemented");
}

#[test]
fn an_output_directory_must_be_absolute() {
    let mut config = AppConfig::default();
    config.output.enabled = true;
    config.output.directory = Some("captures".to_owned());
    let error = config.validate().expect_err("a relative path is rejected");
    assert!(error.message().contains("absolute"), "{}", error.message());

    config.output.directory = Some(String::new());
    let error = config.validate().expect_err("an empty path is rejected");
    assert!(
        error.message().contains("must not be empty"),
        "{}",
        error.message()
    );

    config.output.directory = Some("/home/someone/Pictures/Captastic".to_owned());
    config.validate().expect("an absolute path is accepted");
}

#[test]
fn the_default_output_directory_sits_with_the_users_pictures() {
    let home = path("/home/someone");
    let directory = default_output_directory(Some(&home)).expect("a home directory");
    assert_eq!(directory, path("/home/someone/Pictures/Captastic"));
    assert!(!directory
        .parts
        .contains(&PathPart::Normal(".captastic".to_owned())));
    assert!(default_output_directory(None).is_none());
}

#[test]
fn storage_directory_uses_platform_appropriate_home_precedence() {
    let user_profile = path("user-profile-home");
    let home = path("home");
    assert_eq!(
        storage_directory_from(Some(user_profile.clone()), Some(home.clone()), true),
        Some(user_profile.join(".captastic"))
    );
    assert_eq!(
        storage_directory_from(Some(path("windows-home")), Some(home.clone()), false),
        Some(home.join(".captastic"))
    );
    assert_eq!(
        storage_directory_from(Some(path("")), Some(home.clone()), true),
        Some(home.join(".captastic"))
    );
    assert_eq!(storage_directory_from(None, None, true), None);
}

#[test]
fn the_default_configuration_sits_in_the_storage_directory() {
    let storage = path("/home/someone/.captastic");
    assert_eq!(
        default_config_path(Some(&storage)),
        Some(storage.join(CONFIG_FILE_NAME))
    );
    assert_eq!(default_config_path(None), None);
}

#[test]
fn rejects_unknown_output_format() {
    let mut config = AppConfig::default();
    config.output.format = "jpeg".to_owned();
    assert!(is_invalid(config.validate()));
}

#[test]
fn rejects_capture_buffer_slots_other_than_the_fixed_default() {
    let mut config = AppConfig::default();
    assert_eq!(config.capture.buffer_slots, 3);
    for value in [2, 4, 16] {
        config.capture.buffer_slots = value;
        assert!(is_invalid(config.validate()));
    }
}

#[test]
fn rejects_unknown_capture_cursor_mode() {
    let mut config = AppConfig::default();
    config.capture.cursor = "auto".to_owned();
    assert!(is_invalid(config.validate()));
}

#[test]
fn accepts_capture_cursor_include_now_that_it_is_implemented() {
    let mut config = AppConfig::default();
    config.capture.cursor = "include".to_owned();
    config.validate().expect("cursor include is implemented");

    config.capture.cursor = "sometimes".to_owned();
    let error = config.validate().expect_err("an unknown cursor policy");
    assert!(matches!(error, ConfigError::InvalidValue(_)));
    assert!(error.message().contains("capture.cursor"));
}

#[test]
fn rejects_hotkey_repeat_coalesce_as_not_implemented() {
    let mut config = AppConfig::default();
    config.hotkey.repeat = "coalesce".to_owned();
    let error = config.validate().expect_err("repeat coalesce is dormant");
    assert!(matches!(error, ConfigError::InvalidValue(_)));
    assert!(error.message().contains("hotkey.repeat"));
}

#[test]
fn rejects_unknown_logging_level() {
    let mut config = AppConfig::default();
    config.logging.level = "verbose".to_owned();
    assert!(is_invalid(config.validate()));
}

#[test]
fn rejects_unbounded_logging_configuration() {
    let mut config = AppConfig::default();
    config.logging.max_file_bytes = 0;
    assert!(is_invalid(config.validate()));
    config.logging.max_file_bytes = 5 * 1_024 * 1_024;
    config.logging.retained_files = 0;
    assert!(is_invalid(config.validate()));
}

#[test]
fn rejects_an_empty_saved_region() {
    let mut config = AppConfig::default();
    config.ui.last_region = Some(CaptureRegion {
        x: 0,
        y: 0,
        width: 0,
        height: 100,
    });
    assert!(is_invalid(config.validate()));
}

#[test]
fn rejects_incomplete_or_empty_per_display_state() {
    let mut config = AppConfig::default();
    config.ui.displays.insert(
        "external".to_owned(),
        DisplayUiConfig {
            overlay_x: Some(10),
            ..DisplayUiConfig::default()
        },
    );
    assert!(is_invalid(config.validate()));

    let mut config = AppConfig::default();
    config.ui.displays.insert(
        String::new(),
        DisplayUiConfig {
            overlay_x: Some(10),
            overlay_y: Some(10),
            ..DisplayUiConfig::default()
        },
    );
    assert!(is_invalid(config.validate()));

    let mut config = AppConfig::default();
    config.ui.displays.insert(
        "external".to_owned(),
        DisplayUiConfig {
            overlay_center_x: Some(coordinate(1.5)),
            overlay_center_y: Some(coordinate(0.5)),
            ..DisplayUiConfig::default()
        },
    );
    assert!(is_invalid(config.validate()));
}

#[test]
fn another_schema_is_reported_by_its_version() {
    let mut config = AppConfig::default();
    config.schema_version = 7;
    assert_eq!(config.validate(), Err(ConfigError::UnsupportedSchema(7)));
    assert_eq!(
        check_schema_version(Some(CONFIG_SCHEMA_VERSION + 1)),
        Err(ConfigError::UnsupportedSchema(CONFIG_SCHEMA_VERSION + 1))
    );
    assert_eq!(
        check_schema_version(Some(0)),
        Err(ConfigError::UnsupportedSchema(0))
    );
    assert_eq!(check_schema_version(Some(CONFIG_SCHEMA_VERSION)), Ok(()));
    assert_eq!(check_schema_version(None), Ok(()));
}

fn hotkeys_only(binding: Option<&str>) -> AppConfig {
    let mut config = AppConfig::default();
    config.hotkey.binding = binding.map(str::to_owned);
    config.hotkey.bindings = HotkeyBindingsConfig::disabled();
    config
}

#[test]
fn legacy_binding_resolves_to_last_workflow() {
    let config = hotkeys_only(Some("ctrl + shift + f9"));
    let bindings = config.hotkey.resolved_bindings().expect("legacy binding");
    assert_eq!(
        bindings,
        vec![HotkeyBinding {
            action: HotkeyAction::LastWorkflow,
            chord: "Ctrl+Shift+F9".parse().expect("chord"),
        }]
    );
}

#[test]
fn hotkey_grammar_canonicalizes_supported_modifiers_and_keys() {
    for (input, expected) in [
        ("control+windows+alt+shift+a", "Ctrl+Alt+Shift+Win+A"),
        ("ALT+0", "Alt+0"),
        ("win+f1", "Win+F1"),
        ("Ctrl+F24", "Ctrl+F24"),
        ("z", "Z"),
    ] {
        let chord: HotkeyChord = input.parse().expect(input);
        assert_eq!(chord.to_text(), expected);
    }
}

#[test]
fn malformed_hotkeys_are_rejected_without_reinterpretation() {
    for input in [
        "",
        "Ctrl++F9",
        "Ctrl+Control+F9",
        "Ctrl+Shift",
        "Ctrl+A+B",
        "Ctrl+F25",
        "Ctrl+F01",
        "Ctrl+Space",
    ] {
        assert!(input.parse::<HotkeyChord>().is_err(), "accepted {input:?}");
    }
}

#[test]
fn every_fault_of_a_hotkey_is_told_apart() {
    let fault = |input: &str| HotkeyChord::parse(input).expect_err("malformed");
    assert_eq!(fault("   "), HotkeyParseError::Empty);
    assert_eq!(fault("Ctrl++F9"), HotkeyParseError::EmptyToken);
    assert!(matches!(
        fault("Ctrl+Control+F9"),
        HotkeyParseError::DuplicateModifier(_)
    ));
    assert_eq!(fault("Ctrl+Shift"), HotkeyParseError::MissingKey);
    assert_eq!(fault("Ctrl+A+B"), HotkeyParseError::MultipleKeys);
    assert!(matches!(
        fault("Ctrl+Space"),
        HotkeyParseError::UnsupportedKey(_)
    ));
    assert_eq!(parse_hotkey_key("f12"), Ok(HotkeyKey::Function(12)));
    assert!(parse_hotkey_key("f0").is_err());
}

#[test]
fn a_chord_reads_back_what_it_is_written_as() {
    for text in ["Ctrl+Alt+Shift+Win+Z", "Alt+9", "Win+F13", "Q"] {
        let chord = HotkeyChord::parse(text).expect(text);
        assert_eq!(chord.to_text(), text);
        assert_eq!(HotkeyChord::parse(&chord.to_text()), Ok(chord));
    }
    let chord = HotkeyChord::parse("shift+ctrl+f2").expect("chord");
    assert!(chord.modifiers().ctrl() && chord.modifiers().shift());
    assert!(!chord.modifiers().alt() && !chord.modifiers().win());
    assert_eq!(chord.key(), HotkeyKey::Function(2));
}

#[test]
fn every_action_has_its_own_name_and_number() {
    let actions = HotkeyAction::every();
    assert_eq!(actions.len(), 5);
    for (i, a) in actions.iter().enumerate() {
        for b in &actions[i + 1..] {
            assert_ne!(a.as_str(), b.as_str());
            assert_ne!(a.registration_index(), b.registration_index());
        }
    }
    assert_eq!(
        HotkeyAction::RepeatLastRegion.as_str(),
        "repeat_last_region"
    );
}

#[test]
fn duplicate_chords_across_actions_are_rejected_after_canonicalization() {
    let mut config = AppConfig::default();
    config.hotkey.bindings.region = Some("alt+r".to_owned());
    config.hotkey.bindings.window = Some("ALT+R".to_owned());
    let error = config.validate().expect_err("duplicate chord");
    assert!(error.message().contains("region"));
    assert!(error.message().contains("window"));
    assert!(error.message().contains("Alt+R"));
}

#[test]
fn omitted_actions_are_disabled_and_empty_actions_are_invalid() {
    let mut config = hotkeys_only(None);
    config.hotkey.bindings.full_display = Some("Win+F12".to_owned());
    let bindings = config.hotkey.resolved_bindings().expect("one binding");
    assert_eq!(bindings.len(), 1);
    assert_eq!(bindings[0].action, HotkeyAction::FullDisplay);

    let mut invalid = config;
    invalid.hotkey.bindings.region = Some(String::new());
    assert!(invalid.validate().is_err());
}

#[test]
fn legacy_and_canonical_last_workflow_are_ambiguous() {
    let mut config = hotkeys_only(Some("Ctrl+Shift+F9"));
    config.hotkey.bindings.last_workflow = Some("Alt+F9".to_owned());
    let error = config.validate().expect_err("ambiguous action");
    assert!(error.message().contains("define the same action"));
}

#[test]
fn resolved_bindings_hold_every_chord_once() {
    let mut config = hotkeys_only(None);
    config.hotkey.bindings.last_workflow = Some("Ctrl+Shift+F9".to_owned());
    config.hotkey.bindings.region = Some("Alt+R".to_owned());
    config.hotkey.bindings.full_display = Some("Win+F12".to_owned());
    config.validate().expect("valid bindings");
    let bindings = config.hotkey.resolved_bindings().expect("bindings");
    let shown: Vec<(&str, String)> = bindings
        .iter()
        .map(|binding| (binding.action.as_str(), binding.chord.to_text()))
        .collect();
    assert_eq!(
        shown,
        vec![
            ("last_workflow", "Ctrl+Shift+F9".to_owned()),
            ("region", "Alt+R".to_owned()),
            ("full_display", "Win+F12".to_owned()),
        ]
    );
}

#[test]
fn only_damage_is_set_aside_when_a_configuration_is_loaded() {
    assert!(matches!(
        begin_load(FileContents::Missing),
        LoadStep::UseDefaults
    ));
    assert!(matches!(
        begin_load(FileContents::Failed {
            path: "captastic.toml".to_owned(),
            source: "denied".to_owned(),
        }),
        LoadStep::Fail(ConfigError::Read { .. })
    ));
    let damaged = begin_load(FileContents::Bytes(
        b"schema_version = 1\n[daemon\n".to_vec(),
    ));
    assert!(matches!(damaged, LoadStep::Quarantine { reason } if !reason.is_empty()));
    let not_text = begin_load(FileContents::Bytes(b"schema_version = 1\n#\xff\n".to_vec()));
    assert!(matches!(not_text, LoadStep::Quarantine { reason } if reason.contains("utf-8")));
    let unknown = "schema_version = 1\nunknown_key = true\n";
    let well_formed = begin_load(FileContents::Bytes(unknown.as_bytes().to_vec()));
    assert!(matches!(well_formed, LoadStep::Parse(text) if text == unknown));
}

#[test]
fn a_recovery_is_reported_only_where_something_was_set_aside() {
    let recovery = recovered(
        "captastic.toml".to_owned(),
        Some("captastic.toml.corrupt-1-0".to_owned()),
        "damage".to_owned(),
    )
    .expect("a recovery");
    assert_eq!(recovery.original_path, "captastic.toml");
    assert_eq!(recovery.quarantined_path, "captastic.toml.corrupt-1-0");
    assert_eq!(recovery.reason, "damage");
    assert!(recovered("captastic.toml".to_owned(), None, "damage".to_owned()).is_none());
}

#[test]
fn a_missing_optional_configuration_means_the_defaults() {
    let missing = || ConfigError::Read {
        path: "captastic.toml".to_owned(),
        source: "not found".to_owned(),
    };
    let config = optional_load(Err(missing()), true).expect("defaults");
    assert_eq!(config.daemon.backend, "dxgi");
    assert_eq!(config.clipboard.queue_capacity, 1);
    assert!(matches!(
        optional_load(Err(missing()), false),
        Err(ConfigError::Read { .. })
    ));
    assert!(matches!(
        optional_load(Err(ConfigError::Parse("bad".to_owned())), true),
        Err(ConfigError::Parse(_))
    ));
}

#[test]
fn only_the_default_configuration_is_written_before_it_is_opened() {
    let default_path = path("/home/someone/.captastic/captastic.toml");
    let explicit_path = path("/home/someone/explicit.toml");
    assert!(needs_default_config(
        false,
        &default_path,
        Some(&default_path)
    ));
    assert!(!needs_default_config(
        true,
        &default_path,
        Some(&default_path)
    ));
    assert!(!needs_default_config(
        false,
        &explicit_path,
        Some(&default_path)
    ));
    assert!(!needs_default_config(false, &explicit_path, None));
}

#[test]
fn editing_a_setting_keeps_comments_and_every_other_section() {
    let original = "schema_version = 1\n\n# The hotkey I spent an afternoon choosing.\n[hotkey]\nbinding = \"ctrl+alt+p\"\n\n[output]\n# Write every capture to disk.\nenabled = false\nformat = \"jpeg\"\njpeg_quality = 72\n";
    let updated = set_output_enabled(Some(original), true).expect("enable file output");
    assert_eq!(
        updated,
        original.replace("enabled = false", "enabled = true")
    );
    let back = set_output_enabled(Some(&updated), false).expect("disable file output");
    assert_eq!(back, original);
}

#[test]
fn editing_a_setting_adds_its_section_where_there_is_none() {
    let updated = set_output_enabled(
        Some("schema_version = 1\n\n[clipboard]\nenabled = true\n"),
        true,
    )
    .expect("enable file output");
    assert!(updated.contains("[output]"), "{updated}");
    assert!(
        updated.contains("[clipboard]\nenabled = true\n"),
        "{updated}"
    );
    let document: toml_edit::Document = updated.parse().expect("still a document");
    assert_eq!(document["output"]["enabled"].as_bool(), Some(true));

    let created = set_output_enabled(None, true).expect("create the configuration");
    assert!(created.contains("schema_version = 1"), "{created}");
    assert!(created.contains("[output]"), "{created}");
    assert!(created.contains("enabled = true"), "{created}");
    assert!(!created.contains("[clipboard]"), "{created}");
    assert!(!created.contains("format"), "{created}");
}

#[test]
fn editing_a_setting_reports_what_it_cannot_edit() {
    assert!(matches!(
        set_output_enabled(Some("schema_version = 1\n[output\nenabled = false\n"), true),
        Err(ConfigError::Edit(_))
    ));
    assert!(set_output_enabled(Some("output = 3\n"), true).is_err());
    let inline = set_output_enabled(Some("output = { enabled = false }\n"), true).expect("inline");
    let document: toml_edit::Document = inline.parse().expect("still a document");
    assert_eq!(document["output"]["enabled"].as_bool(), Some(true));
}

#[test]
fn every_error_says_what_went_wrong() {
    let pairs = [
        (
            ConfigError::HomeDirectoryUnavailable,
            "unable to determine the user home directory from USERPROFILE or HOME",
        ),
        (
            ConfigError::Read {
                path: "a".to_owned(),
                source: "b".to_owned(),
            },
            "failed to read configuration a: b",
        ),
        (
            ConfigError::Parse("p".to_owned()),
            "failed to parse configuration: p",
        ),
        (
            ConfigError::Edit("e".to_owned()),
            "failed to edit configuration: e",
        ),
        (
            ConfigError::Serialize("s".to_owned()),
            "failed to serialize configuration: s",
        ),
        (
            ConfigError::Write {
                path: "a".to_owned(),
                source: "b".to_owned(),
            },
            "failed to write configuration a: b",
        ),
        (
            ConfigError::Quarantine {
                path: "a".to_owned(),
                source: "b".to_owned(),
            },
            "failed to quarantine damaged configuration a: b",
        ),
        (
            ConfigError::UnsupportedSchema(12),
            "unsupported configuration schema version 12",
        ),
        (
            ConfigError::InvalidValue("v".to_owned()),
            "invalid configuration: v",
        ),
    ];
    for (error, text) in pairs {
        assert_eq!(error.message(), text);
    }
    assert_eq!(AppError::InvalidArgument("x".to_owned()).exit_code(), 2);
    assert_eq!(AppError::BackendUnavailable("x".to_owned()).exit_code(), 4);
    assert_eq!(
        AppError::Write {
            path: "p".to_owned(),
            source: "s".to_owned()
        }
        .exit_code(),
        8
    );
    assert_eq!(AppError::Metrics("m".to_owned()).exit_code(), 10);
    assert_eq!(
        AppError::BackendUnavailable("gone".to_owned()).message(),
        "backend unavailable: gone"
    );
}

#[test]
fn a_template_that_cannot_name_captures_is_invalid() {
    let mut config = AppConfig::default();
    assert!(config.validate().is_ok());
    config.output.filename_template = "captastic-{tilte}".to_owned();
    let error = config.validate().expect_err("an unknown token");
    assert!(matches!(&error, ConfigError::InvalidValue(_)));
    assert!(error.message().contains("{tilte}"));
    config.output.filename_template = "fixed".to_owned();
    assert!(matches!(config.validate(), Err(ConfigError::InvalidValue(_))));
}

#[test]
fn a_directory_that_is_relative_everywhere_is_refused() {
    for directory in ["captures/today", "a\\b", "captures"] {
        let mut config = AppConfig::default();
        config.output.directory = Some(directory.to_owned());
        assert!(matches!(config.validate(), Err(ConfigError::InvalidValue(_))), "{directory}");
    }
}

#[test]
fn comments_around_a_setting_stay() {
    let text = "# top\n[output] # header\n# above\nenabled   =  false   # behind\nformat = \"png\" # other\n\n[clipboard]\nenabled = true\n# end\n";
    let edited = set_output_enabled(Some(text), true).expect("an edit");
    assert_eq!(edited, text.replace("=  false ", "=  true "));
    let back = set_output_enabled(Some(&edited), false).expect("an edit");
    assert_eq!(back, text);

    let text = "[clipboard]\nenabled = true\n\n# nested\n[output.extra]\nkept = 1 # yes\n";
    let edited = set_output_enabled(Some(text), true).expect("an edit");
    assert!(edited.contains("kept = 1 # yes"), "{edited}");
    assert!(edited.contains("# nested"), "{edited}");
    let document: toml_edit::Document = edited.parse().expect("still a document");
    assert_eq!(document["output"]["enabled"].as_bool(), Some(true));
    assert_eq!(document["output"]["extra"]["kept"].as_integer(), Some(1));

    let edited = set_output_enabled(Some("output = { enabled = false , a = 1 } # x\n"), true);
    assert_eq!(edited.expect("an edit"), "output = { enabled = true , a = 1 } # x\n");
    let edited = set_output_enabled(Some("[output]\nenabled = \"no\" # why\n"), true);
    assert_eq!(edited.expect("an edit"), "[output]\nenabled = true # why\n");
    let edited = set_output_enabled(Some("# a\r\n[output] # b\r\nenabled = true # c\r\n"), false);
    assert_eq!(edited.expect("an edit"), "# a\n[output] # b\nenabled = false # c\n");
    let edited = set_output_enabled(Some("# only this\n"), false).expect("an edit");
    assert!(edited.contains("# only this"), "{edited}");
    assert!(edited.contains("[output]\nenabled = false\n"), "{edited}");
}
