use captastic::config::LoggingConfig;
use captastic::logging::{
    archive_path, default_log_path, format_console_entry, format_entry, format_utc_timestamp, init,
    init_console, line_bytes, parse_level, rotate_archives, rotation_lock_path, Level, LevelFilter,
    LineFormat, LogEntry, LogPlace, OnDisk, RotatingWriter, RotationReport, STALENESS_CHECK_LINES,
};
use captastic::path::{FilePath, PathPart};

fn entry() -> LogEntry {
    LogEntry {
        unix_micros: 1_786_325_894_402_172,
        level: Level::Warn,
        target: "captastic::test".to_owned(),
        thread: "worker".to_owned(),
        message: "sample message".to_owned(),
    }
}

fn storage() -> FilePath {
    FilePath {
        parts: vec![PathPart::Normal("storage".to_owned())],
    }
}

#[test]
fn validates_supported_levels() {
    assert_eq!(parse_level("debug"), Ok(LevelFilter::Debug));
    assert!(parse_level("verbose").is_err());
}

#[test]
fn compact_lines_hold_the_context_of_an_entry() {
    assert_eq!(
        format_entry(LineFormat::Compact, &entry()),
        "2026-08-10T01:38:14.402172Z WARN captastic::test: sample message"
    );
    assert_eq!(
        format_console_entry(LineFormat::Compact, &entry()),
        "\u{1b}[90m2026-08-10T01:38:14.402172Z\u{1b}[0m \u{1b}[1;93mWARN\u{1b}[0m \u{1b}[36mcaptastic::test\u{1b}[0m: sample message"
    );
    assert!(!format_console_entry(LineFormat::Json, &entry()).contains('\u{1b}'));
}

#[test]
fn json_log_is_machine_readable() {
    let value: serde_json::Value =
        serde_json::from_str(&format_entry(LineFormat::Json, &entry())).expect("JSON log");
    assert_eq!(value["timestamp"], "2026-08-10T01:38:14.402172Z");
    assert_eq!(value["level"], "warn");
    assert_eq!(value["message"], "sample message");
    assert_eq!(value["thread"], "worker");
    assert_eq!(value["target"], "captastic::test");
    assert_eq!(value.as_object().expect("an object").len(), 5);
}

#[test]
fn utc_timestamp_handles_epoch_and_leap_day() {
    assert_eq!(format_utc_timestamp(0), "1970-01-01T00:00:00.000000Z");
    assert_eq!(
        format_utc_timestamp(1_709_164_800_000_001),
        "2024-02-29T00:00:00.000001Z"
    );
}

#[test]
fn a_filter_lets_through_what_is_as_grave_or_graver() {
    assert!(LevelFilter::Warn.enabled(Level::Error));
    assert!(LevelFilter::Warn.enabled(Level::Warn));
    assert!(!LevelFilter::Warn.enabled(Level::Info));
    assert!(!LevelFilter::Off.enabled(Level::Error));
    assert!(LevelFilter::Trace.enabled(Level::Trace));
}

#[test]
fn a_log_is_set_up_as_the_configuration_says() {
    let setup = init(&LoggingConfig::default(), Some(&storage())).expect("a log");
    assert_eq!(setup.level, LevelFilter::Info);
    assert_eq!(setup.format, LineFormat::Compact);
    assert_eq!(
        setup.place,
        LogPlace::Default(storage().join("logs").join("captastic.log"))
    );
    assert_eq!(
        init(&LoggingConfig::default(), None),
        Err("unable to determine the user home directory from USERPROFILE or HOME".to_owned())
    );
    let mut config = LoggingConfig::default();
    config.file = Some("here.log".to_owned());
    assert_eq!(
        init(&config, None).expect("a named log").place,
        LogPlace::Named("here.log".to_owned())
    );
    config.max_file_bytes = 0;
    assert_eq!(
        init(&config, None),
        Err("log size limit must be greater than zero".to_owned())
    );
    config.max_file_bytes = 1;
    config.retained_files = 0;
    assert_eq!(
        init(&config, None),
        Err("retained log file count must be greater than zero".to_owned())
    );
    config.format = "xml".to_owned();
    assert_eq!(
        init(&config, None),
        Err("unsupported log format xml".to_owned())
    );
    assert!(init_console(&config).is_err());
    config.format = "json".to_owned();
    assert_eq!(
        init_console(&config),
        Ok((LevelFilter::Info, LineFormat::Json))
    );
    config.level = "loud".to_owned();
    assert_eq!(
        init(&config, None),
        Err("unsupported log level loud".to_owned())
    );
    assert!(default_log_path(None).is_err());
}

#[test]
fn a_rotation_moves_every_archive_one_place_on() {
    let mut slots: Vec<Option<&str>> = vec![None; 5];
    let (mut writer, rotate) = RotatingWriter::new(0, 10, 3);
    assert!(!rotate);
    let mut active = String::new();
    for line in ["12345678", "abcdefgh", "ABCDEFGH", "87654321"] {
        let bytes = line_bytes(line);
        if writer.needs_rotation(bytes) {
            slots[0] = Some(match active.as_str() {
                "12345678\n" => "12345678\n",
                "abcdefgh\n" => "abcdefgh\n",
                _ => "ABCDEFGH\n",
            });
            for (from, to) in rotate_archives(writer.retained_files) {
                if let Some(file) = slots[from].take() {
                    slots[to] = Some(file);
                }
            }
            active.clear();
            writer.reopened(0);
        }
        active.push_str(line);
        active.push('\n');
        writer.wrote(bytes);
        assert!(active.len() as u64 == writer.bytes_written);
        assert!(writer.bytes_written <= 10);
    }
    assert_eq!(active, "87654321\n");
    assert_eq!(
        slots,
        vec![
            None,
            Some("ABCDEFGH\n"),
            Some("abcdefgh\n"),
            Some("12345678\n"),
            None
        ]
    );
    assert_eq!(archive_path("captastic.log", 3), "captastic.log.3");
    assert_eq!(
        rotation_lock_path("captastic.log"),
        "captastic.log.rotate-lock"
    );
}

#[test]
fn a_writer_notices_a_file_that_is_no_longer_its_own() {
    let (mut writer, _) = RotatingWriter::new(100, 1_000, 3);
    assert!(!writer.rotated_by_another_process(OnDisk::Length(100)));
    assert!(writer.rotated_by_another_process(OnDisk::Length(99)));
    assert!(writer.rotated_by_another_process(OnDisk::Missing));
    assert!(!writer.rotated_by_another_process(OnDisk::Unknown));
    assert!(writer.rotation_already_done(OnDisk::Length(99)));
    assert!(!writer.rotation_already_done(OnDisk::Missing));
    for _ in 1..STALENESS_CHECK_LINES {
        assert!(!writer.count_line());
    }
    assert!(writer.count_line());
    assert!(!writer.count_line());
}

#[test]
fn a_failed_rotation_is_reported_once_and_so_is_its_recovery() {
    let (mut writer, rotate) = RotatingWriter::new(10, 10, 1);
    assert!(rotate);
    assert_eq!(writer.rotate_or_report(true), RotationReport::Silent);
    assert_eq!(writer.rotate_or_report(false), RotationReport::Failed);
    assert_eq!(writer.rotate_or_report(false), RotationReport::Silent);
    assert_eq!(writer.suppressed_rotation_failures, 2);
    assert_eq!(writer.rotate_or_report(true), RotationReport::Recovered(2));
    assert_eq!(writer.rotate_or_report(true), RotationReport::Silent);
}
