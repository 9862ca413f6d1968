use captastic::error::ConfigError;
use captastic::history::{
    frame_history, read_history, CaptureHistory, HistoryEntry, HistoryRead, HistoryStore,
    RetentionPolicy, HISTORY_FILE_NAME, HISTORY_SCHEMA_VERSION,
};
use captastic::path::{FilePath, PathPart};

fn policy(max_items: usize) -> RetentionPolicy {
    RetentionPolicy {
        max_items,
        max_age: None,
        max_total_bytes: None,
    }
}

fn entry(label: &str, captured_at_micros: i64, bytes: u64) -> HistoryEntry {
    HistoryEntry {
        path: format!("C:/captures/{label}.png"),
        captured_at_micros,
        bytes,
        width: 1920,
        height: 1080,
        display: "primary".to_owned(),
        mode: "region".to_owned(),
    }
}

fn now() -> u128 {
    1_000_000 * 1_000_000_000
}

fn micros_ago(seconds: i64) -> i64 {
    (1_000_000 - seconds) * 1_000_000
}

fn storage() -> FilePath {
    FilePath {
        parts: vec![PathPart::Root, PathPart::Normal("storage".to_owned())],
    }
}

fn paths(history: &CaptureHistory) -> Vec<&str> {
    history
        .entries
        .iter()
        .map(|entry| entry.path.as_str())
        .collect()
}

#[test]
fn the_newest_capture_is_the_one_at_the_front() {
    let mut history = CaptureHistory::default();
    history.record(entry("first", micros_ago(30), 10), policy(10), now());
    history.record(entry("second", micros_ago(20), 10), policy(10), now());

    assert_eq!(
        history.most_recent().expect("a capture").path,
        "C:/captures/second.png"
    );
}

#[test]
fn an_item_limit_forgets_the_oldest_and_says_which() {
    let mut history = CaptureHistory::default();
    let mut forgotten = Vec::new();
    for index in 0..5_i64 {
        forgotten.extend(history.record(
            entry(&format!("capture-{index}"), micros_ago(50 - index), 10),
            policy(3),
            now(),
        ));
    }

    assert_eq!(history.entries.len(), 3);
    assert_eq!(
        paths(&history),
        [
            "C:/captures/capture-4.png",
            "C:/captures/capture-3.png",
            "C:/captures/capture-2.png"
        ]
    );
    assert_eq!(forgotten.len(), 2);
    assert_eq!(forgotten[0].path, "C:/captures/capture-0.png");
    assert_eq!(forgotten[1].path, "C:/captures/capture-1.png");
}

#[test]
fn an_age_limit_is_measured_against_an_injected_clock() {
    let mut history = CaptureHistory::default();
    history.record(entry("old", micros_ago(3_600), 10), policy(10), now());
    history.record(entry("fresh", micros_ago(10), 10), policy(10), now());

    let dropped = history.prune(
        RetentionPolicy {
            max_items: 10,
            max_age: Some(60),
            max_total_bytes: None,
        },
        now(),
    );

    assert_eq!(dropped.len(), 1);
    assert_eq!(dropped[0].path, "C:/captures/old.png");
    assert_eq!(history.entries.len(), 1);
}

#[test]
fn a_storage_limit_keeps_the_newest_that_fit() {
    let mut history = CaptureHistory::default();
    for index in 0..4_i64 {
        history.record(
            entry(&format!("capture-{index}"), micros_ago(40 - index), 100),
            policy(10),
            now(),
        );
    }

    let dropped = history.prune(
        RetentionPolicy {
            max_items: 10,
            max_age: None,
            max_total_bytes: Some(250),
        },
        now(),
    );

    assert_eq!(history.entries.len(), 2);
    assert_eq!(dropped.len(), 2);
    assert!(history.entries.iter().map(|entry| entry.bytes).sum::<u64>() <= 250);
}

#[test]
fn a_zero_item_limit_remembers_nothing() {
    let mut history = CaptureHistory::default();
    let dropped = history.record(entry("capture", micros_ago(1), 10), policy(0), now());

    assert!(history.entries.is_empty());
    assert_eq!(dropped.len(), 1);
    assert!(history.most_recent().is_none());
}

#[test]
fn pruning_twice_forgets_nothing_more() {
    let strict = RetentionPolicy {
        max_items: 3,
        max_age: Some(100),
        max_total_bytes: Some(25),
    };
    let mut history = CaptureHistory::default();
    for index in 0..6_i64 {
        history.record(
            entry(&format!("{index}"), micros_ago(120 - 20 * index), 10),
            policy(10),
            now(),
        );
    }
    assert_eq!(history.prune(strict, now()).len(), 4);
    assert_eq!(history.prune(strict, now()).len(), 0);
    assert_eq!(paths(&history), ["C:/captures/5.png", "C:/captures/4.png"]);
}

#[test]
fn a_store_adds_captures_to_what_it_reads() {
    let store = HistoryStore::at(storage().join(HISTORY_FILE_NAME));
    let (history, dropped) = store
        .record(
            HistoryRead::Missing,
            entry("first", micros_ago(20), 10),
            policy(10),
            now(),
        )
        .expect("record");
    assert!(dropped.is_empty());
    let (history, _) = store
        .record(
            HistoryRead::Parsed(history),
            entry("second", micros_ago(10), 20),
            policy(10),
            now(),
        )
        .expect("record");
    let history = store.load(HistoryRead::Parsed(history)).expect("load");
    assert_eq!(history.entries.len(), 2);
    assert_eq!(
        history.most_recent().expect("newest").path,
        "C:/captures/second.png"
    );
    assert_eq!(history.entries[1].bytes, 10);
    assert_eq!(history.entries[0].display, "primary");

    let present = vec!["C:/captures/second.png".to_owned()];
    let (history, dropped) = store
        .prune(HistoryRead::Parsed(history), policy(1), now(), &present)
        .expect("prune");
    assert_eq!(paths(&history), ["C:/captures/second.png"]);
    assert_eq!(dropped.len(), 1);
}

#[test]
fn captures_whose_files_are_gone_leave_the_history() {
    let mut history = CaptureHistory::default();
    history.record(entry("gone", micros_ago(20), 10), policy(10), now());
    history.record(entry("present", micros_ago(10), 10), policy(10), now());
    assert_eq!(history.forget_missing(&vec![true, false]), 1);
    assert_eq!(
        history.most_recent().expect("survivor").path,
        "C:/captures/present.png"
    );
}

#[test]
fn a_history_that_cannot_be_read_is_reported() {
    let store = HistoryStore::at(storage().join(HISTORY_FILE_NAME));
    let newer = CaptureHistory {
        schema_version: HISTORY_SCHEMA_VERSION + 1,
        entries: Vec::new(),
    };
    assert_eq!(
        store.load(HistoryRead::Parsed(newer)).err(),
        Some(ConfigError::UnsupportedSchema(HISTORY_SCHEMA_VERSION + 1))
    );
    assert_eq!(
        store
            .load(HistoryRead::Malformed("bad".to_owned()))
            .err(),
        Some(ConfigError::Parse("bad".to_owned()))
    );
    assert_eq!(
        read_history(HistoryRead::Failed {
            path: "h".to_owned(),
            source: "denied".to_owned()
        })
        .err(),
        Some(ConfigError::Read {
            path: "h".to_owned(),
            source: "denied".to_owned()
        })
    );
    assert!(store.load(HistoryRead::Missing).expect("none").entries.is_empty());
    assert_eq!(
        HistoryStore::for_default_storage(None)
            .load(HistoryRead::Missing)
            .err(),
        Some(ConfigError::HomeDirectoryUnavailable)
    );
}

#[test]
fn a_store_sits_beside_what_it_belongs_to() {
    assert_eq!(
        HistoryStore::for_default_storage(Some(&storage())).path(),
        Some(&storage().join(HISTORY_FILE_NAME))
    );
    assert_eq!(
        HistoryStore::for_config(&storage().join("profile.toml")).path(),
        Some(&storage().join(HISTORY_FILE_NAME))
    );
}

#[test]
fn ages_and_stamps_stay_within_their_range() {
    let stamped = entry("x", 5_000_000, 1);
    assert_eq!(stamped.age(7_000_000_000), 2_000_000_000);
    assert_eq!(stamped.age(1), 0);
    assert_eq!(entry("x", -4, 1).age(9), 9);
    assert_eq!(HistoryEntry::micros_since_epoch(Some(1_999)), 1);
    assert_eq!(HistoryEntry::micros_since_epoch(None), 0);
    assert_eq!(HistoryEntry::micros_since_epoch(Some(u128::MAX)), 0);
}

#[test]
fn a_written_history_has_its_fields_at_the_top() {
    assert_eq!(
        frame_history("[history]\nschema_version = 1\n\n[[history.entries]]\npath = \"a\"\n\n[[history.entries]]\npath = \"b\"\n"),
        "schema_version = 1\n\n[[entries]]\npath = \"a\"\n\n[[entries]]\npath = \"b\"\n"
    );
    assert_eq!(frame_history("schema_version = 1\n"), "schema_version = 1\n");
}

#[test]
fn what_does_not_fit_takes_what_is_older_with_it() {
    let mut history = CaptureHistory::default();
    for (label, bytes) in [("oldest", 30), ("middle", 100), ("newest", 60)] {
        history.record(entry(label, micros_ago(10), bytes), policy(10), now());
    }
    let small = RetentionPolicy {
        max_items: 10,
        max_age: None,
        max_total_bytes: Some(100),
    };
    let dropped = history.prune(small, now());
    assert_eq!(paths(&history), ["C:/captures/newest.png"]);
    assert_eq!(dropped.len(), 2);
    assert_eq!(dropped[0].path, "C:/captures/middle.png");
}

#[test]
fn what_is_too_old_takes_no_room() {
    let mut history = CaptureHistory::default();
    for (label, age, bytes) in [("c", 10, 40), ("b", 500, 90), ("a", 5, 60)] {
        history.record(entry(label, micros_ago(age), bytes), policy(10), now());
    }
    let strict = RetentionPolicy {
        max_items: 10,
        max_age: Some(100),
        max_total_bytes: Some(100),
    };
    assert_eq!(history.prune(strict, now()).len(), 1);
    assert_eq!(paths(&history), ["C:/captures/a.png", "C:/captures/c.png"]);
}

#[test]
fn an_explicit_prune_also_forgets_what_the_user_removed() {
    let store = HistoryStore::at(FilePath {
        parts: vec![PathPart::Normal(HISTORY_FILE_NAME.to_owned())],
    });
    let mut history = CaptureHistory::default();
    for label in ["old", "gone", "here"] {
        history.record(entry(label, micros_ago(10), 1), policy(10), now());
    }
    let present = vec![
        "C:/captures/old.png".to_owned(),
        "C:/captures/here.png".to_owned(),
        "C:/captures/other.png".to_owned(),
    ];
    let (kept, forgotten) = store
        .prune(HistoryRead::Parsed(history), policy(2), now(), &present)
        .expect("a history");
    assert_eq!(paths(&kept), ["C:/captures/here.png"]);
    assert_eq!(forgotten.len(), 1);
    assert_eq!(forgotten[0].path, "C:/captures/old.png");

    let (empty, forgotten) = store
        .prune(HistoryRead::Missing, policy(2), now(), &present)
        .expect("no history yet");
    assert!(empty.entries.is_empty() && forgotten.is_empty());
    assert!(matches!(
        store.prune(HistoryRead::Malformed("bad".to_owned()), policy(2), now(), &present),
        Err(ConfigError::Parse(_))
    ));
}
