//! The log: its levels, its lines, and the rotation of its file.
use vstd::prelude::*;
use vstd::string::*;

use crate::clock::{
    law_every_moment_has_parts, lemma_four_digit_year, parts_at, utc_parts,
};
use crate::config::LoggingConfig;
use crate::json::{insert_text, json_text, new_object, no_fields, render, JsonField};
use crate::path::{FilePath, Part};
use crate::text::{
    decimal, decimal_text, ends_with, law_padded_numbers_read_back, lemma_padded, lowered, number_in, padded,
    padded_text, same, stands_at, starts_with, ten_to,
};

verus! {

/// The severity of a log entry.
#[derive(Clone, Copy, Debug, Eq, PartialEq, Structural)]
pub enum Level {
    Error,
    Warn,
    Info,
    Debug,
    Trace,
}

/// The entries that are logged.
#[derive(Clone, Copy, Debug, Eq, PartialEq, Structural)]
pub enum LevelFilter {
    Off,
    Error,
    Warn,
    Info,
    Debug,
    Trace,
}

impl Level {
    /// How verbose the level is.
    pub open spec fn rank(self) -> int {
        match self {
            Level::Error => 1,
            Level::Warn => 2,
            Level::Info => 3,
            Level::Debug => 4,
            Level::Trace => 5,
        }
    }

    /// The name of the level on compact lines.
    pub open spec fn name(self) -> Seq<char> {
        match self {
            Level::Error => "ERROR"@,
            Level::Warn => "WARN"@,
            Level::Info => "INFO"@,
            Level::Debug => "DEBUG"@,
            Level::Trace => "TRACE"@,
        }
    }

    /// The name of the level in JSON.
    pub open spec fn small_name(self) -> Seq<char> {
        match self {
            Level::Error => "error"@,
            Level::Warn => "warn"@,
            Level::Info => "info"@,
            Level::Debug => "debug"@,
            Level::Trace => "trace"@,
        }
    }

    /// The colour of the level on a console.
    pub open spec fn color(self) -> Seq<char> {
        match self {
            Level::Error => "1;91"@,
            Level::Warn => "1;93"@,
            Level::Info => "1;92"@,
            Level::Debug => "1;94"@,
            Level::Trace => "35"@,
        }
    }

    fn as_str(self) -> (name: &'static str)
        ensures
            name@ == self.name(),
    {
        match self {
            Level::Error => "ERROR",
            Level::Warn => "WARN",
            Level::Info => "INFO",
            Level::Debug => "DEBUG",
            Level::Trace => "TRACE",
        }
    }

    fn as_small_str(self) -> (name: &'static str)
        ensures
            name@ == self.small_name(),
    {
        match self {
            Level::Error => "error",
            Level::Warn => "warn",
            Level::Info => "info",
            Level::Debug => "debug",
            Level::Trace => "trace",
        }
    }

    fn color_code(self) -> (code: &'static str)
        ensures
            code@ == self.color(),
    {
        match self {
            Level::Error => "1;91",
            Level::Warn => "1;93",
            Level::Info => "1;92",
            Level::Debug => "1;94",
            Level::Trace => "35",
        }
    }
}

impl LevelFilter {
    /// The most verbose level that passes.
    pub open spec fn rank(self) -> int {
        match self {
            LevelFilter::Off => 0,
            LevelFilter::Error => 1,
            LevelFilter::Warn => 2,
            LevelFilter::Info => 3,
            LevelFilter::Debug => 4,
            LevelFilter::Trace => 5,
        }
    }

    /// Whether an entry of this level is logged.
    pub fn enabled(self, level: Level) -> (yes: bool)
        ensures
            yes == (level.rank() <= self.rank()),
    {
        let limit: u8 = match self {
            LevelFilter::Off => 0,
            LevelFilter::Error => 1,
            LevelFilter::Warn => 2,
            LevelFilter::Info => 3,
            LevelFilter::Debug => 4,
            LevelFilter::Trace => 5,
        };
        let rank: u8 = match level {
            Level::Error => 1,
            Level::Warn => 2,
            Level::Info => 3,
            Level::Debug => 4,
            Level::Trace => 5,
        };
        rank <= limit
    }
}

/// The filter that a text names.
pub open spec fn level_named(value: Seq<char>) -> Option<LevelFilter> {
    if value == "off"@ {
        Some(LevelFilter::Off)
    } else if value == "error"@ {
        Some(LevelFilter::Error)
    } else if value == "warn"@ {
        Some(LevelFilter::Warn)
    } else if value == "info"@ {
        Some(LevelFilter::Info)
    } else if value == "debug"@ {
        Some(LevelFilter::Debug)
    } else if value == "trace"@ {
        Some(LevelFilter::Trace)
    } else {
        None
    }
}

/// Reads a log level.
pub fn parse_level(value: &str) -> (result: Result<LevelFilter, String>)
    ensures
        match level_named(value@) {
            Some(filter) => result == Ok::<LevelFilter, String>(filter),
            None => result matches Err(text) && text@ == "unsupported log level "@ + value@,
        },
{
    if same(value, "off") {
        Ok(LevelFilter::Off)
    } else if same(value, "error") {
        Ok(LevelFilter::Error)
    } else if same(value, "warn") {
        Ok(LevelFilter::Warn)
    } else if same(value, "info") {
        Ok(LevelFilter::Info)
    } else if same(value, "debug") {
        Ok(LevelFilter::Debug)
    } else if same(value, "trace") {
        Ok(LevelFilter::Trace)
    } else {
        let mut text = "unsupported log level ".to_owned();
        text.append(value);
        Err(text)
    }
}

/// How a line is written.
#[derive(Clone, Copy, Debug, Eq, PartialEq, Structural)]
pub enum LineFormat {
    Compact,
    Json,
}

/// The format that a text names.
pub open spec fn format_named(value: Seq<char>) -> Option<LineFormat> {
    if value == "compact"@ {
        Some(LineFormat::Compact)
    } else if value == "json"@ {
        Some(LineFormat::Json)
    } else {
        None
    }
}

/// Reads a line format.
fn parse_format(value: &str) -> (result: Result<LineFormat, String>)
    ensures
        match format_named(value@) {
            Some(format) => result == Ok::<LineFormat, String>(format),
            None => result matches Err(text) && text@ == "unsupported log format "@ + value@,
        },
{
    if same(value, "compact") {
        Ok(LineFormat::Compact)
    } else if same(value, "json") {
        Ok(LineFormat::Json)
    } else {
        let mut text = "unsupported log format ".to_owned();
        text.append(value);
        Err(text)
    }
}

/// Where the log is when no other place was named.
pub fn default_log_path(storage: Option<&FilePath>) -> (result: Result<FilePath, String>)
    ensures
        match storage {
            Some(storage) => result matches Ok(path) && path@ == storage@.push(
                Part::Normal("logs"@),
            ).push(Part::Normal("captastic.log"@)),
            None => result matches Err(text) && text@
                == "unable to determine the user home directory from USERPROFILE or HOME"@,
        },
{
    match storage {
        Some(storage) => Ok(storage.join("logs").join("captastic.log")),
        None => Err(
            "unable to determine the user home directory from USERPROFILE or HOME".to_owned(),
        ),
    }
}

/// Where a log is written to.
#[derive(Debug, Eq, PartialEq)]
pub enum LogPlace {
    /// The file that the configuration names.
    Named(String),
    /// The default file.
    Default(FilePath),
}

/// A log to be opened.
#[derive(Debug, Eq, PartialEq)]
pub struct LogSetup {
    pub level: LevelFilter,
    pub format: LineFormat,
    pub place: LogPlace,
}

/// Why a log cannot be set up.
pub open spec fn setup_fault(config: LoggingConfig, has_storage: bool) -> Option<Seq<char>> {
    if level_named(config.level@) is None {
        Some("unsupported log level "@ + config.level@)
    } else if format_named(config.format@) is None {
        Some("unsupported log format "@ + config.format@)
    } else if config.file is None && !has_storage {
        Some("unable to determine the user home directory from USERPROFILE or HOME"@)
    } else if config.max_file_bytes == 0 {
        Some("log size limit must be greater than zero"@)
    } else if config.retained_files == 0 {
        Some("retained log file count must be greater than zero"@)
    } else {
        None
    }
}

/// What the configuration asks of a log file.
pub fn init(config: &LoggingConfig, storage: Option<&FilePath>) -> (result: Result<LogSetup, String>)
    ensures
        match setup_fault(*config, storage is Some) {
            Some(message) => result matches Err(text) && text@ == message,
            None => result matches Ok(setup) && Some(setup.level) == level_named(config.level@)
                && Some(setup.format) == format_named(config.format@) && match config.file {
                Some(file) => setup.place == LogPlace::Named(file),
                None => setup.place matches LogPlace::Default(path) && path@
                    == storage->Some_0@.push(Part::Normal("logs"@)).push(
                    Part::Normal("captastic.log"@),
                ),
            },
        },
{
    let level = match parse_level(config.level.as_str()) {
        Ok(level) => level,
        Err(error) => {
            return Err(error);
        },
    };
    let format = match parse_format(config.format.as_str()) {
        Ok(format) => format,
        Err(error) => {
            return Err(error);
        },
    };
    let place = match &config.file {
        Some(file) => LogPlace::Named(file.clone()),
        None => match default_log_path(storage) {
            Ok(path) => LogPlace::Default(path),
            Err(error) => {
                return Err(error);
            },
        },
    };
    if config.max_file_bytes == 0 {
        return Err("log size limit must be greater than zero".to_owned());
    }
    if config.retained_files == 0 {
        return Err("retained log file count must be greater than zero".to_owned());
    }
    Ok(LogSetup { level, format, place })
}

/// What the configuration asks of a log on the console.
pub fn init_console(config: &LoggingConfig) -> (result: Result<(LevelFilter, LineFormat), String>)
    ensures
        match (level_named(config.level@), format_named(config.format@)) {
            (None, _) => result matches Err(text) && text@ == "unsupported log level "@
                + config.level@,
            (Some(_), None) => result matches Err(text) && text@ == "unsupported log format "@
                + config.format@,
            (Some(level), Some(format)) => result == Ok::<(LevelFilter, LineFormat), String>(
                (level, format),
            ),
        },
{
    let level = match parse_level(config.level.as_str()) {
        Ok(level) => level,
        Err(error) => {
            return Err(error);
        },
    };
    match parse_format(config.format.as_str()) {
        Ok(format) => Ok((level, format)),
        Err(error) => Err(error),
    }
}

/// An entry of the log.
#[derive(Debug)]
pub struct LogEntry {
    pub unix_micros: u128,
    pub level: Level,
    pub target: String,
    pub thread: String,
    pub message: String,
}

/// A moment, as log lines give it.
pub open spec fn timestamp_text(unix_micros: u128) -> Seq<char> {
    let (year, month, day, hour, minute, second, _) = parts_at(unix_micros);
    padded(year as nat, 4) + "-"@ + padded(month as nat, 2) + "-"@ + padded(day as nat, 2) + "T"@
        + padded(hour as nat, 2) + ":"@ + padded(minute as nat, 2) + ":"@ + padded(
        second as nat,
        2,
    ) + "."@ + padded((unix_micros % 1_000_000) as nat, 6) + "Z"@
}

/// A moment, as log lines give it.
pub fn format_utc_timestamp(unix_micros: u128) -> (text: String)
    ensures
        text@ == timestamp_text(unix_micros),
{
    let (year, month, day, hour, minute, second, _) = utc_parts(unix_micros);
    let micros: u64 = (unix_micros % 1_000_000) as u64;
    let mut text = padded_text(year as u64, 4);
    text.append("-");
    text.append(padded_text(month as u64, 2).as_str());
    text.append("-");
    text.append(padded_text(day as u64, 2).as_str());
    text.append("T");
    text.append(padded_text(hour as u64, 2).as_str());
    text.append(":");
    text.append(padded_text(minute as u64, 2).as_str());
    text.append(":");
    text.append(padded_text(second as u64, 2).as_str());
    text.append(".");
    text.append(padded_text(micros, 6).as_str());
    text.append("Z");
    text
}

/// The line of an entry.
pub open spec fn entry_text(format: LineFormat, entry: LogEntry) -> Seq<char> {
    match format {
        LineFormat::Compact => timestamp_text(entry.unix_micros) + " "@ + entry.level.name() + " "@
            + entry.target@ + ": "@ + entry.message@,
        LineFormat::Json => json_text(
            no_fields().insert("timestamp"@, JsonField::Text(timestamp_text(entry.unix_micros))).insert(
                "level"@,
                JsonField::Text(entry.level.small_name()),
            ).insert("thread"@, JsonField::Text(entry.thread@)).insert(
                "target"@,
                JsonField::Text(entry.target@),
            ).insert("message"@, JsonField::Text(entry.message@)),
        ),
    }
}

/// The line of an entry in the log file.
pub fn format_entry(format: LineFormat, entry: &LogEntry) -> (line: String)
    ensures
        line@ == entry_text(format, *entry),
{
    let timestamp = format_utc_timestamp(entry.unix_micros);
    match format {
        LineFormat::Compact => {
            let mut line = timestamp;
            line.append(" ");
            line.append(entry.level.as_str());
            line.append(" ");
            line.append(entry.target.as_str());
            line.append(": ");
            line.append(entry.message.as_str());
            line
        },
        LineFormat::Json => {
            let mut object = new_object();
            insert_text(&mut object, "timestamp", timestamp.as_str());
            insert_text(&mut object, "level", entry.level.as_small_str());
            insert_text(&mut object, "thread", entry.thread.as_str());
            insert_text(&mut object, "target", entry.target.as_str());
            insert_text(&mut object, "message", entry.message.as_str());
            render(object)
        },
    }
}

/// The line of an entry on the console: the same, with colours where the format has room for them.
pub open spec fn console_text(format: LineFormat, entry: LogEntry) -> Seq<char> {
    match format {
        LineFormat::Json => entry_text(format, entry),
        LineFormat::Compact => "\u{1b}[90m"@ + timestamp_text(entry.unix_micros)
            + "\u{1b}[0m \u{1b}["@ + entry.level.color() + "m"@ + entry.level.name()
            + "\u{1b}[0m \u{1b}[36m"@ + entry.target@ + "\u{1b}[0m: "@ + entry.message@,
    }
}

/// The line of an entry on the console.
pub fn format_console_entry(format: LineFormat, entry: &LogEntry) -> (line: String)
    ensures
        line@ == console_text(format, *entry),
{
    match format {
        LineFormat::Json => format_entry(format, entry),
        LineFormat::Compact => {
            let mut line = "\u{1b}[90m".to_owned();
            line.append(format_utc_timestamp(entry.unix_micros).as_str());
            line.append("\u{1b}[0m \u{1b}[");
            line.append(entry.level.color_code());
            line.append("m");
            line.append(entry.level.as_str());
            line.append("\u{1b}[0m \u{1b}[36m");
            line.append(entry.target.as_str());
            line.append("\u{1b}[0m: ");
            line.append(entry.message.as_str());
            line
        },
    }
}

/// How many lines are written between two looks for another process's rotation.
pub const STALENESS_CHECK_LINES: u64 = 256;

/// What is at the log's path.
#[derive(Clone, Copy, Debug, Eq, PartialEq, Structural)]
pub enum OnDisk {
    Length(u64),
    Missing,
    Unknown,
}

/// What is said on the console about the rotation of the log.
#[derive(Clone, Copy, Debug, Eq, PartialEq, Structural)]
pub enum RotationReport {
    /// Nothing.
    Silent,
    /// The rotation failed; logging goes on to the current file.
    Failed,
    /// The rotation works again, after this many failures.
    Recovered(u64),
}

/// What is said of a rotation that follows some failures in a row.
pub open spec fn rotation_report(failures: u64, succeeded: bool) -> RotationReport {
    if succeeded {
        if failures > 0 {
            RotationReport::Recovered(failures)
        } else {
            RotationReport::Silent
        }
    } else if failures == 0 {
        RotationReport::Failed
    } else {
        RotationReport::Silent
    }
}

/// How many rotations have failed in a row after another one.
pub open spec fn failures_after(failures: u64, succeeded: bool) -> u64 {
    if succeeded {
        0
    } else {
        byte_sum(failures as int, 1) as u64
    }
}

/// The failures in a row after so many rotations, none of which worked.
pub open spec fn failures_in_a_row(rotations: nat) -> u64
    decreases rotations,
{
    if rotations == 0 {
        0
    } else {
        failures_after(failures_in_a_row((rotations - 1) as nat), false)
    }
}

/// Of rotations that fail one after the other only the first is reported. Once a rotation works
/// again, so is how many failed.
pub proof fn law_a_run_of_failures_is_reported_once(rotations: nat)
    requires
        rotations <= u64::MAX,
    ensures
        rotation_report(failures_in_a_row(rotations), false) == if rotations == 0 {
            RotationReport::Failed
        } else {
            RotationReport::Silent
        },
        rotation_report(failures_in_a_row(rotations), true) == if rotations == 0 {
            RotationReport::Silent
        } else {
            RotationReport::Recovered(rotations as u64)
        },
    decreases rotations,
{
    if rotations > 0 {
        law_a_run_of_failures_is_reported_once((rotations - 1) as nat);
    }
}

/// The length of a line with its line end, in bytes.
pub fn line_bytes(line: &str) -> (bytes: u64)
    ensures
        bytes == if line.len() < usize::MAX {
            line.len() + 1
        } else {
            usize::MAX as int
        },
{
    line.len().saturating_add(1) as u64
}

/// A sum of bytes, no more than can be counted.
pub open spec fn byte_sum(a: int, b: int) -> int {
    if a + b > u64::MAX {
        u64::MAX as int
    } else {
        a + b
    }
}

/// The writer of a log file that is rotated by size.
#[derive(Clone, Copy, Debug, Eq, PartialEq, Structural)]
pub struct RotatingWriter {
    /// How long the file is, as far as this writer knows.
    pub bytes_written: u64,
    pub max_file_bytes: u64,
    pub retained_files: usize,
    /// Lines written since the last look for another process's rotation.
    pub lines_since_staleness_check: u64,
    /// Rotations that failed since one was reported.
    pub suppressed_rotation_failures: u64,
}

impl RotatingWriter {
    /// A writer on a file of some length, and whether the file has to be rotated first.
    pub fn new(bytes_written: u64, max_file_bytes: u64, retained_files: usize) -> (made: (
        Self,
        bool,
    ))
        ensures
            made.0 == (RotatingWriter {
                bytes_written,
                max_file_bytes,
                retained_files,
                lines_since_staleness_check: 0,
                suppressed_rotation_failures: 0,
            }),
            made.1 == (bytes_written >= max_file_bytes),
    {
        (
            RotatingWriter {
                bytes_written,
                max_file_bytes,
                retained_files,
                lines_since_staleness_check: 0,
                suppressed_rotation_failures: 0,
            },
            bytes_written >= max_file_bytes,
        )
    }

    /// Counts a line that is about to be written, and says whether it is time to look for another
    /// process's rotation.
    pub fn count_line(&mut self) -> (look: bool)
        ensures
            look == (old(self).lines_since_staleness_check >= STALENESS_CHECK_LINES - 1),
            *final(self) == (RotatingWriter {
                lines_since_staleness_check: if look {
                    0
                } else {
                    (old(self).lines_since_staleness_check + 1) as u64
                },
                ..*old(self)
            }),
    {
        self.lines_since_staleness_check = self.lines_since_staleness_check.saturating_add(1);
        if self.lines_since_staleness_check >= STALENESS_CHECK_LINES {
            self.lines_since_staleness_check = 0;
            return true;
        }
        false
    }

    /// Whether the file at the path is not the one that this writer has been writing: it is shorter
    /// than what was written, or gone.
    pub fn rotated_by_another_process(&self, on_disk: OnDisk) -> (yes: bool)
        ensures
            yes == match on_disk {
                OnDisk::Length(length) => length < self.bytes_written,
                OnDisk::Missing => true,
                OnDisk::Unknown => false,
            },
    {
        match on_disk {
            OnDisk::Length(length) => length < self.bytes_written,
            OnDisk::Missing => true,
            OnDisk::Unknown => false,
        }
    }

    /// Whether, once this writer may rotate, another process has done so already. A second rotation
    /// would archive a nearly empty file.
    pub fn rotation_already_done(&self, on_disk: OnDisk) -> (yes: bool)
        ensures
            yes == (on_disk matches OnDisk::Length(length) && length < self.bytes_written),
    {
        match on_disk {
            OnDisk::Length(length) => length < self.bytes_written,
            OnDisk::Missing | OnDisk::Unknown => false,
        }
    }

    /// Whether the file has to be rotated before a line. The first line of a file always fits.
    pub fn needs_rotation(&self, line_bytes: u64) -> (yes: bool)
        ensures
            yes == (self.bytes_written != 0 && byte_sum(self.bytes_written as int, line_bytes as int)
                > self.max_file_bytes),
    {
        self.bytes_written != 0 && self.bytes_written.saturating_add(line_bytes)
            > self.max_file_bytes
    }

    /// Takes the length of a file that was opened anew.
    pub fn reopened(&mut self, length: u64)
        ensures
            *final(self) == (RotatingWriter { bytes_written: length, ..*old(self) }),
    {
        self.bytes_written = length;
    }

    /// Counts a line that was written.
    pub fn wrote(&mut self, line_bytes: u64)
        ensures
            *final(self) == (RotatingWriter {
                bytes_written: byte_sum(old(self).bytes_written as int, line_bytes as int) as u64,
                ..*old(self)
            }),
    {
        self.bytes_written = self.bytes_written.saturating_add(line_bytes);
    }

    /// Takes the result of a rotation. The first of several failures is reported, and the recovery
    /// after them.
    pub fn rotate_or_report(&mut self, succeeded: bool) -> (report: RotationReport)
        ensures
            report == rotation_report(old(self).suppressed_rotation_failures, succeeded),
            *final(self) == (RotatingWriter {
                suppressed_rotation_failures: failures_after(
                    old(self).suppressed_rotation_failures,
                    succeeded,
                ),
                ..*old(self)
            }),
    {
        if succeeded {
            if self.suppressed_rotation_failures > 0 {
                let failures: u64 = self.suppressed_rotation_failures;
                self.suppressed_rotation_failures = 0;
                return RotationReport::Recovered(failures);
            }
            return RotationReport::Silent;
        }
        let first = self.suppressed_rotation_failures == 0;
        self.suppressed_rotation_failures = self.suppressed_rotation_failures.saturating_add(1);
        if first {
            RotationReport::Failed
        } else {
            RotationReport::Silent
        }
    }
}

/// A file whose rotations succeed stays within its limit: after a line it is no longer than the
/// limit, or it holds that line alone.
pub proof fn law_rotation_bounds_the_file(written: int, limit: int, line: int)
    requires
        0 <= written,
        0 <= line,
        0 <= limit <= u64::MAX,
    ensures
        ({
            let rotates = written != 0 && byte_sum(written, line) > limit;
            let before = if rotates {
                0
            } else {
                written
            };
            byte_sum(before, line) <= limit || before == 0
        }),
{
}

/// The file that a log is archived as.
pub fn archive_path(path: &str, index: usize) -> (archived: String)
    ensures
        archived@ == path@ + "."@ + decimal(index as nat),
{
    let mut archived = path.to_owned();
    archived.append(".");
    archived.append(decimal_text(index as u64).as_str());
    archived
}

/// The file that locks the rotation of a log.
pub fn rotation_lock_path(path: &str) -> (lock: String)
    ensures
        lock@ == path@ + ".rotate-lock"@,
{
    let mut lock = path.to_owned();
    lock.append(".rotate-lock");
    lock
}

/// The moves of a rotation, each from one slot to the next: the oldest first, the log itself, in
/// slot zero, last.
pub open spec fn moves(retained: int) -> Seq<(int, int)>
    decreases retained,
{
    if retained <= 0 {
        Seq::empty()
    } else {
        seq![(retained - 1, retained)] + moves(retained - 1)
    }
}

/// What the slots hold after one move: a file takes the place of the one it is moved onto, and a
/// slot without a file is not moved.
pub open spec fn moved<T>(slots: Map<int, T>, step: (int, int)) -> Map<int, T> {
    if slots.dom().contains(step.0) {
        slots.insert(step.1, slots[step.0]).remove(step.0)
    } else {
        slots
    }
}

/// What the slots hold after several moves.
pub open spec fn all_moved<T>(slots: Map<int, T>, steps: Seq<(int, int)>) -> Map<int, T>
    decreases steps.len(),
{
    if steps.len() == 0 {
        slots
    } else {
        all_moved(moved(slots, steps[0]), steps.drop_first())
    }
}

/// The moves of a rotation.
pub fn rotate_archives(retained_files: usize) -> (steps: Vec<(usize, usize)>)
    ensures
        steps@.len() == retained_files,
        forall|i: int|
            0 <= i < steps@.len() ==> ({
                let (from, to) = #[trigger] steps@[i];
                (from as int, to as int) == moves(retained_files as int)[i]
            }),
        moves(retained_files as int).len() == retained_files,
{
    let mut steps: Vec<(usize, usize)> = Vec::new();
    let mut index: usize = retained_files;
    proof {
        lemma_moves(retained_files as int);
    }
    while index > 0
        invariant
            index <= retained_files,
            steps@.len() == retained_files - index,
            moves(retained_files as int).len() == retained_files,
            forall|i: int|
                0 <= i < retained_files ==> #[trigger] moves(retained_files as int)[i] == (
                    retained_files - 1 - i,
                    retained_files - i,
                ),
            forall|i: int|
                0 <= i < steps@.len() ==> ({
                    let (from, to) = #[trigger] steps@[i];
                    (from as int, to as int) == moves(retained_files as int)[i]
                }),
        decreases index,
    {
        steps.push((index - 1, index));
        index -= 1;
    }
    steps
}

/// The moves, one by one.
proof fn lemma_moves(retained: int)
    requires
        retained >= 0,
    ensures
        moves(retained).len() == retained,
        forall|i: int|
            0 <= i < retained ==> #[trigger] moves(retained)[i] == (
                retained - 1 - i,
                retained - i,
            ),
    decreases retained,
{
    if retained > 0 {
        lemma_moves(retained - 1);
        assert forall|i: int| 0 <= i < retained implies #[trigger] moves(retained)[i] == (
            retained - 1 - i,
            retained - i,
        ) by {
            if i > 0 {
                assert(moves(retained)[i] == moves(retained - 1)[i - 1]);
            }
        }
    }
}

/// A rotation moves every file one slot on and loses none but the oldest: the log is the first
/// archive, each archive is the next one, and slot zero is free. Beyond the retained slots nothing
/// changes.
pub proof fn law_rotation_keeps_every_archive_but_the_oldest<T>(slots: Map<int, T>, retained: int)
    requires
        retained >= 0,
    ensures
        ({
            let after = all_moved(slots, moves(retained));
            &&& forall|i: int|
                1 <= i <= retained && #[trigger] slots.dom().contains(i - 1) ==> after.dom().contains(
                    i,
                ) && after[i] == slots[i - 1]
            &&& retained > 0 ==> !after.dom().contains(0)
            &&& forall|i: int|
                (i < 0 || i > retained) ==> (#[trigger] after.dom().contains(i)
                    == slots.dom().contains(i) && (after.dom().contains(i) ==> after[i]
                    == slots[i]))
        }),
    decreases retained,
{
    if retained > 0 {
        let steps = moves(retained);
        assert(steps.drop_first() =~= moves(retained - 1));
        let first = moved(slots, (retained - 1, retained));
        law_rotation_keeps_every_archive_but_the_oldest(first, retained - 1);
        let after = all_moved(first, moves(retained - 1));
        assert forall|i: int|
            1 <= i <= retained && #[trigger] slots.dom().contains(i - 1) implies after.dom().contains(
            i,
        ) && after[i] == slots[i - 1] by {
            if i == retained {
                assert(first.dom().contains(retained));
            } else {
                assert(first.dom().contains(i - 1));
            }
        }
        if retained == 1 {
            assert(!first.dom().contains(0));
        }
    }
}

/// Levels are ordered from errors to traces, and a filter of a level's name lets that level and all
/// before it through. A filter that is off lets none through.
pub proof fn law_levels_are_ordered_by_how_much_they_say(level: Level)
    ensures
        Level::Error.rank() < Level::Warn.rank() < Level::Info.rank() < Level::Debug.rank()
            < Level::Trace.rank(),
        LevelFilter::Off.rank() < Level::Error.rank(),
        level_named(level.small_name()) matches Some(filter) && filter.rank() == level.rank(),
        level_named("off"@) == Some(LevelFilter::Off),
        lowered(level.name()) == level.small_name(),
{
    reveal_strlit("error");
    reveal_strlit("warn");
    reveal_strlit("info");
    reveal_strlit("debug");
    reveal_strlit("trace");
    reveal_strlit("off");
    assert("error"@.len() == 5 && "warn"@.len() == 4 && "info"@.len() == 4 && "debug"@.len() == 5 && "trace"@.len() == 5 && "off"@.len() == 3);
    assert("error"@[0] == 'e');
    assert("debug"@[0] == 'd');
    assert("trace"@[0] == 't');
    assert("warn"@[0] == 'w');
    assert("info"@[0] == 'i');
    reveal_strlit("ERROR");
    reveal_strlit("WARN");
    reveal_strlit("INFO");
    reveal_strlit("DEBUG");
    reveal_strlit("TRACE");
    assert("ERROR"@.len() == 5 && "WARN"@.len() == 4 && "INFO"@.len() == 4 && "DEBUG"@.len() == 5 && "TRACE"@.len() == 5);
    assert("ERROR"@[0] == 'E');
    assert("DEBUG"@[0] == 'D');
    assert("TRACE"@[0] == 'T');
    assert("WARN"@[0] == 'W');
    assert("INFO"@[0] == 'I');
    assert(lowered(level.name()) =~= level.small_name());
}

/// A level or a format is known exactly by its own name.
pub proof fn law_levels_and_formats_are_known_by_name(value: Seq<char>)
    ensures
        level_named(value) is Some <==> value == "off"@ || value == "error"@ || value == "warn"@
            || value == "info"@ || value == "debug"@ || value == "trace"@,
        format_named(value) == Some(LineFormat::Compact) <==> value == "compact"@,
        format_named(value) == Some(LineFormat::Json) <==> value == "json"@,
{
    reveal_strlit("compact");
    reveal_strlit("json");
    assert("compact"@.len() == 7 && "json"@.len() == 4);
}

/// No two levels look alike.
pub proof fn law_levels_look_different(a: Level, b: Level)
    ensures
        a.name() == b.name() ==> a == b,
        a.small_name() == b.small_name() ==> a == b,
        a.color() == b.color() ==> a == b,
{
    reveal_strlit("error");
    reveal_strlit("warn");
    reveal_strlit("info");
    reveal_strlit("debug");
    reveal_strlit("trace");
    assert("error"@.len() == 5 && "warn"@.len() == 4 && "info"@.len() == 4 && "debug"@.len() == 5 && "trace"@.len() == 5);
    assert("error"@[0] == 'e');
    assert("debug"@[0] == 'd');
    assert("trace"@[0] == 't');
    assert("warn"@[0] == 'w');
    assert("info"@[0] == 'i');
    reveal_strlit("ERROR");
    reveal_strlit("WARN");
    reveal_strlit("INFO");
    reveal_strlit("DEBUG");
    reveal_strlit("TRACE");
    assert("ERROR"@.len() == 5 && "WARN"@.len() == 4 && "INFO"@.len() == 4 && "DEBUG"@.len() == 5 && "TRACE"@.len() == 5);
    assert("ERROR"@[0] == 'E');
    assert("DEBUG"@[0] == 'D');
    assert("TRACE"@[0] == 'T');
    assert("WARN"@[0] == 'W');
    assert("INFO"@[0] == 'I');
    reveal_strlit("1;91");
    reveal_strlit("1;93");
    reveal_strlit("1;92");
    reveal_strlit("1;94");
    reveal_strlit("35");
    assert("1;91"@.len() == 4 && "1;93"@.len() == 4 && "1;92"@.len() == 4 && "1;94"@.len() == 4 && "35"@.len() == 2);
    assert("1;91"@[3] == '1');
    assert("1;93"@[3] == '3');
    assert("1;92"@[3] == '2');
    assert("1;94"@[3] == '4');
}

/// Logging can be set up exactly where its level and format are known, there is a place for its file,
/// and its limits leave room for something.
pub proof fn law_logging_is_set_up_where_it_can_work(config: LoggingConfig, has_storage: bool)
    ensures
        setup_fault(config, has_storage) is None <==> {
            &&& level_named(config.level@) is Some
            &&& format_named(config.format@) is Some
            &&& config.file is Some || has_storage
            &&& config.max_file_bytes > 0
            &&& config.retained_files > 0
        },
{
}

/// A moment is written as its date and its time to the microsecond, with every number in its own
/// place.
pub proof fn law_a_stamp_says_when_it_was(unix_micros: u128)
    requires
        unix_micros < 253_402_300_800_000_000,
    ensures
        ({
            let text = timestamp_text(unix_micros);
            let (year, month, day, hour, minute, second, _) = parts_at(unix_micros);
            &&& text.len() == 27
            &&& number_in(text.subrange(0, 4)) == year
            &&& number_in(text.subrange(5, 7)) == month
            &&& number_in(text.subrange(8, 10)) == day
            &&& number_in(text.subrange(11, 13)) == hour
            &&& number_in(text.subrange(14, 16)) == minute
            &&& number_in(text.subrange(17, 19)) == second
            &&& number_in(text.subrange(20, 26)) == unix_micros % 1_000_000
            &&& text[4] == '-' && text[7] == '-' && text[10] == 'T' && text[13] == ':' && text[16]
                == ':' && text[19] == '.' && text[26] == 'Z'
        }),
{
    let (year, month, day, hour, minute, second, _) = parts_at(unix_micros);
    let micros = (unix_micros % 1_000_000) as nat;
    law_every_moment_has_parts(unix_micros);
    lemma_four_digit_year(unix_micros);
    assert(ten_to(2) == 100 && ten_to(4) == 10_000 && ten_to(6) == 1_000_000) by {
        reveal_with_fuel(ten_to, 7);
    }
    lemma_padded(year as nat, 4);
    lemma_padded(month as nat, 2);
    lemma_padded(day as nat, 2);
    lemma_padded(hour as nat, 2);
    lemma_padded(minute as nat, 2);
    lemma_padded(second as nat, 2);
    lemma_padded(micros, 6);
    law_padded_numbers_read_back(year as nat, 4);
    law_padded_numbers_read_back(month as nat, 2);
    law_padded_numbers_read_back(day as nat, 2);
    law_padded_numbers_read_back(hour as nat, 2);
    law_padded_numbers_read_back(minute as nat, 2);
    law_padded_numbers_read_back(second as nat, 2);
    law_padded_numbers_read_back(micros, 6);
    reveal_strlit("-");
    reveal_strlit("T");
    reveal_strlit(":");
    reveal_strlit(".");
    reveal_strlit("Z");
    let text = timestamp_text(unix_micros);
    assert(text.subrange(0, 4) =~= padded(year as nat, 4));
    assert(text.subrange(5, 7) =~= padded(month as nat, 2));
    assert(text.subrange(8, 10) =~= padded(day as nat, 2));
    assert(text.subrange(11, 13) =~= padded(hour as nat, 2));
    assert(text.subrange(14, 16) =~= padded(minute as nat, 2));
    assert(text.subrange(17, 19) =~= padded(second as nat, 2));
    assert(text.subrange(20, 26) =~= padded(micros, 6));
}

/// A plain line starts with its moment and its level and ends with its message, which stands behind its
/// target. On a console the same parts stand in the same order, between colors.
pub proof fn law_a_line_says_when_where_and_what(entry: LogEntry)
    ensures
        ({
            let line = entry_text(LineFormat::Compact, entry);
            let shown = console_text(LineFormat::Compact, entry);
            let stamp = timestamp_text(entry.unix_micros);
            &&& starts_with(line, stamp + seq![' '] + entry.level.name() + seq![' '] + entry.target@)
            &&& ends_with(line, seq![':', ' '] + entry.message@)
            &&& line.len() == stamp.len() + entry.level.name().len() + entry.target@.len()
                + entry.message@.len() + 4
            &&& stands_at(shown, 5, stamp)
            &&& stands_at(
                shown,
                5 + stamp.len() as int + 7 + entry.level.color().len() + 1,
                entry.level.name(),
            )
            &&& stands_at(
                shown,
                5 + stamp.len() as int + 7 + entry.level.color().len() + 1
                    + entry.level.name().len() + 10,
                entry.target@,
            )
            &&& ends_with(shown, seq![':', ' '] + entry.message@)
            &&& console_text(LineFormat::Json, entry) == entry_text(LineFormat::Json, entry)
        }),
{
    reveal_strlit(" ");
    reveal_strlit(": ");
    reveal_strlit("m");
    reveal_strlit("\u{1b}[90m");
    reveal_strlit("\u{1b}[0m \u{1b}[");
    reveal_strlit("\u{1b}[0m \u{1b}[36m");
    reveal_strlit("\u{1b}[0m: ");
    let line = entry_text(LineFormat::Compact, entry);
    let shown = console_text(LineFormat::Compact, entry);
    let stamp = timestamp_text(entry.unix_micros);
    let (level, color) = (entry.level.name(), entry.level.color());
    let start = stamp + seq![' '] + level + seq![' '] + entry.target@;
    assert(line.take(start.len() as int) =~= start);
    let end = seq![':', ' '] + entry.message@;
    assert(line.skip(line.len() - end.len()) =~= end);
    assert(shown.skip(shown.len() - end.len()) =~= end);
    let a = 5 + stamp.len() as int;
    let b = a + 7 + color.len() + 1;
    let c = b + level.len() + 10;
    assert(shown.subrange(5, a) =~= stamp);
    assert(shown.subrange(b, b + level.len()) =~= level);
    assert(shown.subrange(c, c + entry.target@.len()) =~= entry.target@);
}

/// Numbers of bytes add up, and stop at the greatest there is.
pub proof fn law_bytes_add_up(a: int, b: int)
    ensures
        a + b <= 18_446_744_073_709_551_615 ==> byte_sum(a, b) == a + b,
        a + b > 18_446_744_073_709_551_615 ==> byte_sum(a, b) == 18_446_744_073_709_551_615,
        STALENESS_CHECK_LINES == 256,
{
}

/// A rotation that works starts the count of failures anew, and each that fails adds one to it.
pub proof fn law_failed_rotations_are_counted(failures: u64)
    ensures
        failures_after(failures, true) == 0,
        failures < u64::MAX ==> failures_after(failures, false) == failures + 1,
        failures_after(u64::MAX, false) == u64::MAX,
{
}

} // verus!
