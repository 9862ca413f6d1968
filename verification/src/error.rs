//! What can go wrong, and the exit code each failure ends the program with.
use vstd::prelude::*;
use vstd::string::*;

use crate::capture::{CaptureError, CaptureErrorKind};
use crate::text::{decimal, decimal_text, ends_with, starts_with};

verus! {

/// A failure of the configuration or of one of the files kept beside it.
#[derive(Debug, Eq, PartialEq)]
pub enum ConfigError {
    HomeDirectoryUnavailable,
    Read { path: String, source: String },
    Parse(String),
    Edit(String),
    Serialize(String),
    Write { path: String, source: String },
    Quarantine { path: String, source: String },
    UnsupportedSchema(u32),
    InvalidValue(String),
}

impl ConfigError {
    /// The explanation shown for the error.
    pub open spec fn text(self) -> Seq<char> {
        match self {
            ConfigError::HomeDirectoryUnavailable =>
                "unable to determine the user home directory from USERPROFILE or HOME"@,
            ConfigError::Read { path, source } => "failed to read configuration "@ + path@ + ": "@
                + source@,
            ConfigError::Parse(detail) => "failed to parse configuration: "@ + detail@,
            ConfigError::Edit(detail) => "failed to edit configuration: "@ + detail@,
            ConfigError::Serialize(detail) => "failed to serialize configuration: "@ + detail@,
            ConfigError::Write { path, source } => "failed to write configuration "@ + path@
                + ": "@ + source@,
            ConfigError::Quarantine { path, source } =>
                "failed to quarantine damaged configuration "@ + path@ + ": "@ + source@,
            ConfigError::UnsupportedSchema(version) =>
                "unsupported configuration schema version "@ + decimal(version as nat),
            ConfigError::InvalidValue(detail) => "invalid configuration: "@ + detail@,
        }
    }

    /// The explanation shown for the error.
    pub fn message(&self) -> (text: String)
        ensures
            text@ == self.text(),
    {
        match self {
            ConfigError::HomeDirectoryUnavailable => {
                "unable to determine the user home directory from USERPROFILE or HOME".to_owned()
            },
            ConfigError::Read { path, source } => about(
                "failed to read configuration ",
                path.as_str(),
                source.as_str(),
            ),
            ConfigError::Parse(detail) => after("failed to parse configuration: ", detail.as_str()),
            ConfigError::Edit(detail) => after("failed to edit configuration: ", detail.as_str()),
            ConfigError::Serialize(detail) => after(
                "failed to serialize configuration: ",
                detail.as_str(),
            ),
            ConfigError::Write { path, source } => about(
                "failed to write configuration ",
                path.as_str(),
                source.as_str(),
            ),
            ConfigError::Quarantine { path, source } => about(
                "failed to quarantine damaged configuration ",
                path.as_str(),
                source.as_str(),
            ),
            ConfigError::UnsupportedSchema(version) => after(
                "unsupported configuration schema version ",
                decimal_text(*version as u64).as_str(),
            ),
            ConfigError::InvalidValue(detail) => after("invalid configuration: ", detail.as_str()),
        }
    }
}

/// A text and what follows it.
pub fn after(start: &str, rest: &str) -> (text: String)
    ensures
        text@ == start@ + rest@,
{
    let mut text = start.to_owned();
    text.append(rest);
    text
}

/// A text, a subject, and what is said of it behind a colon.
pub fn about(start: &str, subject: &str, said: &str) -> (text: String)
    ensures
        text@ == start@ + subject@ + ": "@ + said@,
{
    let mut text = start.to_owned();
    text.append(subject);
    text.append(": ");
    text.append(said);
    text
}

/// A failure of the program.
#[derive(Debug, Eq, PartialEq)]
pub enum AppError {
    InvalidArgument(String),
    BackendUnavailable(String),
    Write { path: String, source: String },
    Capture(CaptureError),
    Metrics(String),
    Config(ConfigError),
    Json(String),
}

impl AppError {
    /// The exit code that the error ends the program with.
    pub fn exit_code(&self) -> (code: i32)
        ensures
            code == match *self {
                AppError::InvalidArgument(_) | AppError::Config(_) | AppError::Json(_) => 2i32,
                AppError::BackendUnavailable(_) => 4,
                AppError::Capture(error) => if error.kind == CaptureErrorKind::Unsupported {
                    4
                } else {
                    6
                },
                AppError::Metrics(_) => 10,
                AppError::Write { .. } => 8,
            },
    {
        match self {
            AppError::InvalidArgument(_) | AppError::Config(_) | AppError::Json(_) => 2,
            AppError::BackendUnavailable(_) => 4,
            AppError::Capture(error) => {
                if error.kind == CaptureErrorKind::Unsupported {
                    4
                } else {
                    6
                }
            },
            AppError::Metrics(_) => 10,
            AppError::Write { .. } => 8,
        }
    }

    /// The explanation shown for the error.
    pub open spec fn text(self) -> Seq<char> {
        match self {
            AppError::InvalidArgument(detail) => "invalid argument: "@ + detail@,
            AppError::BackendUnavailable(detail) => "backend unavailable: "@ + detail@,
            AppError::Write { path, source } => "failed to write "@ + path@ + ": "@ + source@,
            AppError::Capture(error) => error.message@,
            AppError::Metrics(detail) => detail@,
            AppError::Config(error) => error.text(),
            AppError::Json(detail) => detail@,
        }
    }

    /// The explanation shown for the error.
    pub fn message(&self) -> (text: String)
        ensures
            text@ == self.text(),
    {
        match self {
            AppError::InvalidArgument(detail) => after("invalid argument: ", detail.as_str()),
            AppError::BackendUnavailable(detail) => after("backend unavailable: ", detail.as_str()),
            AppError::Write { path, source } => about(
                "failed to write ",
                path.as_str(),
                source.as_str(),
            ),
            AppError::Capture(error) => error.message.clone(),
            AppError::Metrics(detail) => detail.clone(),
            AppError::Config(error) => error.message(),
            AppError::Json(detail) => detail.clone(),
        }
    }
}

/// What went wrong with a configuration is said with its own words first, with the file where there is
/// one, and with the cause at the end.
pub proof fn law_configuration_errors_say_where_and_why(error: ConfigError)
    ensures
        match error {
            ConfigError::HomeDirectoryUnavailable => error.text()
                == "unable to determine the user home directory from USERPROFILE or HOME"@,
            ConfigError::Read { path, source } => starts_with(
                error.text(),
                "failed to read configuration "@ + path@,
            ) && ends_with(error.text(), seq![':', ' '] + source@),
            ConfigError::Parse(detail) => starts_with(
                error.text(),
                "failed to parse configuration: "@,
            ) && ends_with(error.text(), detail@),
            ConfigError::Edit(detail) => starts_with(error.text(), "failed to edit configuration: "@)
                && ends_with(error.text(), detail@),
            ConfigError::Serialize(detail) => starts_with(
                error.text(),
                "failed to serialize configuration: "@,
            ) && ends_with(error.text(), detail@),
            ConfigError::Write { path, source } => starts_with(
                error.text(),
                "failed to write configuration "@ + path@,
            ) && ends_with(error.text(), seq![':', ' '] + source@),
            ConfigError::Quarantine { path, source } => starts_with(
                error.text(),
                "failed to quarantine damaged configuration "@ + path@,
            ) && ends_with(error.text(), seq![':', ' '] + source@),
            ConfigError::UnsupportedSchema(version) => starts_with(
                error.text(),
                "unsupported configuration schema version "@,
            ) && ends_with(error.text(), decimal(version as nat)),
            ConfigError::InvalidValue(detail) => starts_with(error.text(), "invalid configuration: "@)
                && ends_with(error.text(), detail@),
        },
{
    reveal_strlit(": ");
    let text = error.text();
    match error {
        ConfigError::HomeDirectoryUnavailable => {},
        ConfigError::Read { path, source } => {
            lemma_said("failed to read configuration "@ + path@, source@, text);
        },
        ConfigError::Parse(detail) => lemma_ended("failed to parse configuration: "@, detail@),
        ConfigError::Edit(detail) => lemma_ended("failed to edit configuration: "@, detail@),
        ConfigError::Serialize(detail) => lemma_ended(
            "failed to serialize configuration: "@,
            detail@,
        ),
        ConfigError::Write { path, source } => {
            lemma_said("failed to write configuration "@ + path@, source@, text);
        },
        ConfigError::Quarantine { path, source } => {
            lemma_said("failed to quarantine damaged configuration "@ + path@, source@, text);
        },
        ConfigError::UnsupportedSchema(version) => lemma_ended(
            "unsupported configuration schema version "@,
            decimal(version as nat),
        ),
        ConfigError::InvalidValue(detail) => lemma_ended("invalid configuration: "@, detail@),
    }
}

/// A text of two parts starts with the one and ends with the other.
proof fn lemma_ended(start: Seq<char>, end: Seq<char>)
    ensures
        starts_with(start + end, start),
        ends_with(start + end, end),
{
    assert((start + end).take(start.len() as int) =~= start);
    assert((start + end).skip(start.len() as int) =~= end);
}

/// A text with a colon before its cause ends with both.
proof fn lemma_said(start: Seq<char>, cause: Seq<char>, text: Seq<char>)
    requires
        text == start + ": "@ + cause,
    ensures
        starts_with(text, start),
        ends_with(text, seq![':', ' '] + cause),
{
    reveal_strlit(": ");
    assert(text =~= start + (seq![':', ' '] + cause));
    lemma_ended(start, seq![':', ' '] + cause);
}

/// What went wrong in the program is said with the kind of the failure first and its cause at the end;
/// failures of its parts are said as the parts say them.
pub proof fn law_errors_say_where_and_why(error: AppError)
    ensures
        match error {
            AppError::InvalidArgument(detail) => starts_with(error.text(), "invalid argument: "@)
                && ends_with(error.text(), detail@),
            AppError::BackendUnavailable(detail) => starts_with(
                error.text(),
                "backend unavailable: "@,
            ) && ends_with(error.text(), detail@),
            AppError::Write { path, source } => starts_with(error.text(), "failed to write "@ + path@)
                && ends_with(error.text(), seq![':', ' '] + source@),
            AppError::Capture(error) => AppError::Capture(error).text() == error.message@,
            AppError::Metrics(detail) => error.text() == detail@,
            AppError::Config(error) => AppError::Config(error).text() == error.text(),
            AppError::Json(detail) => error.text() == detail@,
        },
{
    match error {
        AppError::InvalidArgument(detail) => lemma_ended("invalid argument: "@, detail@),
        AppError::BackendUnavailable(detail) => lemma_ended("backend unavailable: "@, detail@),
        AppError::Write { path, source } => {
            lemma_said("failed to write "@ + path@, source@, error.text());
        },
        _ => {},
    }
}

} // verus!
