//! The command line as plain values, and what follows from it before a command runs.
use vstd::prelude::*;
use vstd::string::*;

use crate::capture::CaptureMode;
use crate::config::LoggingConfig;
use crate::error::AppError;

verus! {

/// Which frame a command asks for.
#[derive(Clone, Copy, Debug, Eq, PartialEq, Structural)]
pub enum ModeArg {
    Fresh,
    Latest,
}

/// Which preview a one-shot selection is made on.
#[derive(Clone, Copy, Debug, Eq, PartialEq, Structural)]
pub enum PreviewArg {
    Auto,
    Live,
    Frozen,
}

/// Whether a benchmark draws the pointer into its captures.
#[derive(Clone, Copy, Debug, Eq, PartialEq, Structural)]
pub enum CursorArg {
    Include,
    Exclude,
}

/// The arguments of the daemon. What is not given comes from the configuration.
#[derive(Debug, Eq, PartialEq)]
pub struct DaemonArgs {
    pub config: Option<String>,
    pub backend: Option<String>,
    pub display: Option<String>,
    pub mode: Option<ModeArg>,
    pub fresh_timeout_ms: Option<u64>,
    pub max_frame_age_ms: Option<u64>,
    pub cpu_frame: Option<bool>,
    pub clipboard: Option<bool>,
    pub selection: Option<bool>,
    pub max_captures: Option<usize>,
    pub self_trigger: bool,
    pub self_trigger_interval_ms: Option<u64>,
    pub json: bool,
}

impl Default for DaemonArgs {
    fn default() -> (args: Self)
        ensures
            args == (DaemonArgs {
                config: None,
                backend: None,
                display: None,
                mode: None,
                fresh_timeout_ms: None,
                max_frame_age_ms: None,
                cpu_frame: None,
                clipboard: None,
                selection: None,
                max_captures: None,
                self_trigger: false,
                self_trigger_interval_ms: None,
                json: false,
            }),
    {
        DaemonArgs {
            config: None,
            backend: None,
            display: None,
            mode: None,
            fresh_timeout_ms: None,
            max_frame_age_ms: None,
            cpu_frame: None,
            clipboard: None,
            selection: None,
            max_captures: None,
            self_trigger: false,
            self_trigger_interval_ms: None,
            json: false,
        }
    }
}

/// The arguments of a one-shot capture.
#[derive(Debug, Eq, PartialEq)]
pub struct CaptureArgs {
    pub config: Option<String>,
    pub backend: String,
    pub display: String,
    pub mode: ModeArg,
    pub cpu_frame: bool,
    pub selection: bool,
    pub selection_preview: PreviewArg,
    pub clipboard: bool,
    pub json: bool,
}

/// The arguments of a benchmark run.
#[derive(Debug, Eq, PartialEq)]
pub struct BenchmarkRunArgs {
    pub backend: String,
    pub display: String,
    pub mode: ModeArg,
    pub iterations: usize,
    pub warmup: usize,
    pub native_delay_us: u64,
    pub readback_delay_us: u64,
    pub frame_age_us: u64,
    pub max_frame_age_ms: u64,
    pub cpu_frame: bool,
    pub cursor: CursorArg,
    pub repeat: usize,
    pub budgets: Option<String>,
    pub output_results: Option<String>,
    pub raw_events: Option<String>,
    pub output_dir: Option<String>,
    pub json: bool,
}

impl BenchmarkRunArgs {
    /// Rejects arguments that would lose the events that were asked for: several runs cannot share
    /// the one file that was named for them.
    pub fn validate(&self) -> (result: Result<(), AppError>)
        ensures
            match result {
                Ok(()) => !(self.repeat > 1 && self.raw_events is Some && self.output_dir is None),
                Err(error) => self.repeat > 1 && self.raw_events is Some && self.output_dir is None
                    && (error matches AppError::InvalidArgument(text) && text@
                    == "--raw-events with --repeat greater than 1 needs --output-dir: each run has its own event stream, and they are written there as run-N.events.jsonl"@),
            },
    {
        if self.repeat > 1 && self.raw_events.is_some() && self.output_dir.is_none() {
            return Err(
                AppError::InvalidArgument(
                    "--raw-events with --repeat greater than 1 needs --output-dir: each run has its own event stream, and they are written there as run-N.events.jsonl".to_owned(),
                ),
            );
        }
        Ok(())
    }
}

/// What a benchmark does besides running.
#[derive(Debug, Eq, PartialEq)]
pub enum BenchmarkCommand {
    /// Compare a candidate run against a baseline.
    Compare {
        baseline: String,
        candidate: String,
        json: bool,
        /// The noise floor in percent, as the bits of a 64-bit float.
        noise_percent_bits: u64,
    },
}

/// The arguments of a benchmark: a run, or work on runs already recorded.
#[derive(Debug, Eq, PartialEq)]
pub struct BenchmarkArgs {
    pub command: Option<BenchmarkCommand>,
    pub run: BenchmarkRunArgs,
}

/// What is done with the configuration.
#[derive(Debug, Eq, PartialEq)]
pub enum ConfigCommand {
    Show { path: Option<String>, json: bool },
    Validate { path: String },
}

/// What is done about launching at login.
#[derive(Clone, Copy, Debug, Eq, PartialEq, Structural)]
pub enum StartupCommand {
    Enable,
    Disable,
    Status { json: bool },
}

/// What the program does.
#[derive(Debug, Eq, PartialEq)]
pub enum Command {
    Daemon(DaemonArgs),
    Status { json: bool },
    Stop,
    Displays { backend: String, json: bool },
    Capture(CaptureArgs),
    Benchmark(BenchmarkArgs),
    Version { json: bool },
    Doctor { json: bool },
    Startup { command: StartupCommand },
    Config { command: ConfigCommand },
}

impl Default for Command {
    /// Without a command the program is the daemon.
    fn default() -> (command: Self)
        ensures
            command == Command::Daemon(
                DaemonArgs {
                    config: None,
                    backend: None,
                    display: None,
                    mode: None,
                    fresh_timeout_ms: None,
                    max_frame_age_ms: None,
                    cpu_frame: None,
                    clipboard: None,
                    selection: None,
                    max_captures: None,
                    self_trigger: false,
                    self_trigger_interval_ms: None,
                    json: false,
                },
            ),
    {
        Command::Daemon(DaemonArgs::default())
    }
}

/// The whole command line.
#[derive(Debug, Eq, PartialEq)]
pub struct Cli {
    pub log_file: Option<String>,
    pub log_level: Option<String>,
    pub log_format: Option<String>,
    pub command: Option<Command>,
}

/// Whether the log goes to a file: where one was named, and for the commands that do work.
pub fn uses_persistent_logging(cli: &Cli) -> (yes: bool)
    ensures
        yes == (cli.log_file is Some || match cli.command {
            None => true,
            Some(command) => command is Daemon || command is Capture || command is Benchmark,
        }),
{
    if cli.log_file.is_some() {
        return true;
    }
    match &cli.command {
        None => true,
        Some(Command::Daemon(_)) => true,
        Some(Command::Capture(_)) => true,
        Some(Command::Benchmark(_)) => true,
        Some(_) => false,
    }
}

/// The configuration file that the logging settings are read from: the one that the daemon was given,
/// or the default one.
pub fn logging_config_path(cli: &Cli) -> (path: Option<&String>)
    ensures
        match path {
            Some(path) => cli.command matches Some(Command::Daemon(args)) && args.config == Some(
                *path,
            ),
            None => !(cli.command matches Some(Command::Daemon(args)) && args.config is Some),
        },
{
    match &cli.command {
        Some(Command::Daemon(args)) => match &args.config {
            Some(path) => Some(path),
            None => None,
        },
        _ => None,
    }
}

/// The logging settings: those of the configuration, or the defaults where it cannot be read, with
/// what the command line says in their place.
pub fn resolve_logging_config(cli: &Cli, loaded: Option<LoggingConfig>) -> (logging: LoggingConfig)
    ensures
        match cli.log_file {
            Some(file) => logging.file == Some(file),
            None => loaded matches Some(config) ==> logging.file == config.file,
        },
        match cli.log_level {
            Some(level) => logging.level == level,
            None => loaded matches Some(config) ==> logging.level == config.level,
        },
        match cli.log_format {
            Some(format) => logging.format == format,
            None => loaded matches Some(config) ==> logging.format == config.format,
        },
        match loaded {
            Some(config) => logging.max_file_bytes == config.max_file_bytes
                && logging.retained_files == config.retained_files,
            None => logging.max_file_bytes == 5 * 1_024 * 1_024 && logging.retained_files == 3 && (
            cli.log_file is None ==> logging.file is None) && (cli.log_level is None
                ==> logging.level@ == "info"@) && (cli.log_format is None ==> logging.format@
                == "compact"@),
        },
{
    let mut logging = match loaded {
        Some(config) => config,
        None => LoggingConfig::default(),
    };
    if let Some(file) = &cli.log_file {
        logging.file = Some(file.clone());
    }
    if let Some(level) = &cli.log_level {
        logging.level = level.clone();
    }
    if let Some(format) = &cli.log_format {
        logging.format = format.clone();
    }
    logging
}

/// The frame that a one-shot capture or a benchmark asks for.
pub fn capture_mode(mode: ModeArg) -> (result: CaptureMode)
    ensures
        result == match mode {
            ModeArg::Fresh => CaptureMode::Fresh { timeout_ms: 100 },
            ModeArg::Latest => CaptureMode::Latest { max_age_ms: None },
        },
{
    match mode {
        ModeArg::Fresh => CaptureMode::Fresh { timeout_ms: 100 },
        ModeArg::Latest => CaptureMode::Latest { max_age_ms: None },
    }
}

} // verus!
