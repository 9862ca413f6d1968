//! What the daemon runs with: the command line over the configuration, with what can be missing
//! filled in and what cannot refused.
use vstd::prelude::*;
use vstd::string::*;

use crate::capture::CaptureMode;
use crate::cli::{DaemonArgs, ModeArg};
use crate::config::{
    can_be_absolute, path_is_absolute, AppConfig, ConfigRecovery, PreviewMode, Problem,
};
use crate::display_policy::{policy_in, resolve_display_policy, DisplayPolicy};
use crate::error::{after, AppError, ConfigError};
use crate::history::{HistoryStore, RetentionPolicy};
use crate::hotkey::HotkeyBinding;
use crate::path::{parts_of, FilePath, Part};
use crate::region::ConfirmedRegion;
use crate::table::TextMap;
use crate::text::{same, texts};
use crate::ui_state::{confirmed_among, UiState, UiStateStore, STATE_SCHEMA_VERSION};

verus! {

/// What the settings are made from besides the command line.
#[derive(Debug)]
pub struct DaemonInputs {
    /// The configuration file, where one was named.
    pub config_path: Option<FilePath>,
    pub storage: Option<FilePath>,
    /// The configuration, and what had to be done to get one.
    pub loaded: Result<(AppConfig, Option<ConfigRecovery>), ConfigError>,
    /// The remembered state.
    pub ui: Result<UiState, ConfigError>,
    /// Where captures are saved when no other place was named.
    pub default_directory: Option<String>,
}

/// What the daemon runs with.
#[derive(Debug)]
pub struct ResolvedDaemonArgs {
    pub backend: String,
    pub display_policy: DisplayPolicy,
    pub mode: CaptureMode,
    pub cpu_frame: bool,
    pub clipboard: bool,
    pub file_output: bool,
    pub output_directory: String,
    pub output_queue_capacity: usize,
    pub output_filename_template: String,
    pub history_store: HistoryStore,
    pub history_retention: RetentionPolicy,
    pub selection: bool,
    pub selection_preview: PreviewMode,
    pub trigger_queue_capacity: usize,
    pub hotkey_bindings: Vec<HotkeyBinding>,
    pub confirmed_regions: TextMap<ConfirmedRegion>,
    pub ui: UiState,
    pub ui_state_store: UiStateStore,
    pub clipboard_queue_capacity: usize,
    pub selection_queue_capacity: usize,
    pub max_captures: Option<usize>,
    pub self_trigger: bool,
    /// How often the daemon triggers itself again, in milliseconds.
    pub self_trigger_interval_ms: Option<u64>,
    pub json: bool,
    pub startup_warnings: Vec<String>,
}

/// A value from the command line, or else from the configuration.
pub open spec fn given<T>(argument: Option<T>, configured: T) -> T {
    match argument {
        Some(value) => value,
        None => configured,
    }
}

/// Which frame is asked for.
pub open spec fn mode_of(args: DaemonArgs, config: AppConfig) -> CaptureMode {
    let mode = given(
        args.mode,
        if config.capture.mode@ == "fresh"@ {
            ModeArg::Fresh
        } else {
            ModeArg::Latest
        },
    );
    let maximum_age = given(args.max_frame_age_ms, config.capture.max_frame_age_ms);
    match mode {
        ModeArg::Fresh => CaptureMode::Fresh {
            timeout_ms: given(args.fresh_timeout_ms, config.capture.fresh_timeout_ms),
        },
        ModeArg::Latest => CaptureMode::Latest {
            max_age_ms: if maximum_age != 0 {
                Some(maximum_age)
            } else {
                None
            },
        },
    }
}

/// Which frame is asked for.
fn resolved_mode(args: &DaemonArgs, config: &AppConfig) -> (mode: CaptureMode)
    ensures
        mode == mode_of(*args, *config),
{
    let mode = match args.mode {
        Some(mode) => mode,
        None => {
            if same(config.capture.mode.as_str(), "fresh") {
                ModeArg::Fresh
            } else {
                ModeArg::Latest
            }
        },
    };
    match mode {
        ModeArg::Fresh => {
            let timeout_ms: u64 = match args.fresh_timeout_ms {
                Some(timeout) => timeout,
                None => config.capture.fresh_timeout_ms,
            };
            CaptureMode::Fresh { timeout_ms }
        },
        ModeArg::Latest => {
            let maximum_age: u64 = match args.max_frame_age_ms {
                Some(age) => age,
                None => config.capture.max_frame_age_ms,
            };
            CaptureMode::Latest {
                max_age_ms: if maximum_age != 0 {
                    Some(maximum_age)
                } else {
                    None
                },
            }
        },
    }
}

/// What is said of a configuration that was set aside.
pub open spec fn recovery_text(recovery: ConfigRecovery) -> Seq<char> {
    "damaged configuration "@ + recovery.original_path@ + " was quarantined as "@
        + recovery.quarantined_path@ + "; continuing with defaults: "@ + recovery.reason@
}

/// What is said of a configuration that was set aside.
pub fn recovery_warning(recovery: &ConfigRecovery) -> (text: String)
    ensures
        text@ == recovery_text(*recovery),
{
    let mut text = "damaged configuration ".to_owned();
    text.append(recovery.original_path.as_str());
    text.append(" was quarantined as ");
    text.append(recovery.quarantined_path.as_str());
    text.append("; continuing with defaults: ");
    text.append(recovery.reason.as_str());
    text
}

/// What is said of remembered state that cannot be read.
pub open spec fn state_text(error: ConfigError) -> Seq<char> {
    "unable to read remembered UI state: "@ + error.text()
}

/// What the user is warned of at startup: a configuration that was set aside, remembered state that
/// cannot be read.
pub open spec fn warnings_of(
    recovery: Option<ConfigRecovery>,
    ui: Result<UiState, ConfigError>,
) -> Seq<Seq<char>> {
    let first = match recovery {
        Some(recovery) => seq![recovery_text(recovery)],
        None => Seq::empty(),
    };
    match ui {
        Ok(_) => first,
        Err(error) => first.push(state_text(error)),
    }
}

/// Whether a store keeps its state beside the configuration that was named, or else in the storage
/// directory.
pub open spec fn is_ui_store(
    store: UiStateStore,
    config_path: Option<FilePath>,
    storage: Option<FilePath>,
) -> bool {
    match config_path {
        Some(path) => parts_of(store.beside) == Some(path@) && match FilePath::parent_parts(path@) {
            Some(directory) => parts_of(store.state_path) == Some(
                directory.push(Part::Normal("state.toml"@)),
            ),
            None => store.state_path is None,
        },
        None => match storage {
            Some(storage) => parts_of(store.state_path) == Some(
                storage@.push(Part::Normal("state.toml"@)),
            ) && parts_of(store.beside) == Some(storage@.push(Part::Normal("captastic.toml"@))),
            None => store.state_path is None && store.beside is None,
        },
    }
}

/// Whether a store keeps the history beside the configuration that was named, or else in the storage
/// directory.
pub open spec fn is_history_store(
    store: HistoryStore,
    config_path: Option<FilePath>,
    storage: Option<FilePath>,
) -> bool {
    let directory = match config_path {
        Some(path) => FilePath::parent_parts(path@),
        None => parts_of(storage),
    };
    parts_of(store.location) == match directory {
        Some(directory) => Some(directory.push(Part::Normal("history.toml"@))),
        None => None,
    }
}

/// Whether a retention is the one that the configuration asks for.
pub open spec fn is_retention(policy: RetentionPolicy, config: AppConfig) -> bool {
    &&& policy.max_items == config.history.max_items
    &&& policy.max_age == if config.history.max_age_days > 0 {
        Some((config.history.max_age_days * 24 * 60 * 60) as u64)
    } else {
        None
    }
    &&& policy.max_total_bytes == if config.history.max_total_bytes > 0 {
        Some(config.history.max_total_bytes)
    } else {
        None
    }
}

/// Whether state is remembered state, or the empty one where it could not be read.
pub open spec fn is_state(state: UiState, ui: Result<UiState, ConfigError>) -> bool {
    match ui {
        Ok(read) => state == read,
        Err(_) => state.schema_version == STATE_SCHEMA_VERSION && state.overlay_x is None
            && state.overlay_y is None && state.last_capture_tool is None && state.last_region is None
            && state.displays.keys().len() == 0,
    }
}

/// Whether settings follow from a command line and a configuration.
pub open spec fn follows(
    settings: ResolvedDaemonArgs,
    args: DaemonArgs,
    config: AppConfig,
    recovery: Option<ConfigRecovery>,
    inputs: DaemonInputs,
) -> bool {
    &&& settings.backend == given(args.backend, config.daemon.backend)
    &&& policy_in(given(args.display, config.daemon.display)@) == Some(settings.display_policy@)
    &&& settings.mode == mode_of(args, config)
    &&& settings.cpu_frame == given(args.cpu_frame, config.capture.cpu_frame)
    &&& settings.clipboard == given(args.clipboard, config.clipboard.enabled)
    &&& settings.file_output == config.output.enabled
    &&& Some(settings.output_directory) == match config.output.directory {
        Some(directory) => Some(directory),
        None => inputs.default_directory,
    }
    &&& settings.output_queue_capacity == config.output.queue_capacity
    &&& settings.output_filename_template == config.output.filename_template
    &&& is_history_store(settings.history_store, inputs.config_path, inputs.storage)
    &&& is_retention(settings.history_retention, config)
    &&& settings.selection == given(args.selection, config.selection.enabled)
    &&& settings.selection_preview == config.selection.preview
    &&& settings.trigger_queue_capacity == config.daemon.trigger_queue_capacity
    &&& config.hotkey.resolved() == Ok::<Seq<HotkeyBinding>, Seq<char>>(settings.hotkey_bindings@)
    &&& is_state(settings.ui, inputs.ui)
    &&& settings.confirmed_regions@ == confirmed_among(
        settings.ui.displays.keys(),
        settings.ui.displays@,
    )
    &&& is_ui_store(settings.ui_state_store, inputs.config_path, inputs.storage)
    &&& settings.clipboard_queue_capacity == config.clipboard.queue_capacity
    &&& settings.selection_queue_capacity == config.selection.queue_capacity
    &&& settings.max_captures == args.max_captures
    &&& settings.self_trigger == args.self_trigger
    &&& settings.self_trigger_interval_ms == args.self_trigger_interval_ms
    &&& settings.json == args.json
    &&& texts(settings.startup_warnings@) == warnings_of(recovery, inputs.ui)
}

/// Whether an error reports what is wrong with a configuration.
pub open spec fn reports_problem(error: AppError, problem: Problem) -> bool {
    match problem {
        Problem::UnsupportedSchema(version) => error == AppError::Config(
            ConfigError::UnsupportedSchema(version),
        ),
        Problem::InvalidValue(message) => error matches AppError::Config(
            ConfigError::InvalidValue(text),
        ) && text@ == message,
    }
}

/// Whether a result is the one for these inputs: the first thing that is wrong, or the settings.
pub open spec fn settles(
    result: Result<ResolvedDaemonArgs, AppError>,
    args: DaemonArgs,
    inputs: DaemonInputs,
    directory_is_absolute: bool,
) -> bool {
    match inputs.loaded {
        Err(error) => result == Err::<ResolvedDaemonArgs, AppError>(AppError::Config(error)),
        Ok((config, recovery)) => match config.problem(directory_is_absolute) {
            Some(problem) => result matches Err(error) && reports_problem(error, problem),
            None => match config.hotkey.resolved() {
                Err(message) => result matches Err(AppError::Config(ConfigError::InvalidValue(text)))
                    && text@ == message,
                Ok(_) => if policy_in(given(args.display, config.daemon.display)@) is None {
                    result matches Err(AppError::InvalidArgument(text)) && text@
                        == "display must be pointer, primary, virtual_desktop, or display:<persistent-id>"@
                } else if config.output.directory is None && inputs.default_directory is None {
                    result matches Err(AppError::BackendUnavailable(text)) && text@
                        == "unable to determine a default output directory from USERPROFILE or HOME"@
                } else {
                    result matches Ok(settings) && follows(settings, args, config, recovery, inputs)
                },
            },
        },
    }
}

/// Where the remembered state is kept.
pub fn ui_store_for(config_path: Option<&FilePath>, storage: Option<&FilePath>) -> (store:
    UiStateStore)
    ensures
        is_ui_store(
            store,
            match config_path {
                Some(path) => Some(*path),
                None => None,
            },
            match storage {
                Some(path) => Some(*path),
                None => None,
            },
        ),
{
    match config_path {
        Some(path) => UiStateStore::for_config(path.clone()),
        None => UiStateStore::for_default_storage(storage),
    }
}

/// Where the history is kept.
fn history_store_for(config_path: Option<&FilePath>, storage: Option<&FilePath>) -> (store:
    HistoryStore)
    ensures
        is_history_store(
            store,
            match config_path {
                Some(path) => Some(*path),
                None => None,
            },
            match storage {
                Some(path) => Some(*path),
                None => None,
            },
        ),
{
    match config_path {
        Some(path) => HistoryStore::for_config(path),
        None => HistoryStore::for_default_storage(storage),
    }
}

/// The warnings of a startup.
fn startup_warnings(recovery: &Option<ConfigRecovery>, ui: &Result<UiState, ConfigError>) -> (list:
    Vec<String>)
    ensures
        texts(list@) == warnings_of(*recovery, *ui),
{
    let mut list: Vec<String> = Vec::new();
    if let Some(recovery) = recovery {
        list.push(recovery_warning(recovery));
    }
    if let Err(error) = ui {
        list.push(after("unable to read remembered UI state: ", error.message().as_str()));
    }
    list
}

/// Settles what the daemon runs with, given whether the output directory that the configuration
/// names is an absolute path.
pub fn resolve_daemon_args_with_default(
    args: DaemonArgs,
    inputs: DaemonInputs,
    directory_is_absolute: bool,
) -> (result: Result<ResolvedDaemonArgs, AppError>)
    ensures
        settles(result, args, inputs, directory_is_absolute),
{
    let (config, recovery) = match inputs.loaded {
        Ok(loaded) => loaded,
        Err(error) => {
            return Err(AppError::Config(error));
        },
    };
    match config.validate_on(directory_is_absolute) {
        Ok(()) => {},
        Err(error) => {
            return Err(AppError::Config(error));
        },
    }
    let hotkey_bindings = match config.hotkey.resolved_bindings() {
        Ok(bindings) => bindings,
        Err(error) => {
            return Err(AppError::Config(error));
        },
    };
    let startup_warnings = startup_warnings(&recovery, &inputs.ui);
    let ui = match inputs.ui {
        Ok(ui) => ui,
        Err(_) => UiState::default(),
    };
    let confirmed_regions = ui.confirmed_regions();
    let mode = resolved_mode(&args, &config);
    let display = match &args.display {
        Some(display) => display.as_str(),
        None => config.daemon.display.as_str(),
    };
    let display_policy = match resolve_display_policy(display) {
        Ok(policy) => policy,
        Err(error) => {
            return Err(error);
        },
    };
    let output_directory = match &config.output.directory {
        Some(directory) => directory.clone(),
        None => match inputs.default_directory {
            Some(directory) => directory,
            None => {
                return Err(
                    AppError::BackendUnavailable(
                        "unable to determine a default output directory from USERPROFILE or HOME".to_owned(),
                    ),
                );
            },
        },
    };
    let history_store = history_store_for(inputs.config_path.as_ref(), inputs.storage.as_ref());
    let ui_state_store = ui_store_for(inputs.config_path.as_ref(), inputs.storage.as_ref());
    let history_retention = config.history.retention();
    Ok(
        ResolvedDaemonArgs {
            backend: match args.backend {
                Some(backend) => backend,
                None => config.daemon.backend,
            },
            display_policy,
            mode,
            cpu_frame: match args.cpu_frame {
                Some(cpu_frame) => cpu_frame,
                None => config.capture.cpu_frame,
            },
            clipboard: match args.clipboard {
                Some(clipboard) => clipboard,
                None => config.clipboard.enabled,
            },
            file_output: config.output.enabled,
            output_directory,
            output_queue_capacity: config.output.queue_capacity,
            output_filename_template: config.output.filename_template,
            history_store,
            history_retention,
            selection: match args.selection {
                Some(selection) => selection,
                None => config.selection.enabled,
            },
            selection_preview: config.selection.preview,
            trigger_queue_capacity: config.daemon.trigger_queue_capacity,
            hotkey_bindings,
            confirmed_regions,
            ui,
            ui_state_store,
            clipboard_queue_capacity: config.clipboard.queue_capacity,
            selection_queue_capacity: config.selection.queue_capacity,
            max_captures: args.max_captures,
            self_trigger: args.self_trigger,
            self_trigger_interval_ms: args.self_trigger_interval_ms,
            json: args.json,
            startup_warnings,
        },
    )
}

/// Settles what the daemon runs with, asking the host whether the output directory is an absolute
/// path.
pub fn resolve_daemon_args(args: DaemonArgs, inputs: DaemonInputs) -> (result: Result<
    ResolvedDaemonArgs,
    AppError,
>)
    ensures
        settles(result, args, inputs, true) || settles(result, args, inputs, false),
        inputs.loaded is Err || inputs.loaded->Ok_0.0.output.directory is None ==> settles(
            result,
            args,
            inputs,
            true,
        ),
        inputs.loaded is Ok && (inputs.loaded->Ok_0.0.output.directory matches Some(directory)
            && !can_be_absolute(directory@)) ==> settles(result, args, inputs, false),
{
    let directory_is_absolute = match &inputs.loaded {
        Ok(loaded) => match &loaded.0.output.directory {
            Some(directory) => path_is_absolute(directory.as_str()),
            None => true,
        },
        Err(_) => true,
    };
    resolve_daemon_args_with_default(args, inputs, directory_is_absolute)
}

/// What the command line says goes, and what it leaves open the configuration says. The remembered
/// state, its file and the history lie beside the configuration that was named, or in the storage
/// directory where none was.
pub proof fn law_the_command_line_goes_before_the_configuration(
    settings: ResolvedDaemonArgs,
    args: DaemonArgs,
    config: AppConfig,
    recovery: Option<ConfigRecovery>,
    inputs: DaemonInputs,
)
    requires
        follows(settings, args, config, recovery, inputs),
    ensures
        args.backend matches Some(backend) ==> settings.backend == backend,
        args.backend is None ==> settings.backend == config.daemon.backend,
        args.cpu_frame matches Some(cpu_frame) ==> settings.cpu_frame == cpu_frame,
        args.cpu_frame is None ==> settings.cpu_frame == config.capture.cpu_frame,
        args.clipboard matches Some(clipboard) ==> settings.clipboard == clipboard,
        args.clipboard is None ==> settings.clipboard == config.clipboard.enabled,
        args.selection matches Some(selection) ==> settings.selection == selection,
        args.selection is None ==> settings.selection == config.selection.enabled,
        args.display matches Some(display) ==> policy_in(display@) == Some(settings.display_policy@),
        args.display is None ==> policy_in(config.daemon.display@) == Some(settings.display_policy@),
        settings.file_output == config.output.enabled,
        config.output.directory matches Some(directory) ==> settings.output_directory == directory,
        config.output.directory is None ==> inputs.default_directory == Some(
            settings.output_directory,
        ),
        settings.output_filename_template == config.output.filename_template,
        settings.selection_preview == config.selection.preview,
        settings.max_captures == args.max_captures,
        settings.output_queue_capacity == config.output.queue_capacity,
        settings.clipboard_queue_capacity == config.clipboard.queue_capacity,
        settings.selection_queue_capacity == config.selection.queue_capacity,
        settings.trigger_queue_capacity == config.daemon.trigger_queue_capacity,
        inputs.ui matches Ok(state) ==> settings.ui == state,
        inputs.config_path matches Some(path) ==> (FilePath::parent_parts(path@) matches Some(
            directory,
        ) ==> parts_of(settings.history_store.location) == Some(
            directory.push(Part::Normal("history.toml"@)),
        ) && parts_of(settings.ui_state_store.state_path) == Some(
            directory.push(Part::Normal("state.toml"@)),
        )),
        inputs.config_path is None ==> (inputs.storage matches Some(storage) ==> parts_of(
            settings.history_store.location,
        ) == Some(storage@.push(Part::Normal("history.toml"@))) && parts_of(
            settings.ui_state_store.state_path,
        ) == Some(storage@.push(Part::Normal("state.toml"@)))),
        inputs.config_path is None && inputs.storage is None ==> settings.history_store.location is None
            && settings.ui_state_store.state_path is None,
{
}

/// A capture waits for a fresh frame, or takes the latest one, as the command line says, or else the
/// configuration. A fresh frame has its time limit and a latest one its greatest age from the same
/// source; no age at all is no limit.
pub proof fn law_the_mode_is_the_one_asked_for(args: DaemonArgs, config: AppConfig)
    ensures
        ({
            let mode = mode_of(args, config);
            let fresh = if args.mode is Some {
                args.mode->Some_0 is Fresh
            } else {
                config.capture.mode@ == "fresh"@
            };
            &&& mode is Fresh <==> fresh
            &&& mode matches CaptureMode::Fresh { timeout_ms } ==> timeout_ms == if args.fresh_timeout_ms is Some {
                args.fresh_timeout_ms->Some_0
            } else {
                config.capture.fresh_timeout_ms
            }
            &&& mode matches CaptureMode::Latest { max_age_ms } ==> {
                let age = if args.max_frame_age_ms is Some {
                    args.max_frame_age_ms->Some_0
                } else {
                    config.capture.max_frame_age_ms
                };
                &&& age == 0 ==> max_age_ms is None
                &&& age != 0 ==> max_age_ms == Some(age)
            }
        }),
{
}

/// The history keeps as many captures as the configuration says, for as many days of 86,400 seconds,
/// and with as many bytes. No days and no bytes are no limit.
pub proof fn law_the_history_is_kept_as_configured(policy: RetentionPolicy, config: AppConfig)
    requires
        is_retention(policy, config),
    ensures
        policy.max_items == config.history.max_items,
        config.history.max_age_days == 0 <==> policy.max_age is None,
        policy.max_age matches Some(seconds) ==> (config.history.max_age_days * 86_400 <= u64::MAX
            ==> seconds == config.history.max_age_days * 86_400),
        config.history.max_total_bytes == 0 <==> policy.max_total_bytes is None,
        policy.max_total_bytes matches Some(bytes) ==> bytes == config.history.max_total_bytes,
{
}

/// The daemon has its settings exactly where its configuration could be loaded and can be used, its
/// keys can be bound, its display can be chosen, and there is a place for captures.
pub proof fn law_the_daemon_has_its_settings_where_nothing_is_wrong(
    result: Result<ResolvedDaemonArgs, AppError>,
    args: DaemonArgs,
    inputs: DaemonInputs,
    directory_is_absolute: bool,
)
    requires
        settles(result, args, inputs, directory_is_absolute),
    ensures
        result is Ok <==> (inputs.loaded matches Ok((config, recovery)) && config.problem(
            directory_is_absolute,
        ) is None && config.hotkey.resolved() is Ok && policy_in(
            given(args.display, config.daemon.display)@,
        ) is Some && (config.output.directory is Some || inputs.default_directory is Some)),
        inputs.loaded matches Err(error) ==> result == Err::<ResolvedDaemonArgs, AppError>(
            AppError::Config(error),
        ),
        inputs.loaded matches Ok((config, recovery)) ==> (config.problem(directory_is_absolute)
            matches Some(Problem::UnsupportedSchema(version)) ==> result == Err::<
            ResolvedDaemonArgs,
            AppError,
        >(AppError::Config(ConfigError::UnsupportedSchema(version)))),
        inputs.loaded matches Ok((config, recovery)) ==> (config.problem(directory_is_absolute)
            matches Some(Problem::InvalidValue(message)) ==> result matches Err(error) && error.text()
            == "invalid configuration: "@ + message),
{
}

/// State is kept beside the configuration that was named, and where none was, in the directory for
/// storage; without either it is not kept.
pub proof fn law_state_is_kept_beside_its_configuration(
    store: UiStateStore,
    config_path: Option<FilePath>,
    storage: Option<FilePath>,
    directory: Seq<Part>,
    name: Seq<char>,
)
    requires
        is_ui_store(store, config_path, storage),
    ensures
        parts_of(config_path) == Some(directory.push(Part::Normal(name))) ==> parts_of(
            store.state_path,
        ) == Some(directory.push(Part::Normal("state.toml"@))) && parts_of(store.beside) == parts_of(
            config_path,
        ),
        config_path is None && parts_of(storage) == Some(directory) ==> parts_of(store.state_path)
            == Some(directory.push(Part::Normal("state.toml"@))) && parts_of(store.beside) == Some(
            directory.push(Part::Normal("captastic.toml"@)),
        ),
        config_path is None && storage is None ==> store.state_path is None && store.beside is None,
{
    assert(directory.push(Part::Normal(name)).drop_last() =~= directory);
}

/// State that was read is used, and state that could not be read counts as nothing remembered.
pub proof fn law_unreadable_state_is_forgotten(state: UiState, ui: Result<UiState, ConfigError>)
    requires
        is_state(state, ui),
    ensures
        ui matches Ok(read) ==> state == read,
        ui is Err ==> state.schema_version == 1 && state.overlay_x is None && state.overlay_y is None
            && state.last_capture_tool is None && state.last_region is None
            && state.displays.keys().len() == 0,
{
}

} // verus!
