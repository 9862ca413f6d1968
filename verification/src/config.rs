//! The configuration: its sections, their defaults, and the rules a configuration has to meet.
use vstd::prelude::*;
use vstd::string::*;
use vstd::utf8::*;

use crate::config_edit::{parse_document, toml_document};
use crate::error::ConfigError;
use crate::filename_template::{lemma_default_template, template_fault, validate_template};
use crate::history::RetentionPolicy;
use crate::hotkey::{
    chord_of, law_chord_text_reads_back, lemma_made, lemma_modifiers_of, HotkeyAction,
    HotkeyBinding, HotkeyChord, HotkeyFault, HotkeyKey, HotkeyModifiers, Modifier,
};
use crate::path::FilePath;
use crate::region::{
    law_what_regions_and_geometries_are, CaptureRegion, CaptureTool, ConfirmedRegion,
    DisplayUiConfig,
};
use crate::table::TextMap;
use crate::text::{is_blank, join, same, starts_with, strip_prefix, trim};

verus! {

/// The version of the configuration format.
pub const CONFIG_SCHEMA_VERSION: u32 = 1;

/// The name of the configuration file.
pub const CONFIG_FILE_NAME: &'static str = "captastic.toml";

/// The default capture name: sortable, and identical for every capture but the moment it was
/// taken.
pub const DEFAULT_FILENAME_TEMPLATE: &'static str = "captastic-{timestamp}";

/// When a live preview is used for choosing a region.
#[derive(Clone, Copy, Debug, Eq, PartialEq, Structural)]
pub enum PreviewMode {
    Auto,
    Live,
    Frozen,
}

impl Default for PreviewMode {
    fn default() -> (mode: Self)
        ensures
            mode == PreviewMode::Auto,
    {
        PreviewMode::Auto
    }
}

#[derive(Clone, Debug)]
pub struct DaemonConfig {
    pub backend: String,
    pub display: String,
    pub trigger_queue_capacity: usize,
}

impl Default for DaemonConfig {
    fn default() -> (config: Self)
        ensures
            config.backend@ == "dxgi"@,
            config.display@ == "pointer"@,
            config.trigger_queue_capacity == 4,
    {
        DaemonConfig {
            backend: "dxgi".to_owned(),
            display: "pointer".to_owned(),
            trigger_queue_capacity: 4,
        }
    }
}

#[derive(Clone, Debug)]
pub struct HotkeyBindingsConfig {
    pub last_workflow: Option<String>,
    pub region: Option<String>,
    pub window: Option<String>,
    pub full_display: Option<String>,
    pub repeat_last_region: Option<String>,
}

/// The text of an optional string.
pub open spec fn text_in(value: Option<String>) -> Option<Seq<char>> {
    match value {
        Some(text) => Some(text@),
        None => None,
    }
}

impl HotkeyBindingsConfig {
    /// The text bound to an action.
    pub open spec fn bound(self, action: HotkeyAction) -> Option<Seq<char>> {
        match action {
            HotkeyAction::LastWorkflow => text_in(self.last_workflow),
            HotkeyAction::Region => text_in(self.region),
            HotkeyAction::Window => text_in(self.window),
            HotkeyAction::FullDisplay => text_in(self.full_display),
            HotkeyAction::RepeatLastRegion => text_in(self.repeat_last_region),
        }
    }

    /// No action is bound.
    pub fn disabled() -> (bindings: Self)
        ensures
            forall|action: HotkeyAction| #[trigger] bindings.bound(action) is None,
    {
        HotkeyBindingsConfig {
            last_workflow: None,
            region: None,
            window: None,
            full_display: None,
            repeat_last_region: None,
        }
    }

    /// Whether no action is bound.
    pub fn is_empty(&self) -> (empty: bool)
        ensures
            empty == forall|action: HotkeyAction| #[trigger] self.bound(action) is None,
    {
        proof {
            assert(self.bound(HotkeyAction::LastWorkflow) is None == self.last_workflow is None);
            assert(self.bound(HotkeyAction::Region) is None == self.region is None);
            assert(self.bound(HotkeyAction::Window) is None == self.window is None);
            assert(self.bound(HotkeyAction::FullDisplay) is None == self.full_display is None);
            assert(self.bound(HotkeyAction::RepeatLastRegion) is None
                == self.repeat_last_region is None);
        }
        self.last_workflow.is_none() && self.region.is_none() && self.window.is_none()
            && self.full_display.is_none() && self.repeat_last_region.is_none()
    }

    /// The text bound to an action.
    pub fn value(&self, action: HotkeyAction) -> (text: Option<&String>)
        ensures
            match text {
                Some(text) => self.bound(action) == Some(text@),
                None => self.bound(action) is None,
            },
    {
        let value = match action {
            HotkeyAction::LastWorkflow => &self.last_workflow,
            HotkeyAction::Region => &self.region,
            HotkeyAction::Window => &self.window,
            HotkeyAction::FullDisplay => &self.full_display,
            HotkeyAction::RepeatLastRegion => &self.repeat_last_region,
        };
        match value {
            Some(text) => Some(text),
            None => None,
        }
    }
}

#[derive(Clone, Debug)]
pub struct HotkeyConfig {
    pub binding: Option<String>,
    pub repeat: String,
    pub bindings: HotkeyBindingsConfig,
}

impl Default for HotkeyConfig {
    fn default() -> (config: Self)
        ensures
            config.binding is None,
            config.repeat@ == "ignore"@,
            config.bindings.bound(HotkeyAction::LastWorkflow) == Some("Ctrl+Shift+F9"@),
            forall|action: HotkeyAction|
                action != HotkeyAction::LastWorkflow ==> #[trigger] config.bindings.bound(
                    action,
                ) is None,
    {
        HotkeyConfig {
            binding: None,
            repeat: "ignore".to_owned(),
            bindings: HotkeyBindingsConfig {
                last_workflow: Some("Ctrl+Shift+F9".to_owned()),
                region: None,
                window: None,
                full_display: None,
                repeat_last_region: None,
            },
        }
    }
}

/// The action that a chord is already bound to.
pub open spec fn owner(bindings: Seq<HotkeyBinding>, chord: HotkeyChord) -> Option<HotkeyAction>
    decreases bindings.len(),
{
    if bindings.len() == 0 {
        None
    } else {
        match owner(bindings.drop_last(), chord) {
            Some(action) => Some(action),
            None => if bindings.last().chord == chord {
                Some(bindings.last().action)
            } else {
                None
            },
        }
    }
}

impl HotkeyConfig {
    /// The text that the configuration binds to an action, in either place it can stand.
    pub open spec fn bound(self, action: HotkeyAction) -> Option<Seq<char>> {
        if action == HotkeyAction::LastWorkflow && self.bindings.bound(action) is None {
            text_in(self.binding)
        } else {
            self.bindings.bound(action)
        }
    }

    /// The bindings of some actions, or what is wrong with the first faulty one.
    pub open spec fn bindings_for(self, actions: Seq<HotkeyAction>) -> Result<
        Seq<HotkeyBinding>,
        Seq<char>,
    >
        decreases actions.len(),
    {
        if actions.len() == 0 {
            Ok(Seq::empty())
        } else {
            let action = actions.last();
            match self.bindings_for(actions.drop_last()) {
                Err(message) => Err(message),
                Ok(before) => match self.bound(action) {
                    None => Ok(before),
                    Some(text) => match chord_of(text) {
                        Err(fault) => Err(
                            "hotkey.bindings."@ + action.name() + " is invalid: "@
                                + fault.message(),
                        ),
                        Ok(chord) => match owner(before, chord) {
                            Some(previous) => Err(
                                "hotkey chord "@ + chord.text() + " is assigned to both "@
                                    + previous.name() + " and "@ + action.name(),
                            ),
                            None => Ok(before.push(HotkeyBinding { action, chord })),
                        },
                    },
                },
            }
        }
    }

    /// The bindings of all actions in registration order, or what is wrong with them.
    pub open spec fn resolved(self) -> Result<Seq<HotkeyBinding>, Seq<char>> {
        if self.binding is Some && self.bindings.last_workflow is Some {
            Err(
                "hotkey.binding and hotkey.bindings.last_workflow define the same action; remove one"@,
            )
        } else {
            self.bindings_for(HotkeyAction::all())
        }
    }

    /// The bindings of all actions, in registration order.
    pub fn resolved_bindings(&self) -> (result: Result<Vec<HotkeyBinding>, ConfigError>)
        ensures
            match self.resolved() {
                Ok(bindings) => result matches Ok(list) && list@ == bindings,
                Err(message) => result matches Err(ConfigError::InvalidValue(text)) && text@
                    == message,
            },
    {
        if self.binding.is_some() && self.bindings.last_workflow.is_some() {
            return Err(
                ConfigError::InvalidValue(
                    "hotkey.binding and hotkey.bindings.last_workflow define the same action; remove one".to_owned(),
                ),
            );
        }
        let actions = HotkeyAction::every();
        let mut list: Vec<HotkeyBinding> = Vec::new();
        let mut i: usize = 0;
        while i < actions.len()
            invariant
                i <= actions@.len(),
                actions@ == HotkeyAction::all(),
                self.bindings_for(actions@.take(i as int)) == Ok::<Seq<HotkeyBinding>, Seq<char>>(
                    list@,
                ),
                !(self.binding is Some && self.bindings.last_workflow is Some),
            decreases actions@.len() - i,
        {
            let action = actions[i];
            proof {
                assert(actions@.take(i + 1).drop_last() =~= actions@.take(i as int));
            }
            i += 1;
            let mut value = self.bindings.value(action);
            if action == HotkeyAction::LastWorkflow && value.is_none() {
                value = match &self.binding {
                    Some(text) => Some(text),
                    None => None,
                };
            }
            if let Some(text) = value {
                match HotkeyChord::parse(text.as_str()) {
                    Err(error) => {
                        let mut message = "hotkey.bindings.".to_owned();
                        message.append(action.as_str());
                        message.append(" is invalid: ");
                        message.append(error.message().as_str());
                        proof {
                            self.lemma_fault_stays(actions@, i as int);
                        }
                        return Err(ConfigError::InvalidValue(message));
                    },
                    Ok(chord) => {
                        if let Some(previous) = find_owner(&list, chord) {
                            let mut message = "hotkey chord ".to_owned();
                            message.append(chord.to_text().as_str());
                            message.append(" is assigned to both ");
                            message.append(previous.as_str());
                            message.append(" and ");
                            message.append(action.as_str());
                            proof {
                                self.lemma_fault_stays(actions@, i as int);
                            }
                            return Err(ConfigError::InvalidValue(message));
                        }
                        list.push(HotkeyBinding { action, chord });
                    },
                }
            }
        }
        proof {
            assert(actions@.take(i as int) =~= actions@);
        }
        Ok(list)
    }

    /// A fault among the first actions is the fault of them all.
    proof fn lemma_fault_stays(self, actions: Seq<HotkeyAction>, i: int)
        requires
            0 <= i <= actions.len(),
            self.bindings_for(actions.take(i)) is Err,
        ensures
            self.bindings_for(actions) == self.bindings_for(actions.take(i)),
        decreases actions.len() - i,
    {
        if i < actions.len() {
            assert(actions.take(i + 1).drop_last() =~= actions.take(i));
            self.lemma_fault_stays(actions, i + 1);
        } else {
            assert(actions.take(i) =~= actions);
        }
    }

    /// The bindings found so far are distinct chords, each read from the text of its action.
    proof fn lemma_bindings(self, actions: Seq<HotkeyAction>)
        requires
            self.bindings_for(actions) is Ok,
        ensures
            ({
                let bindings = self.bindings_for(actions)->Ok_0;
                &&& forall|i: int, j: int|
                    0 <= i < j < bindings.len() ==> (#[trigger] bindings[i]).chord != (
                    #[trigger] bindings[j]).chord
                &&& forall|i: int|
                    0 <= i < bindings.len() ==> actions.contains((#[trigger] bindings[i]).action)
                        && self.bound(bindings[i].action) is Some && chord_of(
                        self.bound(bindings[i].action)->Some_0,
                    ) == Ok::<HotkeyChord, HotkeyFault>(bindings[i].chord)
            }),
        decreases actions.len(),
    {
        if actions.len() > 0 {
            self.lemma_bindings(actions.drop_last());
            let before = self.bindings_for(actions.drop_last())->Ok_0;
            let bindings = self.bindings_for(actions)->Ok_0;
            if bindings.len() > before.len() {
                lemma_no_owner(before, bindings.last().chord);
            }
        }
    }
}

/// A chord without an owner is in no binding.
proof fn lemma_no_owner(bindings: Seq<HotkeyBinding>, chord: HotkeyChord)
    requires
        owner(bindings, chord) is None,
    ensures
        forall|i: int| 0 <= i < bindings.len() ==> (#[trigger] bindings[i]).chord != chord,
    decreases bindings.len(),
{
    if bindings.len() > 0 {
        lemma_no_owner(bindings.drop_last(), chord);
        assert forall|i: int| 0 <= i < bindings.len() implies (#[trigger] bindings[i]).chord
            != chord by {
            if i < bindings.len() - 1 {
                assert(bindings.drop_last()[i] == bindings[i]);
            }
        }
    }
}

/// An owner among the first bindings is the owner among all.
proof fn lemma_owner_stays(bindings: Seq<HotkeyBinding>, chord: HotkeyChord, i: int)
    requires
        0 <= i <= bindings.len(),
        owner(bindings.take(i), chord) is Some,
    ensures
        owner(bindings, chord) == owner(bindings.take(i), chord),
    decreases bindings.len() - i,
{
    if i < bindings.len() {
        assert(bindings.take(i + 1).drop_last() =~= bindings.take(i));
        lemma_owner_stays(bindings, chord, i + 1);
    } else {
        assert(bindings.take(i) =~= bindings);
    }
}

/// The action that a chord is already bound to.
fn find_owner(bindings: &Vec<HotkeyBinding>, chord: HotkeyChord) -> (action: Option<HotkeyAction>)
    ensures
        action == owner(bindings@, chord),
{
    let mut i: usize = 0;
    while i < bindings.len()
        invariant
            i <= bindings@.len(),
            owner(bindings@.take(i as int), chord) is None,
        decreases bindings@.len() - i,
    {
        proof {
            assert(bindings@.take(i + 1).drop_last() =~= bindings@.take(i as int));
        }
        if bindings[i].chord == chord {
            proof {
                lemma_owner_stays(bindings@, chord, i + 1);
            }
            return Some(bindings[i].action);
        }
        i += 1;
    }
    proof {
        assert(bindings@.take(i as int) =~= bindings@);
    }
    None
}

/// In resolved bindings no chord stands twice, and each chord is the one that its action's text
/// spells.
pub proof fn law_resolved_bindings_are_distinct(config: HotkeyConfig)
    requires
        config.resolved() is Ok,
    ensures
        ({
            let bindings = config.resolved()->Ok_0;
            &&& forall|i: int, j: int|
                0 <= i < j < bindings.len() ==> (#[trigger] bindings[i]).chord != (
                #[trigger] bindings[j]).chord
            &&& forall|i: int|
                0 <= i < bindings.len() ==> config.bound((#[trigger] bindings[i]).action) is Some
                    && chord_of(config.bound(bindings[i].action)->Some_0) == Ok::<
                    HotkeyChord,
                    HotkeyFault,
                >(bindings[i].chord)
        }),
{
    config.lemma_bindings(HotkeyAction::all());
}

#[derive(Clone, Debug)]
pub struct CaptureConfig {
    pub mode: String,
    pub fresh_timeout_ms: u64,
    pub max_frame_age_ms: u64,
    pub cpu_frame: bool,
    pub cursor: String,
    pub buffer_slots: usize,
    pub fake_width: u32,
    pub fake_height: u32,
    pub fake_native_delay_us: u64,
    pub fake_readback_delay_us: u64,
    pub fake_frame_age_us: u64,
}

impl Default for CaptureConfig {
    fn default() -> (config: Self)
        ensures
            config.mode@ == "latest"@,
            config.fresh_timeout_ms == 100,
            config.max_frame_age_ms == 0,
            config.cpu_frame,
            config.cursor@ == "exclude"@,
            config.buffer_slots == 3,
            config.fake_width == 64,
            config.fake_height == 64,
            config.fake_native_delay_us == 250,
            config.fake_readback_delay_us == 250,
            config.fake_frame_age_us == 1_000,
    {
        CaptureConfig {
            mode: "latest".to_owned(),
            fresh_timeout_ms: 100,
            max_frame_age_ms: 0,
            cpu_frame: true,
            cursor: "exclude".to_owned(),
            buffer_slots: 3,
            fake_width: 64,
            fake_height: 64,
            fake_native_delay_us: 250,
            fake_readback_delay_us: 250,
            fake_frame_age_us: 1_000,
        }
    }
}

#[derive(Clone, Copy, Debug, Eq, PartialEq, Structural)]
pub struct ClipboardConfig {
    pub enabled: bool,
    pub queue_capacity: usize,
    /// Whether a capture may be kept in the clipboard history.
    pub allow_history: bool,
    /// Whether a capture may be synced to the account's other machines.
    pub allow_cloud_sync: bool,
}

impl Default for ClipboardConfig {
    fn default() -> (config: Self)
        ensures
            config == (ClipboardConfig {
                enabled: true,
                queue_capacity: 1,
                allow_history: false,
                allow_cloud_sync: false,
            }),
    {
        ClipboardConfig {
            enabled: true,
            queue_capacity: 1,
            allow_history: false,
            allow_cloud_sync: false,
        }
    }
}

#[derive(Clone, Copy, Debug, Eq, PartialEq, Structural)]
pub struct SelectionConfig {
    pub enabled: bool,
    pub queue_capacity: usize,
    pub preview: PreviewMode,
}

impl Default for SelectionConfig {
    fn default() -> (config: Self)
        ensures
            config == (SelectionConfig {
                enabled: true,
                queue_capacity: 1,
                preview: PreviewMode::Auto,
            }),
    {
        SelectionConfig { enabled: true, queue_capacity: 1, preview: PreviewMode::Auto }
    }
}

#[derive(Clone, Debug)]
pub struct OutputConfig {
    pub enabled: bool,
    pub format: String,
    pub queue_capacity: usize,
    /// Where captures are written, where the user named a place.
    pub directory: Option<String>,
    /// Names a capture, without its extension.
    pub filename_template: String,
}

impl Default for OutputConfig {
    fn default() -> (config: Self)
        ensures
            !config.enabled,
            config.format@ == "png"@,
            config.queue_capacity == 2,
            config.directory is None,
            config.filename_template@ == "captastic-{timestamp}"@,
    {
        OutputConfig {
            enabled: false,
            format: "png".to_owned(),
            queue_capacity: 2,
            directory: None,
            filename_template: "captastic-{timestamp}".to_owned(),
        }
    }
}

#[derive(Clone, Copy, Debug, Eq, PartialEq, Structural)]
pub struct HistoryConfig {
    /// How many recent captures to remember. Zero remembers none.
    pub max_items: usize,
    /// Forget captures older than this. Zero means that age is no reason to forget.
    pub max_age_days: u32,
    /// Forget the oldest captures beyond this many bytes. Zero means that size is no reason to
    /// forget.
    pub max_total_bytes: u64,
}

impl Default for HistoryConfig {
    fn default() -> (config: Self)
        ensures
            config == (HistoryConfig { max_items: 50, max_age_days: 30, max_total_bytes: 0 }),
    {
        HistoryConfig { max_items: 50, max_age_days: 30, max_total_bytes: 0 }
    }
}

impl HistoryConfig {
    /// The retention that the section asks for.
    pub fn retention(&self) -> (policy: RetentionPolicy)
        ensures
            policy.max_items == self.max_items,
            match policy.max_age {
                Some(seconds) => self.max_age_days > 0 && seconds == self.max_age_days * 24 * 60
                    * 60,
                None => self.max_age_days == 0,
            },
            match policy.max_total_bytes {
                Some(bytes) => self.max_total_bytes > 0 && bytes == self.max_total_bytes,
                None => self.max_total_bytes == 0,
            },
    {
        RetentionPolicy {
            max_items: self.max_items,
            max_age: if self.max_age_days > 0 {
                Some(self.max_age_days as u64 * 24 * 60 * 60)
            } else {
                None
            },
            max_total_bytes: if self.max_total_bytes > 0 {
                Some(self.max_total_bytes)
            } else {
                None
            },
        }
    }
}

#[derive(Clone, Copy, Debug, Eq, PartialEq, Structural)]
pub struct MetricsConfig {
    pub enabled: bool,
    pub ring_capacity: usize,
    pub raw_events: bool,
}

impl Default for MetricsConfig {
    fn default() -> (config: Self)
        ensures
            config == (MetricsConfig { enabled: true, ring_capacity: 10_000, raw_events: false }),
    {
        MetricsConfig { enabled: true, ring_capacity: 10_000, raw_events: false }
    }
}

#[derive(Clone, Debug)]
pub struct LoggingConfig {
    pub level: String,
    pub format: String,
    pub file: Option<String>,
    pub max_file_bytes: u64,
    pub retained_files: usize,
}

impl Default for LoggingConfig {
    fn default() -> (config: Self)
        ensures
            config.level@ == "info"@,
            config.format@ == "compact"@,
            config.file is None,
            config.max_file_bytes == 5 * 1_024 * 1_024,
            config.retained_files == 3,
    {
        LoggingConfig {
            level: "info".to_owned(),
            format: "compact".to_owned(),
            file: None,
            max_file_bytes: 5 * 1_024 * 1_024,
            retained_files: 3,
        }
    }
}

/// What earlier builds remembered inside the configuration.
#[derive(Clone, Debug)]
pub struct UiConfig {
    pub overlay_x: Option<i32>,
    pub overlay_y: Option<i32>,
    pub last_capture_tool: Option<CaptureTool>,
    pub last_region: Option<CaptureRegion>,
    pub displays: TextMap<DisplayUiConfig>,
}

impl Default for UiConfig {
    fn default() -> (config: Self)
        ensures
            config.overlay_x is None,
            config.overlay_y is None,
            config.last_capture_tool is None,
            config.last_region is None,
            config.displays@ == Map::<Seq<char>, DisplayUiConfig>::empty(),
            config.displays.keys().len() == 0,
    {
        UiConfig {
            overlay_x: None,
            overlay_y: None,
            last_capture_tool: None,
            last_region: None,
            displays: TextMap::new(),
        }
    }
}

/// What is wrong with the remembered state of one display, the first thing found.
pub open spec fn entry_problem(id: Seq<char>, state: DisplayUiConfig) -> Option<Seq<char>> {
    if is_blank(id) {
        Some("ui.displays keys must not be empty"@)
    } else if state.overlay_x is Some != state.overlay_y is Some {
        Some(
            "ui.displays."@ + id
                + ".overlay_x and overlay_y must either both be set or both be omitted"@,
        )
    } else if state.overlay_center_x is Some != state.overlay_center_y is Some {
        Some(
            "ui.displays."@ + id
                + ".overlay_center_x and overlay_center_y must either both be set or both be omitted"@,
        )
    } else if state.overlay_center_x is Some && !(state.overlay_center_x->Some_0.normalized()
        && state.overlay_center_y->Some_0.normalized()) {
        Some(
            "ui.displays."@ + id
                + " overlay center coordinates must be finite values between 0 and 1"@,
        )
    } else if state.last_region is Some && state.last_region->Some_0.empty() {
        Some(
            "ui.displays."@ + id + ".last_region width and height must be greater than zero"@,
        )
    } else if state.last_region_source is Some && state.last_region_source->Some_0.empty() {
        Some(
            "ui.displays."@ + id + ".last_region_source dimensions must be greater than zero"@,
        )
    } else if state.last_region_source is Some && !state.last_region_source->Some_0.upright() {
        Some(
            "ui.displays."@ + id
                + ".last_region_source rotation must be 0, 90, 180, or 270 degrees"@,
        )
    } else if state.last_region_source is Some && state.last_region is None {
        Some("ui.displays."@ + id + ".last_region_source requires last_region"@)
    } else if state.last_confirmed_region is Some != state.last_confirmed_region_source is Some {
        Some(
            "ui.displays."@ + id
                + " confirmed region and source must both be set or both be omitted"@,
        )
    } else if state.last_confirmed_region is Some && !(ConfirmedRegion {
        region: state.last_confirmed_region->Some_0,
        source: state.last_confirmed_region_source->Some_0,
    }).fits() {
        Some("ui.displays."@ + id + ".last_confirmed_region must fit its source geometry"@)
    } else if state.last_confirmed_region is Some
        && !state.last_confirmed_region_source->Some_0.upright() {
        Some(
            "ui.displays."@ + id
                + ".last_confirmed_region_source rotation must be 0, 90, 180, or 270 degrees"@,
        )
    } else {
        None
    }
}

/// What is wrong with the first faulty entry among `keys`.
pub open spec fn entries_problem(
    keys: Seq<Seq<char>>,
    entries: Map<Seq<char>, DisplayUiConfig>,
) -> Option<Seq<char>>
    decreases keys.len(),
{
    if keys.len() == 0 {
        None
    } else {
        match entries_problem(keys.drop_last(), entries) {
            Some(message) => Some(message),
            None => entry_problem(keys.last(), entries[keys.last()]),
        }
    }
}

/// A problem among the first entries is the problem of them all.
proof fn lemma_problem_stays(
    keys: Seq<Seq<char>>,
    entries: Map<Seq<char>, DisplayUiConfig>,
    i: int,
)
    requires
        0 <= i <= keys.len(),
        entries_problem(keys.take(i), entries) is Some,
    ensures
        entries_problem(keys, entries) == entries_problem(keys.take(i), entries),
    decreases keys.len() - i,
{
    if i < keys.len() {
        assert(keys.take(i + 1).drop_last() =~= keys.take(i));
        lemma_problem_stays(keys, entries, i + 1);
    } else {
        assert(keys.take(i) =~= keys);
    }
}

/// Entries are without a problem if and only if each of them is.
pub proof fn lemma_entries_problem(keys: Seq<Seq<char>>, entries: Map<Seq<char>, DisplayUiConfig>)
    ensures
        entries_problem(keys, entries) is None <==> forall|id: Seq<char>| #[trigger]
            keys.contains(id) ==> entry_problem(id, entries[id]) is None,
    decreases keys.len(),
{
    if keys.len() > 0 {
        let before = keys.drop_last();
        lemma_entries_problem(before, entries);
        assert(keys.contains(keys.last()));
        assert forall|id: Seq<char>| keys.contains(id) == (before.contains(id) || id
            == keys.last()) by {
            if before.contains(id) {
                let i = choose|i: int| 0 <= i < before.len() && before[i] == id;
                assert(keys[i] == id);
            }
            if keys.contains(id) && id != keys.last() {
                let i = choose|i: int| 0 <= i < keys.len() && keys[i] == id;
                assert(before[i] == id);
            }
        }
    }
}

/// A text about one display's entry.
fn entry_message(id: &str, rest: &str) -> (error: ConfigError)
    ensures
        error matches ConfigError::InvalidValue(text) && text@ == "ui.displays."@ + id@ + rest@,
{
    let mut text = "ui.displays.".to_owned();
    text.append(id);
    text.append(rest);
    ConfigError::InvalidValue(text)
}

/// Checks the remembered state of one display.
pub fn validate_display_entry(id: &str, state: &DisplayUiConfig) -> (result: Result<
    (),
    ConfigError,
>)
    ensures
        match entry_problem(id@, *state) {
            None => result is Ok,
            Some(message) => result matches Err(ConfigError::InvalidValue(text)) && text@
                == message,
        },
{
    if trim(id).as_str().is_empty() {
        return Err(ConfigError::InvalidValue("ui.displays keys must not be empty".to_owned()));
    }
    if state.overlay_x.is_some() != state.overlay_y.is_some() {
        return Err(
            entry_message(
                id,
                ".overlay_x and overlay_y must either both be set or both be omitted",
            ),
        );
    }
    if state.overlay_center_x.is_some() != state.overlay_center_y.is_some() {
        return Err(
            entry_message(
                id,
                ".overlay_center_x and overlay_center_y must either both be set or both be omitted",
            ),
        );
    }
    if let (Some(x), Some(y)) = (state.overlay_center_x, state.overlay_center_y) {
        if !x.is_normalized() || !y.is_normalized() {
            return Err(
                entry_message(
                    id,
                    " overlay center coordinates must be finite values between 0 and 1",
                ),
            );
        }
    }
    if let Some(region) = state.last_region {
        if region.is_empty() {
            return Err(
                entry_message(id, ".last_region width and height must be greater than zero"),
            );
        }
    }
    if let Some(source) = state.last_region_source {
        if source.is_empty() {
            return Err(
                entry_message(id, ".last_region_source dimensions must be greater than zero"),
            );
        }
        if !source.is_upright() {
            return Err(
                entry_message(
                    id,
                    ".last_region_source rotation must be 0, 90, 180, or 270 degrees",
                ),
            );
        }
        if state.last_region.is_none() {
            return Err(entry_message(id, ".last_region_source requires last_region"));
        }
    }
    match (state.last_confirmed_region, state.last_confirmed_region_source) {
        (Some(region), Some(source)) => {
            let confirmed = ConfirmedRegion { region, source };
            if !confirmed.is_fitting() {
                return Err(
                    entry_message(id, ".last_confirmed_region must fit its source geometry"),
                );
            }
            if !source.is_upright() {
                return Err(
                    entry_message(
                        id,
                        ".last_confirmed_region_source rotation must be 0, 90, 180, or 270 degrees",
                    ),
                );
            }
        },
        (None, None) => {},
        _ => {
            return Err(
                entry_message(
                    id,
                    " confirmed region and source must both be set or both be omitted",
                ),
            );
        },
    }
    Ok(())
}

/// Checks the remembered state of every display, in the order of their names.
pub fn validate_display_entries(displays: &TextMap<DisplayUiConfig>) -> (result: Result<
    (),
    ConfigError,
>)
    ensures
        match entries_problem(displays.keys(), displays@) {
            None => result is Ok,
            Some(message) => result matches Err(ConfigError::InvalidValue(text)) && text@
                == message,
        },
{
    let count: usize = displays.len();
    let ghost keys = displays.keys();
    let mut i: usize = 0;
    while i < count
        invariant
            i <= count,
            count == keys.len(),
            keys == displays.keys(),
            entries_problem(keys.take(i as int), displays@) is None,
        decreases count - i,
    {
        proof {
            assert(keys.take(i + 1).drop_last() =~= keys.take(i as int));
        }
        match validate_display_entry(displays.key_at(i).as_str(), displays.value_at(i)) {
            Ok(()) => {},
            Err(error) => {
                proof {
                    lemma_problem_stays(keys, displays@, i + 1);
                }
                return Err(error);
            },
        }
        i += 1;
    }
    proof {
        assert(keys.take(i as int) =~= keys);
    }
    Ok(())
}

/// Whether a queue may have this capacity.
pub open spec fn capacity_in_range(capacity: usize) -> bool {
    1 <= capacity <= 1_024
}

/// Checks the capacity of a queue.
pub fn validate_capacity(name: &str, capacity: usize) -> (result: Result<(), ConfigError>)
    ensures
        result is Ok <==> capacity_in_range(capacity),
        result matches Err(error) ==> error matches ConfigError::InvalidValue(text) && text@ == name@
            + " must be between 1 and 1024"@,
{
    if capacity == 0 || capacity > 1_024 {
        let mut text = name.to_owned();
        text.append(" must be between 1 and 1024");
        return Err(ConfigError::InvalidValue(text));
    }
    Ok(())
}

/// Whether a text names a display policy: one of three words, or a display by its own name.
pub open spec fn names_display_policy(text: Seq<char>) -> bool {
    ||| text == "primary"@
    ||| text == "pointer"@
    ||| text == "virtual_desktop"@
    ||| starts_with(text, "display:"@) && !is_blank(text.skip("display:"@.len() as int))
}

/// A whole configuration.
#[derive(Clone, Debug)]
pub struct AppConfig {
    pub schema_version: u32,
    pub daemon: DaemonConfig,
    pub hotkey: HotkeyConfig,
    pub capture: CaptureConfig,
    pub selection: SelectionConfig,
    pub clipboard: ClipboardConfig,
    pub output: OutputConfig,
    pub metrics: MetricsConfig,
    pub logging: LoggingConfig,
    pub history: HistoryConfig,
    pub ui: UiConfig,
}

/// What makes a configuration unusable.
pub enum Problem {
    UnsupportedSchema(u32),
    InvalidValue(Seq<char>),
}

/// Whether a result reports a problem, or success where there is none.
pub open spec fn reports(result: Result<(), ConfigError>, problem: Option<Problem>) -> bool {
    match problem {
        None => result is Ok,
        Some(Problem::UnsupportedSchema(version)) => result == Err::<(), ConfigError>(
            ConfigError::UnsupportedSchema(version),
        ),
        Some(Problem::InvalidValue(message)) => result matches Err(ConfigError::InvalidValue(text))
            && text@ == message,
    }
}

impl AppConfig {
    /// What makes the configuration unusable: the first rule that it breaks.
    pub open spec fn problem(self, directory_is_absolute: bool) -> Option<Problem> {
        if self.schema_version != CONFIG_SCHEMA_VERSION {
            Some(Problem::UnsupportedSchema(self.schema_version))
        } else {
            match self.value_problem(directory_is_absolute) {
                Some(message) => Some(Problem::InvalidValue(message)),
                None => None,
            }
        }
    }

    /// The first rule on a value that the configuration breaks.
    pub open spec fn value_problem(self, directory_is_absolute: bool) -> Option<Seq<char>> {
        if !capacity_in_range(self.daemon.trigger_queue_capacity) {
            Some("daemon.trigger_queue_capacity"@ + " must be between 1 and 1024"@)
        } else if !names_display_policy(self.daemon.display@) {
            Some(
                "daemon.display must be pointer, primary, virtual_desktop, or display:<persistent-id>"@,
            )
        } else if !capacity_in_range(self.selection.queue_capacity) {
            Some("selection.queue_capacity"@ + " must be between 1 and 1024"@)
        } else if !capacity_in_range(self.clipboard.queue_capacity) {
            Some("clipboard.queue_capacity"@ + " must be between 1 and 1024"@)
        } else if !capacity_in_range(self.output.queue_capacity) {
            Some("output.queue_capacity"@ + " must be between 1 and 1024"@)
        } else if self.output.directory is Some && self.output.directory->Some_0@.len() == 0 {
            Some("output.directory must not be empty"@)
        } else if self.output.directory is Some && !directory_is_absolute {
            Some(
                "output.directory must be an absolute path, got "@ + self.output.directory->Some_0@,
            )
        } else if self.output.format@ != "png"@ {
            Some("output.format must be png"@)
        } else if template_fault(self.output.filename_template@) is Some {
            template_fault(self.output.filename_template@)
        } else if !(1 <= self.metrics.ring_capacity <= 10_000_000) {
            Some("metrics.ring_capacity must be between 1 and 10000000"@)
        } else if !(1 <= self.capture.fake_width <= 16_384 && 1 <= self.capture.fake_height
            <= 16_384) {
            Some("fake frame dimensions must be between 1 and 16384"@)
        } else if self.capture.buffer_slots != 3 {
            Some(
                "capture.buffer_slots: the CPU readback pool is currently fixed at three slots; remove the override"@,
            )
        } else if self.capture.mode@ != "fresh"@ && self.capture.mode@ != "latest"@ {
            Some("capture.mode must be fresh or latest"@)
        } else if self.capture.cursor@ != "include"@ && self.capture.cursor@ != "exclude"@ {
            Some("capture.cursor must be include or exclude"@)
        } else if self.hotkey.repeat@ != "ignore"@ && self.hotkey.repeat@ != "coalesce"@ {
            Some("hotkey.repeat must be ignore or coalesce"@)
        } else if self.hotkey.repeat@ == "coalesce"@ {
            Some(
                "hotkey.repeat: coalesce is not implemented yet (roadmap milestone 4); hotkey.repeat must be ignore or coalesce, but only ignore is currently supported"@,
            )
        } else if self.hotkey.resolved() is Err {
            Some(self.hotkey.resolved()->Err_0)
        } else if self.logging.format@ != "compact"@ && self.logging.format@ != "json"@ {
            Some("logging.format must be compact or json"@)
        } else if !names_log_level(self.logging.level@) {
            Some("logging.level must be off, error, warn, info, debug, or trace"@)
        } else if self.logging.file is Some && self.logging.file->Some_0@.len() == 0 {
            Some("logging.file must not be empty"@)
        } else if !(1_024 <= self.logging.max_file_bytes <= 1_073_741_824) {
            Some("logging.max_file_bytes must be between 1024 and 1073741824"@)
        } else if self.history.max_items > 10_000 {
            Some("history.max_items must be 10000 or fewer"@)
        } else if self.history.max_age_days > 3_650 {
            Some("history.max_age_days must be 3650 or fewer"@)
        } else if !(1 <= self.logging.retained_files <= 20) {
            Some("logging.retained_files must be between 1 and 20"@)
        } else if self.ui.overlay_x is Some != self.ui.overlay_y is Some {
            Some("ui.overlay_x and ui.overlay_y must either both be set or both be omitted"@)
        } else if self.ui.last_region is Some && self.ui.last_region->Some_0.empty() {
            Some("ui.last_region width and height must be greater than zero"@)
        } else {
            entries_problem(self.ui.displays.keys(), self.ui.displays@)
        }
    }

    /// Checks every rule. `directory_is_absolute` says whether the host takes the output
    /// directory for an absolute path.
    pub fn validate_on(&self, directory_is_absolute: bool) -> (result: Result<(), ConfigError>)
        ensures
            reports(result, self.problem(directory_is_absolute)),
    {
        if self.schema_version != CONFIG_SCHEMA_VERSION {
            return Err(ConfigError::UnsupportedSchema(self.schema_version));
        }
        match validate_capacity(
            "daemon.trigger_queue_capacity",
            self.daemon.trigger_queue_capacity,
        ) {
            Err(error) => {
                return Err(error);
            },
            Ok(()) => {},
        }
        if !is_display_policy(self.daemon.display.as_str()) {
            return invalid(
                "daemon.display must be pointer, primary, virtual_desktop, or display:<persistent-id>",
            );
        }
        match validate_capacity("selection.queue_capacity", self.selection.queue_capacity) {
            Err(error) => {
                return Err(error);
            },
            Ok(()) => {},
        }
        match validate_capacity("clipboard.queue_capacity", self.clipboard.queue_capacity) {
            Err(error) => {
                return Err(error);
            },
            Ok(()) => {},
        }
        match validate_capacity("output.queue_capacity", self.output.queue_capacity) {
            Err(error) => {
                return Err(error);
            },
            Ok(()) => {},
        }
        if let Some(directory) = &self.output.directory {
            if directory.as_str().is_empty() {
                return invalid("output.directory must not be empty");
            }
            if !directory_is_absolute {
                let mut text = "output.directory must be an absolute path, got ".to_owned();
                text.append(directory.as_str());
                return Err(ConfigError::InvalidValue(text));
            }
        }
        if !same(self.output.format.as_str(), "png") {
            return invalid("output.format must be png");
        }
        match validate_template(self.output.filename_template.as_str()) {
            Err(text) => {
                return Err(ConfigError::InvalidValue(text));
            },
            Ok(()) => {},
        }
        if self.metrics.ring_capacity == 0 || self.metrics.ring_capacity > 10_000_000 {
            return invalid("metrics.ring_capacity must be between 1 and 10000000");
        }
        if self.capture.fake_width == 0 || self.capture.fake_height == 0
            || self.capture.fake_width > 16_384 || self.capture.fake_height > 16_384 {
            return invalid("fake frame dimensions must be between 1 and 16384");
        }
        if self.capture.buffer_slots != 3 {
            return invalid(
                "capture.buffer_slots: the CPU readback pool is currently fixed at three slots; remove the override",
            );
        }
        if !same(self.capture.mode.as_str(), "fresh") && !same(
            self.capture.mode.as_str(),
            "latest",
        ) {
            return invalid("capture.mode must be fresh or latest");
        }
        if !same(self.capture.cursor.as_str(), "include") && !same(
            self.capture.cursor.as_str(),
            "exclude",
        ) {
            return invalid("capture.cursor must be include or exclude");
        }
        if !same(self.hotkey.repeat.as_str(), "ignore") && !same(
            self.hotkey.repeat.as_str(),
            "coalesce",
        ) {
            return invalid("hotkey.repeat must be ignore or coalesce");
        }
        if same(self.hotkey.repeat.as_str(), "coalesce") {
            return invalid(
                "hotkey.repeat: coalesce is not implemented yet (roadmap milestone 4); hotkey.repeat must be ignore or coalesce, but only ignore is currently supported",
            );
        }
        match self.hotkey.resolved_bindings() {
            Err(error) => {
                return Err(error);
            },
            Ok(_) => {},
        }
        if !same(self.logging.format.as_str(), "compact") && !same(
            self.logging.format.as_str(),
            "json",
        ) {
            return invalid("logging.format must be compact or json");
        }
        if !is_log_level(self.logging.level.as_str()) {
            return invalid("logging.level must be off, error, warn, info, debug, or trace");
        }
        if let Some(file) = &self.logging.file {
            if file.as_str().is_empty() {
                return invalid("logging.file must not be empty");
            }
        }
        if self.logging.max_file_bytes < 1_024 || self.logging.max_file_bytes > 1_073_741_824 {
            return invalid("logging.max_file_bytes must be between 1024 and 1073741824");
        }
        if self.history.max_items > 10_000 {
            return invalid("history.max_items must be 10000 or fewer");
        }
        if self.history.max_age_days > 3_650 {
            return invalid("history.max_age_days must be 3650 or fewer");
        }
        if self.logging.retained_files < 1 || self.logging.retained_files > 20 {
            return invalid("logging.retained_files must be between 1 and 20");
        }
        if self.ui.overlay_x.is_some() != self.ui.overlay_y.is_some() {
            return invalid(
                "ui.overlay_x and ui.overlay_y must either both be set or both be omitted",
            );
        }
        if let Some(region) = &self.ui.last_region {
            if region.is_empty() {
                return invalid("ui.last_region width and height must be greater than zero");
            }
        }
        validate_display_entries(&self.ui.displays)
    }

    /// Checks every rule, asking the host whether the output directory is an absolute path.
    pub fn validate(&self) -> (result: Result<(), ConfigError>)
        ensures
            reports(result, self.problem(true)) || reports(result, self.problem(false)),
            self.output.directory is None ==> reports(result, self.problem(true)),
            self.output.directory is Some && !can_be_absolute(self.output.directory->Some_0@)
                ==> reports(result, self.problem(false)),
    {
        let directory_is_absolute = match &self.output.directory {
            Some(directory) => path_is_absolute(directory.as_str()),
            None => true,
        };
        self.validate_on(directory_is_absolute)
    }
}

/// Whether a text is an absolute path on one system or another: it holds a separator, and either
/// starts with one or names a drive.
pub open spec fn can_be_absolute(path: Seq<char>) -> bool {
    &&& path.contains('/') || path.contains('\\')
    &&& path[0] == '/' || path[0] == '\\' || path.len() > 1 && path[1] == ':'
}

/// `std::path::Path::is_absolute`. What counts as absolute depends on the host: a path that starts
/// with the root on Unix, one that has a drive or a share before the root on Windows. Either way
/// there is a root, and so a separator, with nothing before it but a drive or a share; which such
/// paths are absolute is left open.
#[verifier::external_body]
pub(crate) fn path_is_absolute(path: &str) -> (absolute: bool)
    ensures
        absolute ==> can_be_absolute(path@),
{
    std::path::Path::new(path).is_absolute()
}

/// An error about a value.
fn invalid(message: &str) -> (result: Result<(), ConfigError>)
    ensures
        result matches Err(ConfigError::InvalidValue(text)) && text@ == message@,
{
    Err(ConfigError::InvalidValue(message.to_owned()))
}

/// Whether a text names a display policy.
fn is_display_policy(text: &str) -> (yes: bool)
    ensures
        yes == names_display_policy(text@),
{
    if same(text, "primary") || same(text, "pointer") || same(text, "virtual_desktop") {
        return true;
    }
    match strip_prefix(text, "display:") {
        Some(id) => !trim(id.as_str()).as_str().is_empty(),
        None => false,
    }
}

/// Whether a text names a log level.
pub open spec fn names_log_level(text: Seq<char>) -> bool {
    text == "off"@ || text == "error"@ || text == "warn"@ || text == "info"@ || text == "debug"@
        || text == "trace"@
}

/// Whether a text names a log level.
fn is_log_level(text: &str) -> (yes: bool)
    ensures
        yes == names_log_level(text@),
{
    same(text, "off") || same(text, "error") || same(text, "warn") || same(text, "info") || same(
        text,
        "debug",
    ) || same(text, "trace")
}

/// The chord of the default binding.
spec fn default_chord() -> HotkeyChord {
    HotkeyChord::made(
        HotkeyModifiers::none().with(Modifier::Ctrl).with(Modifier::Shift),
        HotkeyKey::Function(9),
    )
}

/// The text of the default binding spells a chord.
proof fn lemma_default_chord()
    ensures
        chord_of("Ctrl+Shift+F9"@) == Ok::<HotkeyChord, HotkeyFault>(default_chord()),
{
    broadcast use lemma_modifiers_of;

    let chord = default_chord();
    let modifiers = HotkeyModifiers::none().with(Modifier::Ctrl).with(Modifier::Shift);
    lemma_made(modifiers, HotkeyKey::Function(9));
    law_chord_text_reads_back(chord);
    let key = HotkeyKey::Function(9).text();
    assert(key =~= seq!['F', '9']);
    reveal_with_fuel(join, 4);
    reveal_strlit("Ctrl");
    reveal_strlit("Shift");
    reveal_strlit("Ctrl+Shift+F9");
    assert(chord.text() =~= "Ctrl+Shift+F9"@);
}

impl AppConfig {
    /// Whether this is the configuration of a user who wrote none.
    pub open spec fn is_default(self) -> bool {
        &&& self.schema_version == CONFIG_SCHEMA_VERSION
        &&& self.daemon.backend@ == "dxgi"@
        &&& self.daemon.display@ == "pointer"@
        &&& self.daemon.trigger_queue_capacity == 4
        &&& self.hotkey.binding is None
        &&& self.hotkey.repeat@ == "ignore"@
        &&& self.hotkey.bindings.bound(HotkeyAction::LastWorkflow) == Some("Ctrl+Shift+F9"@)
        &&& forall|action: HotkeyAction|
            action != HotkeyAction::LastWorkflow ==> #[trigger] self.hotkey.bindings.bound(
                action,
            ) is None
        &&& self.capture.mode@ == "latest"@
        &&& self.capture.fresh_timeout_ms == 100
        &&& self.capture.max_frame_age_ms == 0
        &&& self.capture.cpu_frame
        &&& self.capture.cursor@ == "exclude"@
        &&& self.capture.buffer_slots == 3
        &&& self.capture.fake_width == 64
        &&& self.capture.fake_height == 64
        &&& self.capture.fake_native_delay_us == 250
        &&& self.capture.fake_readback_delay_us == 250
        &&& self.capture.fake_frame_age_us == 1_000
        &&& self.selection == (SelectionConfig {
            enabled: true,
            queue_capacity: 1,
            preview: PreviewMode::Auto,
        })
        &&& self.clipboard == (ClipboardConfig {
            enabled: true,
            queue_capacity: 1,
            allow_history: false,
            allow_cloud_sync: false,
        })
        &&& !self.output.enabled
        &&& self.output.format@ == "png"@
        &&& self.output.queue_capacity == 2
        &&& self.output.directory is None
        &&& self.output.filename_template@ == "captastic-{timestamp}"@
        &&& self.metrics == (MetricsConfig {
            enabled: true,
            ring_capacity: 10_000,
            raw_events: false,
        })
        &&& self.logging.level@ == "info"@
        &&& self.logging.format@ == "compact"@
        &&& self.logging.file is None
        &&& self.logging.max_file_bytes == 5 * 1_024 * 1_024
        &&& self.logging.retained_files == 3
        &&& self.history == (HistoryConfig { max_items: 50, max_age_days: 30, max_total_bytes: 0 })
        &&& self.ui.overlay_x is None
        &&& self.ui.overlay_y is None
        &&& self.ui.last_capture_tool is None
        &&& self.ui.last_region is None
        &&& self.ui.displays@ == Map::<Seq<char>, DisplayUiConfig>::empty()
    }
}

impl Default for AppConfig {
    fn default() -> (config: Self)
        ensures
            config.is_default(),
            forall|directory_is_absolute: bool| #[trigger] config.problem(directory_is_absolute) is None,
    {
        let config = AppConfig {
            schema_version: CONFIG_SCHEMA_VERSION,
            daemon: DaemonConfig::default(),
            hotkey: HotkeyConfig::default(),
            capture: CaptureConfig::default(),
            selection: SelectionConfig::default(),
            clipboard: ClipboardConfig::default(),
            output: OutputConfig::default(),
            metrics: MetricsConfig::default(),
            logging: LoggingConfig::default(),
            history: HistoryConfig::default(),
            ui: UiConfig::default(),
        };
        proof {
            lemma_default_template(arbitrary());
            lemma_default_chord();
            let hotkey = config.hotkey;
            let all = HotkeyAction::all();
            assert(all.take(4).drop_last() =~= all.take(3));
            assert(all.take(3).drop_last() =~= all.take(2));
            assert(all.take(2).drop_last() =~= all.take(1));
            assert(all.take(1).drop_last() =~= Seq::<HotkeyAction>::empty());
            let none = Seq::<HotkeyAction>::empty();
            assert(hotkey.bindings_for(none) == Ok::<Seq<HotkeyBinding>, Seq<char>>(Seq::empty()));
            assert(hotkey.bindings_for(all.take(1)) is Ok);
            assert(hotkey.bindings_for(all.take(2)) is Ok);
            assert(hotkey.bindings_for(all.take(3)) is Ok);
            assert(hotkey.bindings_for(all.take(4)) is Ok);
            reveal_strlit("ignore");
            reveal_strlit("coalesce");
            assert("ignore"@.len() != "coalesce"@.len());
        }
        config
    }
}

/// What the recovery of a damaged configuration did.
#[derive(Debug, Eq, PartialEq)]
pub struct ConfigRecovery {
    pub original_path: String,
    pub quarantined_path: String,
    pub reason: String,
}

/// What reading the configuration file gave.
pub enum FileContents {
    Bytes(Vec<u8>),
    Missing,
    Failed { path: String, source: String },
}

/// What to do next while loading a configuration.
pub enum LoadStep {
    /// There is no file: the defaults stand.
    UseDefaults,
    /// The file cannot be read.
    Fail(ConfigError),
    /// The file is damaged: it is moved aside, and the defaults stand.
    Quarantine { reason: String },
    /// The file holds well-formed text, which is to be parsed strictly.
    Parse(String),
}

/// How `String::from_utf8` explains bytes that are not UTF-8.
pub uninterp spec fn utf8_fault(bytes: Seq<u8>) -> Seq<char>;

/// `String::from_utf8`: the text that the bytes encode, or why they encode none.
#[verifier::external_body]
fn decode(bytes: Vec<u8>) -> (result: Result<String, String>)
    ensures
        match result {
            Ok(text) => valid_utf8(bytes@) && text@ == decode_utf8(bytes@),
            Err(message) => !valid_utf8(bytes@) && message@ == utf8_fault(bytes@),
        },
{
    String::from_utf8(bytes).map_err(|error| error.to_string())
}

/// Decides how to go on with what was read. Only text that is not TOML at all counts as damaged:
/// a file that is well formed but means something else stays where it is.
pub fn begin_load(contents: FileContents) -> (step: LoadStep)
    ensures
        match contents {
            FileContents::Missing => step == LoadStep::UseDefaults,
            FileContents::Failed { path, source } => step == LoadStep::Fail(
                ConfigError::Read { path, source },
            ),
            FileContents::Bytes(bytes) => if !valid_utf8(bytes@) {
                step matches LoadStep::Quarantine { reason } && reason@ == utf8_fault(bytes@)
            } else {
                match toml_document(decode_utf8(bytes@)) {
                    Err(fault) => step matches LoadStep::Quarantine { reason } && reason@ == fault,
                    Ok(_) => step matches LoadStep::Parse(text) && text@ == decode_utf8(bytes@),
                }
            },
        },
{
    match contents {
        FileContents::Missing => LoadStep::UseDefaults,
        FileContents::Failed { path, source } => LoadStep::Fail(ConfigError::Read { path, source }),
        FileContents::Bytes(bytes) => match decode(bytes) {
            Err(reason) => LoadStep::Quarantine { reason },
            Ok(text) => match parse_document(text.as_str()) {
                Err(reason) => LoadStep::Quarantine { reason },
                Ok(_) => LoadStep::Parse(text),
            },
        },
    }
}

/// Refuses a schema other than the current one. A file that names none is taken to mean it.
pub fn check_schema_version(declared: Option<u32>) -> (result: Result<(), ConfigError>)
    ensures
        result == match declared {
            Some(version) => if version == CONFIG_SCHEMA_VERSION {
                Ok::<(), ConfigError>(())
            } else {
                Err(ConfigError::UnsupportedSchema(version))
            },
            None => Ok(()),
        },
{
    match declared {
        Some(version) => {
            if version != CONFIG_SCHEMA_VERSION {
                Err(ConfigError::UnsupportedSchema(version))
            } else {
                Ok(())
            }
        },
        None => Ok(()),
    }
}

/// What a quarantine leaves to report: nothing where the damaged file had gone by itself.
pub fn recovered(original_path: String, quarantined_path: Option<String>, reason: String) -> (
    recovery: Option<ConfigRecovery>)
    ensures
        recovery == match quarantined_path {
            Some(quarantined_path) => Some(
                ConfigRecovery { original_path, quarantined_path, reason },
            ),
            None => None,
        },
{
    match quarantined_path {
        Some(quarantined_path) => Some(ConfigRecovery { original_path, quarantined_path, reason }),
        None => None,
    }
}

/// What loading a file that need not exist comes to: the defaults where it is missing.
pub fn optional_load(loaded: Result<AppConfig, ConfigError>, missing: bool) -> (result: Result<
    AppConfig,
    ConfigError,
>)
    ensures
        match loaded {
            Ok(config) => result == Ok::<AppConfig, ConfigError>(config),
            Err(error) => if missing && error is Read {
                result matches Ok(config) && config.is_default()
            } else {
                result == Err::<AppConfig, ConfigError>(error)
            },
        },
{
    match loaded {
        Ok(config) => Ok(config),
        Err(error) => {
            if missing {
                match error {
                    ConfigError::Read { .. } => {
                        return Ok(AppConfig::default());
                    },
                    _ => {},
                }
            }
            Err(error)
        },
    }
}

/// Which path an editor is opened on: the configured one, unless it is the default one and does
/// not exist yet, in which case it has to be written first.
pub fn needs_default_config(exists: bool, path: &FilePath, default_path: Option<&FilePath>) -> (
    yes: bool)
    ensures
        yes == (!exists && default_path is Some && default_path->Some_0@ == path@),
{
    match default_path {
        Some(default_path) => !exists && default_path.same(path),
        None => false,
    }
}

/// What is remembered of a display can be kept exactly where its name says something, each pair of
/// values is complete, the toolbar's place is within the display, a region has an area and its geometry
/// one too and a rotation by quarters, and a confirmed region fits its geometry.
pub proof fn law_what_can_be_remembered_of_a_display(id: Seq<char>, entry: DisplayUiConfig)
    ensures
        entry_problem(id, entry) is None <==> {
            &&& !is_blank(id)
            &&& entry.overlay_x is Some <==> entry.overlay_y is Some
            &&& entry.overlay_center_x is Some <==> entry.overlay_center_y is Some
            &&& entry.overlay_center_x matches Some(x) ==> x.normalized()
            &&& entry.overlay_center_y matches Some(y) ==> y.normalized()
            &&& entry.last_region matches Some(region) ==> region.width > 0 && region.height > 0
            &&& entry.last_region_source matches Some(source) ==> entry.last_region is Some
                && source.width > 0 && source.height > 0 && source.rotation_degrees % 90 == 0
                && source.rotation_degrees < 360
            &&& entry.last_confirmed_region is Some <==> entry.last_confirmed_region_source is Some
            &&& entry.last_confirmed_region matches Some(region) ==> {
                let source = entry.last_confirmed_region_source->Some_0;
                &&& region.width > 0 && region.height > 0 && 0 <= region.x && 0 <= region.y
                &&& region.x + region.width <= source.width
                &&& region.y + region.height <= source.height
                &&& source.rotation_degrees % 90 == 0 && source.rotation_degrees < 360
            }
        },
{
    if entry.last_region_source is Some && entry.last_region is Some {
        law_what_regions_and_geometries_are(
            entry.last_region->Some_0,
            entry.last_region_source->Some_0,
        );
    }
    if entry.last_confirmed_region is Some && entry.last_confirmed_region_source is Some {
        law_what_regions_and_geometries_are(
            entry.last_confirmed_region->Some_0,
            entry.last_confirmed_region_source->Some_0,
        );
    }
}

/// A configuration of this version can be used exactly where each of its values can: the queues hold
/// from 1 to 1024, the display is one that can be named, captures have a format, a name and an absolute
/// directory where one is named, the sizes and counts are within their bounds, the words are among
/// those that are known, no two keys are the same, and what it remembers of displays can be
/// remembered. One of another version cannot.
pub proof fn law_a_configuration_is_valid_where_each_value_is(
    config: AppConfig,
    directory_is_absolute: bool,
)
    ensures
        config.problem(directory_is_absolute) is None <==> {
            &&& config.schema_version == 1
            &&& 1 <= config.daemon.trigger_queue_capacity <= 1024
            &&& names_display_policy(config.daemon.display@)
            &&& 1 <= config.selection.queue_capacity <= 1024
            &&& 1 <= config.clipboard.queue_capacity <= 1024
            &&& 1 <= config.output.queue_capacity <= 1024
            &&& config.output.directory matches Some(directory) ==> directory@.len() > 0
                && directory_is_absolute
            &&& config.output.format@ == "png"@
            &&& template_fault(config.output.filename_template@) is None
            &&& 1 <= config.metrics.ring_capacity <= 10_000_000
            &&& 1 <= config.capture.fake_width <= 16_384
            &&& 1 <= config.capture.fake_height <= 16_384
            &&& config.capture.buffer_slots == 3
            &&& config.capture.mode@ == "fresh"@ || config.capture.mode@ == "latest"@
            &&& config.capture.cursor@ == "include"@ || config.capture.cursor@ == "exclude"@
            &&& config.hotkey.repeat@ == "ignore"@
            &&& config.hotkey.resolved() is Ok
            &&& config.logging.format@ == "compact"@ || config.logging.format@ == "json"@
            &&& config.logging.level@ == "off"@ || config.logging.level@ == "error"@
                || config.logging.level@ == "warn"@ || config.logging.level@ == "info"@
                || config.logging.level@ == "debug"@ || config.logging.level@ == "trace"@
            &&& config.logging.file matches Some(file) ==> file@.len() > 0
            &&& 1_024 <= config.logging.max_file_bytes <= 1_073_741_824
            &&& 1 <= config.logging.retained_files <= 20
            &&& config.history.max_items <= 10_000
            &&& config.history.max_age_days <= 3_650
            &&& config.ui.overlay_x is Some <==> config.ui.overlay_y is Some
            &&& config.ui.last_region matches Some(region) ==> region.width > 0 && region.height > 0
            &&& forall|id: Seq<char>| #[trigger]
                config.ui.displays.keys().contains(id) ==> entry_problem(
                    id,
                    config.ui.displays@[id],
                ) is None
        },
        config.schema_version != 1 ==> config.problem(directory_is_absolute) == Some(
            Problem::UnsupportedSchema(config.schema_version),
        ),
{
    lemma_entries_problem(config.ui.displays.keys(), config.ui.displays@);
    reveal_strlit("ignore");
    reveal_strlit("coalesce");
    assert("ignore"@.len() == 6 && "coalesce"@.len() == 8);
}

/// A display can be chosen by the pointer, as the primary one, as all of them, or by a name that says
/// something behind `display:`, and in no other way.
pub proof fn law_a_display_is_chosen_in_four_ways(text: Seq<char>)
    ensures
        names_display_policy(text) <==> {
            ||| text == "pointer"@
            ||| text == "primary"@
            ||| text == "virtual_desktop"@
            ||| exists|id: Seq<char>| text == #[trigger] ("display:"@ + id) && !is_blank(id)
        },
{
    let n = "display:"@.len() as int;
    if starts_with(text, "display:"@) {
        let id = text.skip(n);
        assert(text =~= "display:"@ + id);
        if !is_blank(id) {
            assert(text == "display:"@ + id);
        }
    }
    if exists|id: Seq<char>| text == #[trigger] ("display:"@ + id) && !is_blank(id) {
        let id = choose|id: Seq<char>| text == #[trigger] ("display:"@ + id) && !is_blank(id);
        assert(text.take(n) =~= "display:"@);
        assert(text.skip(n) =~= id);
    }
}

/// Each action is bound by the setting of its own name, the last workflow also by the older one where
/// its own is not set.
pub proof fn law_actions_are_bound_by_their_own_settings(config: HotkeyConfig)
    ensures
        config.bindings.region matches Some(text) ==> config.bound(HotkeyAction::Region) == Some(text@),
        config.bindings.region is None ==> config.bound(HotkeyAction::Region) is None,
        config.bindings.window matches Some(text) ==> config.bound(HotkeyAction::Window) == Some(text@),
        config.bindings.window is None ==> config.bound(HotkeyAction::Window) is None,
        config.bindings.full_display matches Some(text) ==> config.bound(HotkeyAction::FullDisplay)
            == Some(text@),
        config.bindings.full_display is None ==> config.bound(HotkeyAction::FullDisplay) is None,
        config.bindings.repeat_last_region matches Some(text) ==> config.bound(
            HotkeyAction::RepeatLastRegion,
        ) == Some(text@),
        config.bindings.repeat_last_region is None ==> config.bound(
            HotkeyAction::RepeatLastRegion,
        ) is None,
        config.bindings.last_workflow matches Some(text) ==> config.bound(HotkeyAction::LastWorkflow)
            == Some(text@),
        config.bindings.last_workflow is None ==> config.bound(HotkeyAction::LastWorkflow) == (
        match config.binding {
            Some(text) => Some(text@),
            None => None,
        }),
{
}

/// Where the bindings can be resolved, every action that is bound has its chord, and only those have.
pub proof fn law_every_bound_action_has_its_chord(config: HotkeyConfig, action: HotkeyAction)
    requires
        config.resolved() is Ok,
    ensures
        (exists|i: int|
            0 <= i < config.resolved()->Ok_0.len() && (
            #[trigger] config.resolved()->Ok_0[i]).action == action) <==> config.bound(action) is Some,
        forall|i: int|
            0 <= i < config.resolved()->Ok_0.len() && (
            #[trigger] config.resolved()->Ok_0[i]).action == action ==> chord_of(
                config.bound(action)->Some_0,
            ) == Ok::<HotkeyChord, HotkeyFault>(config.resolved()->Ok_0[i].chord),
        config.binding is None || config.bindings.last_workflow is None,
{
    law_resolved_bindings_are_distinct(config);
    let all = HotkeyAction::all();
    assert(all[0] == HotkeyAction::LastWorkflow && all[1] == HotkeyAction::Region && all[2]
        == HotkeyAction::Window && all[3] == HotkeyAction::FullDisplay && all[4]
        == HotkeyAction::RepeatLastRegion);
    assert(all.contains(action));
    if config.bound(action) is Some {
        lemma_bound_actions_are_there(config, all, action);
    }
    assert forall|i: int|
        0 <= i < config.resolved()->Ok_0.len() && (
        #[trigger] config.resolved()->Ok_0[i]).action == action implies chord_of(
        config.bound(action)->Some_0,
    ) == Ok::<HotkeyChord, HotkeyFault>(config.resolved()->Ok_0[i].chord) by {}
}

/// An action that is bound is among the bindings.
proof fn lemma_bound_actions_are_there(
    config: HotkeyConfig,
    actions: Seq<HotkeyAction>,
    action: HotkeyAction,
)
    requires
        config.bindings_for(actions) is Ok,
        actions.contains(action),
        config.bound(action) is Some,
    ensures
        exists|i: int|
            0 <= i < config.bindings_for(actions)->Ok_0.len() && (
            #[trigger] config.bindings_for(actions)->Ok_0[i]).action == action,
    decreases actions.len(),
{
    let front = actions.drop_last();
    let before = config.bindings_for(front)->Ok_0;
    let after = config.bindings_for(actions)->Ok_0;
    if actions.last() == action {
        assert(after[after.len() - 1].action == action);
    } else {
        let k = choose|k: int| 0 <= k < actions.len() && actions[k] == action;
        assert(front[k] == action);
        lemma_bound_actions_are_there(config, front, action);
        let i = choose|i: int| 0 <= i < before.len() && (#[trigger] before[i]).action == action;
        assert(after[i].action == action);
    }
}

/// A path that could be absolute somewhere has a separator, and starts with one or names a drive.
pub proof fn law_what_could_be_an_absolute_path(path: Seq<char>)
    ensures
        can_be_absolute(path) ==> exists|i: int|
            0 <= i < path.len() && (#[trigger] path[i] == '/' || path[i] == '\\'),
        path.len() > 0 && (path[0] == '/' || path[0] == '\\') ==> can_be_absolute(path),
        path.len() > 2 && path[1] == ':' && (path[2] == '/' || path[2] == '\\') ==> can_be_absolute(
            path,
        ),
        path.len() > 1 && path[0] != '/' && path[0] != '\\' && path[1] != ':' ==> !can_be_absolute(
            path,
        ),
{
}

/// Out of the box captures follow the pointer, go to the clipboard and not to files, are taken by the
/// latest frame without the pointer in it, and the last fifty are remembered for thirty days.
pub proof fn law_what_a_configuration_starts_with(config: AppConfig)
    requires
        config.is_default(),
    ensures
        config.schema_version == 1,
        config.daemon.display@ == "pointer"@ && config.daemon.backend@ == "dxgi"@
            && config.daemon.trigger_queue_capacity == 4,
        config.capture.mode@ == "latest"@ && config.capture.cursor@ == "exclude"@
            && config.capture.cpu_frame && config.capture.max_frame_age_ms == 0
            && config.capture.fresh_timeout_ms == 100 && config.capture.buffer_slots == 3,
        config.capture.fake_width == 64 && config.capture.fake_height == 64
            && config.capture.fake_native_delay_us == 250 && config.capture.fake_readback_delay_us
            == 250 && config.capture.fake_frame_age_us == 1_000,
        config.clipboard.enabled && !config.clipboard.allow_history
            && !config.clipboard.allow_cloud_sync && config.clipboard.queue_capacity == 1,
        !config.output.enabled && config.output.directory is None && config.output.format@ == "png"@
            && config.output.filename_template@ == "captastic-{timestamp}"@
            && config.output.queue_capacity == 2,
        config.selection.enabled && config.selection.preview == PreviewMode::Auto
            && config.selection.queue_capacity == 1,
        config.metrics.enabled && config.metrics.ring_capacity == 10_000 && !config.metrics.raw_events,
        config.ui.overlay_x is None && config.ui.overlay_y is None && config.ui.last_capture_tool is None
            && config.ui.last_region is None && config.ui.displays@.dom() == Set::<
            Seq<char>,
        >::empty(),
        config.hotkey.repeat@ == "ignore"@,
        config.history.max_items == 50 && config.history.max_age_days == 30
            && config.history.max_total_bytes == 0,
        config.logging.level@ == "info"@ && config.logging.format@ == "compact"@
            && config.logging.file is None && config.logging.max_file_bytes == 5_242_880
            && config.logging.retained_files == 3,
        config.hotkey.bound(HotkeyAction::LastWorkflow) == Some("Ctrl+Shift+F9"@),
        config.hotkey.bound(HotkeyAction::Region) is None && config.hotkey.bound(
            HotkeyAction::Window,
        ) is None && config.hotkey.bound(HotkeyAction::FullDisplay) is None && config.hotkey.bound(
            HotkeyAction::RepeatLastRegion,
        ) is None,
{
}

/// A configuration without a problem is reported as such, and one with a problem with that problem.
pub proof fn law_problems_are_reported_as_what_they_are(
    result: Result<(), ConfigError>,
    problem: Option<Problem>,
)
    requires
        reports(result, problem),
    ensures
        result is Ok <==> problem is None,
        problem matches Some(Problem::UnsupportedSchema(version)) ==> result == Err::<(), ConfigError>(
            ConfigError::UnsupportedSchema(version),
        ),
        problem matches Some(Problem::InvalidValue(message)) ==> result matches Err(error)
            && error.text() == "invalid configuration: "@ + message,
{
}

} // verus!
