//! What is remembered of the overlay between runs, kept apart from the user's configuration.
use vstd::prelude::*;
use vstd::string::*;

use crate::config::{
    entries_problem, entry_problem, lemma_entries_problem, needs_default_config,
    validate_display_entries, UiConfig,
};
use crate::error::ConfigError;
use crate::path::{parts_of, FilePath, Part};
use crate::region::{
    CaptureRegion, CaptureRegionSource, CaptureTool, ConfirmedRegion, Coordinate, DisplayUiConfig,
    DisplayUiState,
};
use crate::table::TextMap;

verus! {

/// The name of the state file.
pub const STATE_FILE_NAME: &'static str = "state.toml";

/// The version of the state format.
pub const STATE_SCHEMA_VERSION: u32 = 1;

/// Everything that is remembered between runs.
#[derive(Clone, Debug)]
pub struct UiState {
    pub schema_version: u32,
    /// What is remembered for displays without an entry of their own.
    pub overlay_x: Option<i32>,
    pub overlay_y: Option<i32>,
    pub last_capture_tool: Option<CaptureTool>,
    pub last_region: Option<CaptureRegion>,
    pub displays: TextMap<DisplayUiConfig>,
}

impl Default for UiState {
    fn default() -> (state: Self)
        ensures
            state.schema_version == STATE_SCHEMA_VERSION,
            state.overlay_x is None,
            state.overlay_y is None,
            state.last_capture_tool is None,
            state.last_region is None,
            state.displays@ == Map::<Seq<char>, DisplayUiConfig>::empty(),
            state.displays.keys().len() == 0,
    {
        UiState {
            schema_version: STATE_SCHEMA_VERSION,
            overlay_x: None,
            overlay_y: None,
            last_capture_tool: None,
            last_region: None,
            displays: TextMap::new(),
        }
    }
}

/// Both values, where both are there.
pub open spec fn both<A, B>(a: Option<A>, b: Option<B>) -> Option<(A, B)> {
    match (a, b) {
        (Some(a), Some(b)) => Some((a, b)),
        _ => None,
    }
}

/// The region that the user confirmed last on a display.
pub open spec fn confirmed_in(entry: DisplayUiConfig) -> Option<ConfirmedRegion> {
    match (entry.last_confirmed_region, entry.last_confirmed_region_source) {
        (Some(region), Some(source)) => Some(ConfirmedRegion { region, source }),
        _ => None,
    }
}

/// What is remembered of a display, nothing where it has no entry.
pub open spec fn entry_of(displays: Map<Seq<char>, DisplayUiConfig>, id: Seq<char>) -> DisplayUiConfig {
    if displays.dom().contains(id) {
        displays[id]
    } else {
        DisplayUiConfig::blank()
    }
}

/// The regions that the user confirmed last, by display.
pub open spec fn confirmed_among(
    keys: Seq<Seq<char>>,
    displays: Map<Seq<char>, DisplayUiConfig>,
) -> Map<Seq<char>, ConfirmedRegion>
    decreases keys.len(),
{
    if keys.len() == 0 {
        Map::empty()
    } else {
        let before = confirmed_among(keys.drop_last(), displays);
        match confirmed_in(displays[keys.last()]) {
            Some(confirmed) => before.insert(keys.last(), confirmed),
            None => before,
        }
    }
}

/// An entry after the toolbar was moved. The centre takes the place of any position in pixels.
pub open spec fn with_center(
    entry: DisplayUiConfig,
    center_x: Coordinate,
    center_y: Coordinate,
) -> DisplayUiConfig {
    DisplayUiConfig {
        overlay_center_x: Some(center_x),
        overlay_center_y: Some(center_y),
        overlay_x: None,
        overlay_y: None,
        ..entry
    }
}

/// An entry after an interaction. A region takes its geometry with it, or none.
pub open spec fn with_interaction(
    entry: DisplayUiConfig,
    tool: CaptureTool,
    region: Option<CaptureRegion>,
    region_source: Option<CaptureRegionSource>,
) -> DisplayUiConfig {
    DisplayUiConfig {
        last_capture_tool: Some(tool),
        last_region: if region is Some {
            region
        } else {
            entry.last_region
        },
        last_region_source: if region is Some {
            region_source
        } else {
            entry.last_region_source
        },
        ..entry
    }
}

/// An entry after a region was confirmed.
pub open spec fn with_confirmed(
    entry: DisplayUiConfig,
    region: CaptureRegion,
    source: CaptureRegionSource,
) -> DisplayUiConfig {
    DisplayUiConfig {
        last_confirmed_region: Some(region),
        last_confirmed_region_source: Some(source),
        ..entry
    }
}

/// Whether every entry meets the rules.
pub open spec fn entries_hold(entries: Map<Seq<char>, DisplayUiConfig>) -> bool {
    forall|id: Seq<char>| #[trigger]
        entries.dom().contains(id) ==> entry_problem(id, entries[id]) is None
}

impl UiState {
    /// The `[ui]` section of a configuration, as the state to start from.
    pub fn from_config_section(ui: UiConfig) -> (state: Self)
        ensures
            state.schema_version == STATE_SCHEMA_VERSION,
            state.overlay_x == ui.overlay_x,
            state.overlay_y == ui.overlay_y,
            state.last_capture_tool == ui.last_capture_tool,
            state.last_region == ui.last_region,
            state.displays == ui.displays,
    {
        UiState {
            schema_version: STATE_SCHEMA_VERSION,
            overlay_x: ui.overlay_x,
            overlay_y: ui.overlay_y,
            last_capture_tool: ui.last_capture_tool,
            last_region: ui.last_region,
            displays: ui.displays,
        }
    }

    /// Whether nothing is remembered.
    pub fn is_empty(&self) -> (empty: bool)
        ensures
            empty == (self.overlay_x is None && self.overlay_y is None
                && self.last_capture_tool is None && self.last_region is None && self.displays@
                == Map::<Seq<char>, DisplayUiConfig>::empty()),
    {
        self.overlay_x.is_none() && self.overlay_y.is_none() && self.last_capture_tool.is_none()
            && self.last_region.is_none() && self.displays.is_empty()
    }

    /// The regions that the user confirmed last, by display.
    pub fn confirmed_regions(&self) -> (regions: TextMap<ConfirmedRegion>)
        ensures
            regions@ == confirmed_among(self.displays.keys(), self.displays@),
    {
        let count: usize = self.displays.len();
        let ghost keys = self.displays.keys();
        let mut regions: TextMap<ConfirmedRegion> = TextMap::new();
        let mut i: usize = 0;
        while i < count
            invariant
                i <= count,
                count == keys.len(),
                keys == self.displays.keys(),
                regions@ == confirmed_among(keys.take(i as int), self.displays@),
            decreases count - i,
        {
            proof {
                assert(keys.take(i + 1).drop_last() =~= keys.take(i as int));
            }
            let entry = *self.displays.value_at(i);
            if let (Some(region), Some(source)) = (
                entry.last_confirmed_region,
                entry.last_confirmed_region_source,
            ) {
                let _ = regions.insert(
                    self.displays.key_at(i).clone(),
                    ConfirmedRegion { region, source },
                );
            }
            i += 1;
        }
        proof {
            assert(keys.take(i as int) =~= keys);
        }
        regions
    }

    /// Whether only the entry of one display changed.
    pub open spec fn differs_only_in(self, before: UiState, id: Seq<char>, entry: DisplayUiConfig) -> bool {
        &&& self.schema_version == before.schema_version
        &&& self.overlay_x == before.overlay_x
        &&& self.overlay_y == before.overlay_y
        &&& self.last_capture_tool == before.last_capture_tool
        &&& self.last_region == before.last_region
        &&& self.displays@ == before.displays@.insert(id, entry)
    }

    /// The entry of a display, nothing remembered where it has none.
    fn display(&self, display_id: &str) -> (entry: DisplayUiConfig)
        ensures
            entry == entry_of(self.displays@, display_id@),
    {
        match self.displays.get(display_id) {
            Some(entry) => *entry,
            None => DisplayUiConfig::default(),
        }
    }

    /// Remembers where the toolbar's centre is on a display. It takes the place of any position in
    /// pixels, which may belong to a geometry that the display no longer has.
    pub fn set_overlay_center(
        &mut self,
        display_id: &str,
        center_x: Coordinate,
        center_y: Coordinate,
    )
        ensures
            final(self).differs_only_in(
                *old(self),
                display_id@,
                with_center(entry_of(old(self).displays@, display_id@), center_x, center_y),
            ),
    {
        let mut entry = self.display(display_id);
        entry.overlay_center_x = Some(center_x);
        entry.overlay_center_y = Some(center_y);
        entry.overlay_x = None;
        entry.overlay_y = None;
        let _ = self.displays.insert(display_id.to_owned(), entry);
    }

    /// Remembers the tool used last on a display, and the region with its geometry where there is
    /// one. A region without a geometry takes the place of both.
    pub fn set_interaction(
        &mut self,
        display_id: &str,
        tool: CaptureTool,
        region: Option<CaptureRegion>,
        region_source: Option<CaptureRegionSource>,
    )
        ensures
            final(self).differs_only_in(
                *old(self),
                display_id@,
                with_interaction(
                    entry_of(old(self).displays@, display_id@),
                    tool,
                    region,
                    region_source,
                ),
            ),
    {
        let mut entry = self.display(display_id);
        entry.last_capture_tool = Some(tool);
        if region.is_some() {
            entry.last_region = region;
            entry.last_region_source = region_source;
        }
        let _ = self.displays.insert(display_id.to_owned(), entry);
    }

    /// Remembers the region confirmed last on a display, with its geometry.
    pub fn set_confirmed_region(
        &mut self,
        display_id: &str,
        region: CaptureRegion,
        source: CaptureRegionSource,
    )
        ensures
            final(self).differs_only_in(
                *old(self),
                display_id@,
                with_confirmed(entry_of(old(self).displays@, display_id@), region, source),
            ),
    {
        let mut entry = self.display(display_id);
        entry.last_confirmed_region = Some(region);
        entry.last_confirmed_region_source = Some(source);
        let _ = self.displays.insert(display_id.to_owned(), entry);
    }
}

/// What a display restores: its own entry, and for what that leaves open the values for displays
/// without one.
pub open spec fn resolved_state(state: UiState, id: Seq<char>) -> DisplayUiState {
    let entry = entry_of(state.displays@, id);
    DisplayUiState {
        overlay_center: both(entry.overlay_center_x, entry.overlay_center_y),
        overlay_position: match both(entry.overlay_x, entry.overlay_y) {
            Some(position) => Some(position),
            None => both(state.overlay_x, state.overlay_y),
        },
        tool: match entry.last_capture_tool {
            Some(tool) => Some(tool),
            None => state.last_capture_tool,
        },
        region: match entry.last_region {
            Some(region) => Some(region),
            None => state.last_region,
        },
        region_source: entry.last_region_source,
        confirmed_region: confirmed_in(entry),
        region_is_display_local: entry.last_region is Some,
    }
}

/// What a display restores.
pub fn resolve_display_ui_state(state: &UiState, display_id: &str) -> (resolved: DisplayUiState)
    ensures
        resolved == resolved_state(*state, display_id@),
{
    let entry = state.display(display_id);
    DisplayUiState {
        overlay_center: match (entry.overlay_center_x, entry.overlay_center_y) {
            (Some(x), Some(y)) => Some((x, y)),
            _ => None,
        },
        overlay_position: match (entry.overlay_x, entry.overlay_y) {
            (Some(x), Some(y)) => Some((x, y)),
            _ => match (state.overlay_x, state.overlay_y) {
                (Some(x), Some(y)) => Some((x, y)),
                _ => None,
            },
        },
        tool: match entry.last_capture_tool {
            Some(tool) => Some(tool),
            None => state.last_capture_tool,
        },
        region: match entry.last_region {
            Some(region) => Some(region),
            None => state.last_region,
        },
        region_source: entry.last_region_source,
        confirmed_region: match (entry.last_confirmed_region, entry.last_confirmed_region_source) {
            (Some(region), Some(source)) => Some(ConfirmedRegion { region, source }),
            _ => None,
        },
        region_is_display_local: entry.last_region.is_some(),
    }
}

/// What is saved for one display leaves what every other display restores as it was.
pub proof fn law_saves_stay_on_their_display(
    before: UiState,
    after: UiState,
    id: Seq<char>,
    entry: DisplayUiConfig,
    other: Seq<char>,
)
    requires
        after.differs_only_in(before, id, entry),
        other != id,
    ensures
        resolved_state(after, other) == resolved_state(before, other),
{
}

/// What is saved for a display is what it restores.
pub proof fn law_saves_are_restored(
    before: UiState,
    after: UiState,
    id: Seq<char>,
    entry: DisplayUiConfig,
)
    requires
        after.differs_only_in(before, id, entry),
    ensures
        entry.overlay_center_x is Some && entry.overlay_center_y is Some ==> resolved_state(
            after,
            id,
        ).overlay_center == Some(
            (entry.overlay_center_x->Some_0, entry.overlay_center_y->Some_0),
        ),
        entry.last_capture_tool is Some ==> resolved_state(after, id).tool
            == entry.last_capture_tool,
        entry.last_region is Some ==> resolved_state(after, id).region == entry.last_region
            && resolved_state(after, id).region_source == entry.last_region_source
            && resolved_state(after, id).region_is_display_local,
        resolved_state(after, id).confirmed_region == confirmed_in(entry),
{
}

/// After an interaction is saved, its display restores exactly the tool that was used, whatever was
/// remembered before. A region that was drawn is restored with its geometry; where none was, the
/// region stays. Nothing else that the display restores changes, and nothing that another does.
pub proof fn law_the_last_interaction_counts(
    before: UiState,
    after: UiState,
    id: Seq<char>,
    tool: CaptureTool,
    region: Option<CaptureRegion>,
    region_source: Option<CaptureRegionSource>,
    other: Seq<char>,
)
    requires
        after.differs_only_in(
            before,
            id,
            with_interaction(entry_of(before.displays@, id), tool, region, region_source),
        ),
        other != id,
    ensures
        ({
            let (was, now) = (resolved_state(before, id), resolved_state(after, id));
            &&& now.tool == Some(tool)
            &&& region is Some ==> now.region == region && now.region_source == region_source
                && now.region_is_display_local
            &&& region is None ==> now.region == was.region && now.region_source == was.region_source
                && now.region_is_display_local == was.region_is_display_local
            &&& now.overlay_center == was.overlay_center
            &&& now.overlay_position == was.overlay_position
            &&& now.confirmed_region == was.confirmed_region
            &&& resolved_state(after, other) == resolved_state(before, other)
        }),
{
}

/// After the toolbar's place is saved, its display restores exactly that place, and no longer one in
/// pixels of its own. Nothing else that the display restores changes, and nothing that another does.
pub proof fn law_the_last_place_counts(
    before: UiState,
    after: UiState,
    id: Seq<char>,
    center_x: Coordinate,
    center_y: Coordinate,
    other: Seq<char>,
)
    requires
        after.differs_only_in(
            before,
            id,
            with_center(entry_of(before.displays@, id), center_x, center_y),
        ),
        other != id,
    ensures
        ({
            let (was, now) = (resolved_state(before, id), resolved_state(after, id));
            &&& now.overlay_center == Some((center_x, center_y))
            &&& now.overlay_position is Some ==> before.overlay_x == Some(now.overlay_position->Some_0.0)
                && before.overlay_y == Some(now.overlay_position->Some_0.1)
            &&& now.tool == was.tool
            &&& now.region == was.region
            &&& now.region_source == was.region_source
            &&& now.region_is_display_local == was.region_is_display_local
            &&& now.confirmed_region == was.confirmed_region
            &&& resolved_state(after, other) == resolved_state(before, other)
        }),
{
}

/// After a confirmed region is saved, its display restores exactly that region with its geometry.
/// Nothing else that the display restores changes, and nothing that another does.
pub proof fn law_the_last_confirmation_counts(
    before: UiState,
    after: UiState,
    id: Seq<char>,
    region: CaptureRegion,
    source: CaptureRegionSource,
    other: Seq<char>,
)
    requires
        after.differs_only_in(
            before,
            id,
            with_confirmed(entry_of(before.displays@, id), region, source),
        ),
        other != id,
    ensures
        ({
            let (was, now) = (resolved_state(before, id), resolved_state(after, id));
            &&& now.confirmed_region matches Some(confirmed) && confirmed.region == region
                && confirmed.source == source
            &&& now.tool == was.tool
            &&& now.region == was.region
            &&& now.region_source == was.region_source
            &&& now.region_is_display_local == was.region_is_display_local
            &&& now.overlay_center == was.overlay_center
            &&& now.overlay_position == was.overlay_position
            &&& resolved_state(after, other) == resolved_state(before, other)
        }),
{
}

/// A display without an entry of its own restores the tool, the region and the place that are common
/// to all, and nothing else. One with an entry restores what the entry says, and of the common values
/// only what the entry leaves open.
pub proof fn law_displays_restore_their_own_first(state: UiState, id: Seq<char>)
    ensures
        ({
            let now = resolved_state(state, id);
            if !state.displays@.dom().contains(id) {
                &&& now.tool == state.last_capture_tool
                &&& now.region == state.last_region
                &&& now.overlay_position is Some <==> state.overlay_x is Some && state.overlay_y is Some
                &&& now.overlay_position matches Some(place) ==> state.overlay_x == Some(place.0)
                    && state.overlay_y == Some(place.1)
                &&& now.overlay_center is None && now.region_source is None && now.confirmed_region is None
                &&& !now.region_is_display_local
            } else {
                let entry = state.displays@[id];
                &&& now.tool == if entry.last_capture_tool is Some {
                    entry.last_capture_tool
                } else {
                    state.last_capture_tool
                }
                &&& now.region == if entry.last_region is Some {
                    entry.last_region
                } else {
                    state.last_region
                }
                &&& now.region_source == entry.last_region_source
                &&& now.region_is_display_local == (entry.last_region is Some)
                &&& now.overlay_center is Some <==> entry.overlay_center_x is Some
                    && entry.overlay_center_y is Some
                &&& now.overlay_center matches Some(center) ==> entry.overlay_center_x == Some(center.0)
                    && entry.overlay_center_y == Some(center.1)
                &&& entry.overlay_x is Some && entry.overlay_y is Some ==> now.overlay_position == Some(
                    (entry.overlay_x->Some_0, entry.overlay_y->Some_0),
                )
                &&& now.confirmed_region is Some <==> entry.last_confirmed_region is Some
                    && entry.last_confirmed_region_source is Some
                &&& now.confirmed_region matches Some(confirmed) ==> entry.last_confirmed_region == Some(
                    confirmed.region,
                ) && entry.last_confirmed_region_source == Some(confirmed.source)
            }
        }),
{
}

/// The confirmed regions are those of exactly the displays that have one with its geometry, each
/// under its own display.
pub proof fn law_confirmed_regions_are_those_of_their_displays(
    keys: Seq<Seq<char>>,
    displays: Map<Seq<char>, DisplayUiConfig>,
    id: Seq<char>,
)
    ensures
        confirmed_among(keys, displays).dom().contains(id) <==> keys.contains(id)
            && displays[id].last_confirmed_region is Some
            && displays[id].last_confirmed_region_source is Some,
        confirmed_among(keys, displays).dom().contains(id) ==> displays[id].last_confirmed_region
            == Some(confirmed_among(keys, displays)[id].region)
            && displays[id].last_confirmed_region_source == Some(
            confirmed_among(keys, displays)[id].source,
        ),
    decreases keys.len(),
{
    if keys.len() > 0 {
        let front = keys.drop_last();
        law_confirmed_regions_are_those_of_their_displays(front, displays, id);
        if front.contains(id) {
            let i = choose|i: int| 0 <= i < front.len() && front[i] == id;
            assert(keys[i] == id);
        }
        if keys.contains(id) && keys.last() != id {
            let i = choose|i: int| 0 <= i < keys.len() && keys[i] == id;
            assert(front[i] == id);
        }
        if keys.last() == id {
            assert(keys[keys.len() - 1] == id);
        }
    }
}

/// Where the entries that are remembered already meet the rules, a save succeeds if and only if the
/// new entry does, and its result can be loaded again.
pub proof fn law_saves_are_refused_for_their_entry(
    store: UiStateStore,
    result: Result<UiState, ConfigError>,
    before: UiState,
    after: UiState,
    id: Seq<char>,
    entry: DisplayUiConfig,
)
    requires
        store.state_path is Some,
        before.schema_version == STATE_SCHEMA_VERSION,
        entries_hold(before.displays@),
        UiStateStore::saves(result, before, after, id, entry),
    ensures
        result is Ok <==> entry_problem(id, entry) is None,
        result is Ok ==> result == Ok::<UiState, ConfigError>(after) && store.load_fault(
            StateRead::Parsed(after),
        ) is None,
        result is Err ==> result->Err_0 is InvalidValue,
{
    assert(after.displays@.dom().contains(id));
}

/// What reading the state file gave.
#[derive(Debug)]
pub enum StateRead {
    Missing,
    Failed { path: String, source: String },
    Malformed(String),
    Parsed(UiState),
}

/// Why a state file cannot be used.
pub open spec fn state_fault(read: StateRead) -> Option<StateFault> {
    match read {
        StateRead::Missing => None,
        StateRead::Failed { path, source } => Some(StateFault::Read(path@, source@)),
        StateRead::Malformed(message) => Some(StateFault::Parse(message@)),
        StateRead::Parsed(state) => if state.schema_version != STATE_SCHEMA_VERSION {
            Some(StateFault::UnsupportedSchema(state.schema_version))
        } else {
            match entries_problem(state.displays.keys(), state.displays@) {
                Some(message) => Some(StateFault::InvalidValue(message)),
                None => None,
            }
        },
    }
}

/// The content of the errors that reading remembered state can end in.
pub enum StateFault {
    NoHome,
    Read(Seq<char>, Seq<char>),
    Parse(Seq<char>),
    UnsupportedSchema(u32),
    InvalidValue(Seq<char>),
}

/// Whether an error reports a fault.
pub open spec fn is_fault(error: ConfigError, fault: StateFault) -> bool {
    match fault {
        StateFault::NoHome => error == ConfigError::HomeDirectoryUnavailable,
        StateFault::Read(path, source) => error matches ConfigError::Read { path: p, source: s } && p@
            == path && s@ == source,
        StateFault::Parse(message) => error matches ConfigError::Parse(text) && text@ == message,
        StateFault::UnsupportedSchema(version) => error == ConfigError::UnsupportedSchema(version),
        StateFault::InvalidValue(message) => error matches ConfigError::InvalidValue(text) && text@
            == message,
    }
}

/// The state that was read, if there was one. One written in another format, or with an entry that
/// no longer meets the rules, is reported rather than taken for none.
pub fn read_state(read: StateRead) -> (result: Result<Option<UiState>, ConfigError>)
    ensures
        match state_fault(read) {
            Some(fault) => result matches Err(error) && is_fault(error, fault),
            None => result == Ok::<Option<UiState>, ConfigError>(
                match read {
                    StateRead::Parsed(state) => Some(state),
                    _ => None,
                },
            ),
        },
{
    match read {
        StateRead::Missing => Ok(None),
        StateRead::Failed { path, source } => Err(ConfigError::Read { path, source }),
        StateRead::Malformed(message) => Err(ConfigError::Parse(message)),
        StateRead::Parsed(state) => {
            if state.schema_version != STATE_SCHEMA_VERSION {
                return Err(ConfigError::UnsupportedSchema(state.schema_version));
            }
            match validate_display_entries(&state.displays) {
                Err(error) => Err(error),
                Ok(()) => Ok(Some(state)),
            }
        },
    }
}

/// The state to start from where there is no state file yet: the `[ui]` section of the
/// configuration, where one could be read, and nothing otherwise.
pub fn migrated_state(section: Option<UiConfig>) -> (state: UiState)
    ensures
        state.schema_version == STATE_SCHEMA_VERSION,
        match section {
            Some(ui) => state.overlay_x == ui.overlay_x && state.overlay_y == ui.overlay_y
                && state.last_capture_tool == ui.last_capture_tool && state.last_region
                == ui.last_region && state.displays == ui.displays,
            None => state.overlay_x is None && state.overlay_y is None
                && state.last_capture_tool is None && state.last_region is None && state.displays@
                == Map::<Seq<char>, DisplayUiConfig>::empty(),
        },
{
    match section {
        Some(ui) => UiState::from_config_section(ui),
        None => UiState::default(),
    }
}

/// Where the state is kept, and the configuration it sits beside.
#[derive(Debug)]
pub struct UiStateStore {
    pub state_path: Option<FilePath>,
    pub beside: Option<FilePath>,
}

impl UiStateStore {
    /// The store in the storage directory, beside the default configuration.
    pub fn for_default_storage(storage: Option<&FilePath>) -> (store: Self)
        ensures
            match storage {
                Some(storage) => parts_of(store.state_path) == Some(
                    storage@.push(Part::Normal("state.toml"@)),
                ) && parts_of(store.beside) == Some(
                    storage@.push(Part::Normal("captastic.toml"@)),
                ),
                None => store.state_path is None && store.beside is None,
            },
    {
        match storage {
            Some(storage) => UiStateStore {
                state_path: Some(storage.join("state.toml")),
                beside: Some(storage.join("captastic.toml")),
            },
            None => UiStateStore { state_path: None, beside: None },
        }
    }

    /// The store beside a configuration file.
    pub fn for_config(config_path: FilePath) -> (store: Self)
        ensures
            store.beside == Some(config_path),
            match FilePath::parent_parts(config_path@) {
                Some(directory) => parts_of(store.state_path) == Some(
                    directory.push(Part::Normal("state.toml"@)),
                ),
                None => store.state_path is None,
            },
    {
        let state_path = match config_path.parent() {
            Some(directory) => Some(directory.join("state.toml")),
            None => None,
        };
        UiStateStore { state_path, beside: Some(config_path) }
    }

    /// The store in one file, with no configuration beside it.
    pub fn at(state_path: FilePath) -> (store: Self)
        ensures
            store.state_path == Some(state_path),
            store.beside is None,
    {
        UiStateStore { state_path: Some(state_path), beside: None }
    }

    /// The file of the store.
    pub fn path(&self) -> (path: Option<&FilePath>)
        ensures
            match path {
                Some(path) => self.state_path == Some(*path),
                None => self.state_path is None,
            },
    {
        match &self.state_path {
            Some(path) => Some(path),
            None => None,
        }
    }

    /// The configuration that the store sits beside.
    pub fn config_path(&self) -> (path: Option<&FilePath>)
        ensures
            match path {
                Some(path) => self.beside == Some(*path),
                None => self.beside is None,
            },
    {
        match &self.beside {
            Some(path) => Some(path),
            None => None,
        }
    }

    /// The configuration to open in an editor, and whether it has to be written first because it is
    /// the default one and does not exist yet. A file that the user named is never created.
    pub fn prepare_for_open(&self, exists: bool, default_path: Option<&FilePath>) -> (result: Result<
        (FilePath, bool),
        ConfigError,
    >)
        ensures
            match self.beside {
                None => result == Err::<(FilePath, bool), ConfigError>(
                    ConfigError::HomeDirectoryUnavailable,
                ),
                Some(path) => result matches Ok((found, create)) && found@ == path@ && create == (
                !exists && default_path is Some && default_path->Some_0@ == path@),
            },
    {
        match &self.beside {
            None => Err(ConfigError::HomeDirectoryUnavailable),
            Some(path) => {
                let create = needs_default_config(exists, path, default_path);
                Ok((path.clone(), create))
            },
        }
    }

    /// The file of the store, which has to be known.
    pub fn required_state_path(&self) -> (result: Result<&FilePath, ConfigError>)
        ensures
            match self.state_path {
                Some(path) => result matches Ok(found) && *found == path,
                None => result == Err::<&FilePath, ConfigError>(
                    ConfigError::HomeDirectoryUnavailable,
                ),
            },
    {
        match &self.state_path {
            Some(path) => Ok(path),
            None => Err(ConfigError::HomeDirectoryUnavailable),
        }
    }

    /// What loading the store fails with, if it does.
    pub open spec fn load_fault(self, read: StateRead) -> Option<StateFault> {
        if self.state_path is None {
            Some(StateFault::NoHome)
        } else {
            state_fault(read)
        }
    }

    /// Whether a state is what loading gives: the one in the file, or the one to start from where
    /// there is no file.
    pub open spec fn is_loaded(state: UiState, read: StateRead, section: Option<UiConfig>) -> bool {
        match read {
            StateRead::Parsed(parsed) => state == parsed,
            _ => {
                &&& state.schema_version == STATE_SCHEMA_VERSION
                &&& match section {
                    Some(ui) => state.overlay_x == ui.overlay_x && state.overlay_y == ui.overlay_y
                        && state.last_capture_tool == ui.last_capture_tool && state.last_region
                        == ui.last_region && state.displays == ui.displays,
                    None => state.overlay_x is None && state.overlay_y is None
                        && state.last_capture_tool is None && state.last_region is None
                        && state.displays@ == Map::<Seq<char>, DisplayUiConfig>::empty(),
                }
            },
        }
    }

    /// The remembered state, from what reading the store's file gave. `section` is the `[ui]`
    /// section of the configuration beside it, where one could be read.
    pub fn load(&self, read: StateRead, section: Option<UiConfig>) -> (result: Result<
        UiState,
        ConfigError,
    >)
        ensures
            match self.load_fault(read) {
                Some(fault) => result matches Err(error) && is_fault(error, fault),
                None => result matches Ok(state) && Self::is_loaded(state, read, section),
            },
    {
        match self.required_state_path() {
            Err(error) => {
                return Err(error);
            },
            Ok(_) => {},
        }
        match read_state(read) {
            Err(error) => Err(error),
            Ok(Some(state)) => Ok(state),
            Ok(None) => Ok(migrated_state(section)),
        }
    }

    /// What a display restores, from what reading the store's file gave.
    pub fn load_display_ui_state(
        &self,
        read: StateRead,
        section: Option<UiConfig>,
        display_id: &str,
    ) -> (result: Result<DisplayUiState, ConfigError>)
        ensures
            match self.load_fault(read) {
                Some(fault) => result matches Err(error) && is_fault(error, fault),
                None => exists|state: UiState| #[trigger]
                    Self::is_loaded(state, read, section) && result == Ok::<
                        DisplayUiState,
                        ConfigError,
                    >(resolved_state(state, display_id@)),
            },
    {
        match self.load(read, section) {
            Err(error) => Err(error),
            Ok(state) => {
                let resolved = resolve_display_ui_state(&state, display_id);
                Ok(resolved)
            },
        }
    }

    /// The regions that the user confirmed last, from what reading the store's file gave.
    pub fn confirmed_regions(&self, read: StateRead, section: Option<UiConfig>) -> (result: Result<
        TextMap<ConfirmedRegion>,
        ConfigError,
    >)
        ensures
            match self.load_fault(read) {
                Some(fault) => result matches Err(error) && is_fault(error, fault),
                None => result matches Ok(regions) && exists|state: UiState| #[trigger]
                    Self::is_loaded(state, read, section) && regions@ == confirmed_among(
                        state.displays.keys(),
                        state.displays@,
                    ),
            },
    {
        match self.load(read, section) {
            Err(error) => Err(error),
            Ok(state) => {
                let regions = state.confirmed_regions();
                Ok(regions)
            },
        }
    }

    /// Whether a save was refused because of its values.
    pub open spec fn refused(result: Result<UiState, ConfigError>, message: Seq<char>) -> bool {
        result matches Err(ConfigError::InvalidValue(text)) && text@ == message
    }

    /// Whether a save gave the state `after`, which differs from `before` in one entry alone, or
    /// refused it because it could not be loaded again.
    pub open spec fn saves(
        result: Result<UiState, ConfigError>,
        before: UiState,
        after: UiState,
        id: Seq<char>,
        entry: DisplayUiConfig,
    ) -> bool {
        &&& after.differs_only_in(before, id, entry)
        &&& match entries_problem(after.displays.keys(), after.displays@) {
            None => result == Ok::<UiState, ConfigError>(after),
            Some(message) => Self::refused(result, message),
        }
        &&& result is Ok == entries_hold(after.displays@)
    }

    /// Lets a state through that can be loaded again.
    fn checked(state: UiState) -> (result: Result<UiState, ConfigError>)
        ensures
            match entries_problem(state.displays.keys(), state.displays@) {
                None => result == Ok::<UiState, ConfigError>(state),
                Some(message) => Self::refused(result, message),
            },
            result is Ok == entries_hold(state.displays@),
    {
        let _ = state.displays.len();
        proof {
            let (keys, entries) = (state.displays.keys(), state.displays@);
            lemma_entries_problem(keys, entries);
            assert forall|id: Seq<char>| keys.contains(id) == entries.dom().contains(id) by {
                assert(keys.to_set().contains(id) == keys.contains(id));
            }
        }
        match validate_display_entries(&state.displays) {
            Ok(()) => Ok(state),
            Err(error) => Err(error),
        }
    }

    /// The state to write after the toolbar was moved on a display.
    pub fn save_display_overlay_center(
        &self,
        read: StateRead,
        section: Option<UiConfig>,
        display_id: &str,
        center_x: Coordinate,
        center_y: Coordinate,
    ) -> (result: Result<UiState, ConfigError>)
        ensures
            if !center_x.normalized() || !center_y.normalized() {
                Self::refused(
                    result,
                    "display overlay center coordinates must be finite values between 0 and 1"@,
                )
            } else {
                match self.load_fault(read) {
                    Some(fault) => result matches Err(error) && is_fault(error, fault),
                    None => exists|before: UiState, after: UiState|
                        Self::is_loaded(before, read, section) && #[trigger] Self::saves(
                            result,
                            before,
                            after,
                            display_id@,
                            with_center(
                                entry_of(before.displays@, display_id@),
                                center_x,
                                center_y,
                            ),
                        ),
                }
            },
            result matches Ok(after) ==> self.load_fault(StateRead::Parsed(after)) is None,
    {
        if !center_x.is_normalized() || !center_y.is_normalized() {
            return Err(
                ConfigError::InvalidValue(
                    "display overlay center coordinates must be finite values between 0 and 1".to_owned(),
                ),
            );
        }
        match self.load(read, section) {
            Err(error) => Err(error),
            Ok(loaded) => {
                let ghost before = loaded;
                let mut state = loaded;
                state.set_overlay_center(display_id, center_x, center_y);
                let ghost after = state;
                let result = Self::checked(state);
                proof {
                    assert(Self::saves(
                        result,
                        before,
                        after,
                        display_id@,
                        with_center(entry_of(before.displays@, display_id@), center_x, center_y),
                    ));
                }
                result
            },
        }
    }

    /// The state to write after an interaction with the overlay of a display.
    pub fn save_display_interaction_state(
        &self,
        read: StateRead,
        section: Option<UiConfig>,
        display_id: &str,
        tool: CaptureTool,
        region: Option<CaptureRegion>,
        region_source: Option<CaptureRegionSource>,
    ) -> (result: Result<UiState, ConfigError>)
        ensures
            if (region is Some && region->Some_0.empty()) || (region_source is Some
                && region_source->Some_0.empty()) {
                Self::refused(result, "remembered capture regions must have nonzero dimensions"@)
            } else {
                match self.load_fault(read) {
                    Some(fault) => result matches Err(error) && is_fault(error, fault),
                    None => exists|before: UiState, after: UiState|
                        Self::is_loaded(before, read, section) && #[trigger] Self::saves(
                            result,
                            before,
                            after,
                            display_id@,
                            with_interaction(
                                entry_of(before.displays@, display_id@),
                                tool,
                                region,
                                region_source,
                            ),
                        ),
                }
            },
            result matches Ok(after) ==> self.load_fault(StateRead::Parsed(after)) is None,
    {
        let empty_region = match region {
            Some(region) => region.is_empty(),
            None => false,
        };
        let empty_source = match region_source {
            Some(source) => source.is_empty(),
            None => false,
        };
        if empty_region || empty_source {
            return Err(
                ConfigError::InvalidValue(
                    "remembered capture regions must have nonzero dimensions".to_owned(),
                ),
            );
        }
        match self.load(read, section) {
            Err(error) => Err(error),
            Ok(loaded) => {
                let ghost before = loaded;
                let mut state = loaded;
                state.set_interaction(display_id, tool, region, region_source);
                let ghost after = state;
                let result = Self::checked(state);
                proof {
                    assert(Self::saves(
                        result,
                        before,
                        after,
                        display_id@,
                        with_interaction(
                            entry_of(before.displays@, display_id@),
                            tool,
                            region,
                            region_source,
                        ),
                    ));
                }
                result
            },
        }
    }

    /// The state to write after a region was confirmed on a display.
    pub fn save_display_confirmed_region(
        &self,
        read: StateRead,
        section: Option<UiConfig>,
        display_id: &str,
        region: CaptureRegion,
        source: CaptureRegionSource,
    ) -> (result: Result<UiState, ConfigError>)
        ensures
            if region.empty() || source.empty() {
                Self::refused(result, "confirmed capture regions must have nonzero dimensions"@)
            } else {
                match self.load_fault(read) {
                    Some(fault) => result matches Err(error) && is_fault(error, fault),
                    None => exists|before: UiState, after: UiState|
                        Self::is_loaded(before, read, section) && #[trigger] Self::saves(
                            result,
                            before,
                            after,
                            display_id@,
                            with_confirmed(entry_of(before.displays@, display_id@), region, source),
                        ),
                }
            },
            result matches Ok(after) ==> self.load_fault(StateRead::Parsed(after)) is None,
    {
        if region.is_empty() || source.is_empty() {
            return Err(
                ConfigError::InvalidValue(
                    "confirmed capture regions must have nonzero dimensions".to_owned(),
                ),
            );
        }
        match self.load(read, section) {
            Err(error) => Err(error),
            Ok(loaded) => {
                let ghost before = loaded;
                let mut state = loaded;
                state.set_confirmed_region(display_id, region, source);
                let ghost after = state;
                let result = Self::checked(state);
                proof {
                    assert(Self::saves(
                        result,
                        before,
                        after,
                        display_id@,
                        with_confirmed(entry_of(before.displays@, display_id@), region, source),
                    ));
                }
                result
            },
        }
    }
}

/// A state is loaded as the file has it. Where there is no file it is that of the configuration's own
/// section, and without one it remembers nothing.
pub proof fn law_a_state_is_loaded_from_where_it_was_kept(
    state: UiState,
    read: StateRead,
    section: Option<UiConfig>,
)
    requires
        UiStateStore::is_loaded(state, read, section),
    ensures
        read matches StateRead::Parsed(parsed) ==> state == parsed,
        !(read is Parsed) ==> state.schema_version == 1,
        !(read is Parsed) && section is Some ==> {
            let ui = section->Some_0;
            state.overlay_x == ui.overlay_x && state.overlay_y == ui.overlay_y
                && state.last_capture_tool == ui.last_capture_tool && state.last_region
                == ui.last_region && state.displays == ui.displays
        },
        !(read is Parsed) && section is None ==> state.overlay_x is None && state.overlay_y is None
            && state.last_capture_tool is None && state.last_region is None
            && state.displays@.dom() == Set::<Seq<char>>::empty(),
{
}

/// A fault is reported as what it is, with its own words.
pub proof fn law_faults_are_reported_as_what_they_are(error: ConfigError, fault: StateFault)
    requires
        is_fault(error, fault),
    ensures
        match fault {
            StateFault::NoHome => error is HomeDirectoryUnavailable,
            StateFault::Read(path, source) => error.text() == "failed to read configuration "@ + path
                + ": "@ + source,
            StateFault::Parse(message) => error.text() == "failed to parse configuration: "@
                + message,
            StateFault::UnsupportedSchema(version) => error == ConfigError::UnsupportedSchema(
                version,
            ),
            StateFault::InvalidValue(message) => error.text() == "invalid configuration: "@ + message,
        },
{
}

/// A save that was refused says which value it was refused for.
pub proof fn law_refused_saves_say_why(result: Result<UiState, ConfigError>, message: Seq<char>)
    requires
        UiStateStore::refused(result, message),
    ensures
        result matches Err(error) && error.text() == "invalid configuration: "@ + message,
{
}

} // verus!
