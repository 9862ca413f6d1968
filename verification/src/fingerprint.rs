//! What machine a report describes.
//!
//! Two runs are compared only where they ran on the same machine. What decides that is the identity
//! of the machine; when the run was recorded is reported and never compared.
use vstd::prelude::*;
use vstd::string::*;

use crate::capture::DisplayInfo;
use crate::logging::{format_utc_timestamp, timestamp_text};
use crate::text::{decimal, decimal_text, lemma_decimal_digits, lemma_decimal_injective, same};

verus! {

/// The identity of a build.
#[derive(Clone, Copy, Debug, Eq, PartialEq)]
pub struct BuildInfo {
    pub release_version: &'static str,
    pub version: &'static str,
    pub channel: &'static str,
    pub git_commit: Option<&'static str>,
    pub git_short_commit: Option<&'static str>,
    pub revision_count: Option<u64>,
    pub source_tag: Option<&'static str>,
    pub dirty: bool,
    pub ci_run_id: Option<&'static str>,
    pub ci_run_number: Option<u64>,
    pub ci_run_attempt: Option<u64>,
    pub ci_run_url: Option<&'static str>,
    pub target: &'static str,
    pub profile: &'static str,
}

/// The identity of a build, owned, so that a report can be read back.
#[derive(Debug, Eq, PartialEq)]
pub struct BuildIdentity {
    pub release_version: String,
    pub version: String,
    pub channel: String,
    pub git_commit: Option<String>,
    pub git_short_commit: Option<String>,
    pub revision_count: Option<u64>,
    pub source_tag: Option<String>,
    pub dirty: bool,
    pub ci_run_id: Option<String>,
    pub ci_run_number: Option<u64>,
    pub ci_run_attempt: Option<u64>,
    pub ci_run_url: Option<String>,
    pub target: String,
    pub profile: String,
}

/// Whether an owned text says what a borrowed one says.
pub open spec fn says(owned: Option<String>, borrowed: Option<&str>) -> bool {
    match (owned, borrowed) {
        (Some(owned), Some(borrowed)) => owned@ == borrowed@,
        (None, None) => true,
        _ => false,
    }
}

/// An owned copy of a text, where there is one.
fn owned(text: Option<&'static str>) -> (copy: Option<String>)
    ensures
        says(copy, text),
{
    match text {
        Some(text) => Some(text.to_owned()),
        None => None,
    }
}

/// An owned copy of a text, where there is one.
pub(crate) fn copied(text: &Option<String>) -> (copy: Option<String>)
    ensures
        copy == *text,
{
    match text {
        Some(text) => Some(text.clone()),
        None => None,
    }
}

impl BuildIdentity {
    /// Mirrors a build, field by field.
    pub fn of(info: &BuildInfo) -> (identity: Self)
        ensures
            identity.release_version@ == info.release_version@,
            identity.version@ == info.version@,
            identity.channel@ == info.channel@,
            says(identity.git_commit, info.git_commit),
            says(identity.git_short_commit, info.git_short_commit),
            identity.revision_count == info.revision_count,
            says(identity.source_tag, info.source_tag),
            identity.dirty == info.dirty,
            says(identity.ci_run_id, info.ci_run_id),
            identity.ci_run_number == info.ci_run_number,
            identity.ci_run_attempt == info.ci_run_attempt,
            says(identity.ci_run_url, info.ci_run_url),
            identity.target@ == info.target@,
            identity.profile@ == info.profile@,
    {
        BuildIdentity {
            release_version: info.release_version.to_owned(),
            version: info.version.to_owned(),
            channel: info.channel.to_owned(),
            git_commit: owned(info.git_commit),
            git_short_commit: owned(info.git_short_commit),
            revision_count: info.revision_count,
            source_tag: owned(info.source_tag),
            dirty: info.dirty,
            ci_run_id: owned(info.ci_run_id),
            ci_run_number: info.ci_run_number,
            ci_run_attempt: info.ci_run_attempt,
            ci_run_url: owned(info.ci_run_url),
            target: info.target.to_owned(),
            profile: info.profile.to_owned(),
        }
    }
}

/// One graphics adapter of a machine.
#[derive(Debug, Eq, PartialEq)]
pub struct AdapterFingerprint {
    pub description: String,
    pub vendor_id: u32,
    pub device_id: u32,
    pub luid: i64,
    /// Whether it only computes what others render.
    pub software: bool,
    pub dedicated_video_memory_mb: u64,
    pub driver_version: Option<String>,
}

/// One display that a run used.
#[derive(Debug, Eq, PartialEq)]
pub struct DisplayFingerprint {
    pub id: String,
    pub name: String,
    pub width: u32,
    pub height: u32,
    pub rotation_degrees: u16,
    pub primary: bool,
    /// The bits of a 32-bit float.
    pub scale_factor_bits: u32,
    /// The refresh rate in hertz, as the bits of a 64-bit float, where it is known.
    pub refresh_hz_bits: Option<u64>,
    /// The adapter that drives the display, where it is known.
    pub adapter_luid: Option<i64>,
}

/// What the platform knows of one display's hardware.
#[derive(Debug, Eq, PartialEq)]
pub struct DisplayHardwareFacts {
    pub display_id: String,
    pub adapter_luid: Option<i64>,
    pub refresh_hz_bits: Option<u64>,
}

/// What the platform could be asked about the machine. What it cannot tell is absent.
#[derive(Debug, Eq, PartialEq)]
pub struct HostFacts {
    pub os_build: Option<String>,
    pub cpu: Option<String>,
    pub adapters: Vec<AdapterFingerprint>,
    pub displays: Vec<DisplayHardwareFacts>,
    pub session: Option<String>,
    pub power_source: Option<String>,
    pub power_plan: Option<String>,
}

impl Default for HostFacts {
    /// A machine that cannot be asked anything.
    fn default() -> (facts: Self)
        ensures
            facts.os_build is None,
            facts.cpu is None,
            facts.adapters@.len() == 0,
            facts.displays@.len() == 0,
            facts.session is None,
            facts.power_source is None,
            facts.power_plan is None,
    {
        HostFacts {
            os_build: None,
            cpu: None,
            adapters: Vec::new(),
            displays: Vec::new(),
            session: None,
            power_source: None,
            power_plan: None,
        }
    }
}

/// What is known without asking the platform.
#[derive(Debug, Eq, PartialEq)]
pub struct ProcessFacts {
    pub os: String,
    pub architecture: String,
    pub build: BuildIdentity,
    pub debug_assertions: bool,
    pub logical_cpus: Option<usize>,
    /// The moment, in microseconds since the Unix epoch.
    pub now_micros: u128,
}

/// The machine that a report describes, and when the report was taken.
#[derive(Debug, Eq, PartialEq)]
pub struct EnvironmentFingerprint {
    pub os: String,
    pub architecture: String,
    pub build: BuildIdentity,
    pub debug_assertions: bool,
    pub displays: Vec<DisplayFingerprint>,
    pub os_build: Option<String>,
    pub cpu: Option<String>,
    pub logical_cpus: Option<usize>,
    pub adapters: Vec<AdapterFingerprint>,
    pub session: Option<String>,
    pub power_source: Option<String>,
    pub power_plan: Option<String>,
    /// When this was recorded. Reported, never compared.
    pub recorded_at_utc: String,
}

/// What the platform knows of the display with a name: the first entry for it.
pub open spec fn hardware_of(facts: Seq<DisplayHardwareFacts>, id: Seq<char>) -> Option<
    DisplayHardwareFacts,
>
    decreases facts.len(),
{
    if facts.len() == 0 {
        None
    } else if facts[0].display_id@ == id {
        Some(facts[0])
    } else {
        hardware_of(facts.drop_first(), id)
    }
}

/// Whether a fingerprint is the one of a display.
pub open spec fn describes(
    fingerprint: DisplayFingerprint,
    display: DisplayInfo,
    hardware: Option<DisplayHardwareFacts>,
) -> bool {
    &&& fingerprint.id == display.id.0
    &&& fingerprint.name == display.name
    &&& fingerprint.width == display.bounds.width
    &&& fingerprint.height == display.bounds.height
    &&& fingerprint.rotation_degrees == display.rotation_degrees
    &&& fingerprint.primary == display.is_primary
    &&& fingerprint.scale_factor_bits == display.scale_factor_bits
    &&& fingerprint.refresh_hz_bits == match hardware {
        Some(facts) => facts.refresh_hz_bits,
        None => None,
    }
    &&& fingerprint.adapter_luid == match hardware {
        Some(facts) => facts.adapter_luid,
        None => None,
    }
}

/// What the platform knows of the display with a name.
fn find_hardware<'a>(facts: &'a Vec<DisplayHardwareFacts>, id: &str) -> (found: Option<
    &'a DisplayHardwareFacts,
>)
    ensures
        match found {
            Some(found) => hardware_of(facts@, id@) == Some(*found),
            None => hardware_of(facts@, id@) is None,
        },
{
    let mut i: usize = 0;
    proof {
        assert(facts@.skip(0) =~= facts@);
    }
    while i < facts.len()
        invariant
            i <= facts@.len(),
            hardware_of(facts@, id@) == hardware_of(facts@.skip(i as int), id@),
        decreases facts@.len() - i,
    {
        proof {
            assert(facts@.skip(i as int).drop_first() =~= facts@.skip(i + 1));
        }
        if same(facts[i].display_id.as_str(), id) {
            return Some(&facts[i]);
        }
        i += 1;
    }
    None
}

impl EnvironmentFingerprint {
    /// Describes the machine of this process, with the displays that a run used. Those are the
    /// engine's own answer rather than the platform's.
    pub fn collect(displays: &Vec<DisplayInfo>, host: HostFacts, process: ProcessFacts) -> (
        fingerprint: Self)
        ensures
            fingerprint.os == process.os,
            fingerprint.architecture == process.architecture,
            fingerprint.build == process.build,
            fingerprint.debug_assertions == process.debug_assertions,
            fingerprint.displays@.len() == displays@.len(),
            forall|i: int|
                0 <= i < displays@.len() ==> describes(
                    #[trigger] fingerprint.displays@[i],
                    displays@[i],
                    hardware_of(host.displays@, displays@[i].id@),
                ),
            fingerprint.os_build == host.os_build,
            fingerprint.cpu == host.cpu,
            fingerprint.logical_cpus == process.logical_cpus,
            fingerprint.adapters == host.adapters,
            fingerprint.session == host.session,
            fingerprint.power_source == host.power_source,
            fingerprint.power_plan == host.power_plan,
            fingerprint.recorded_at_utc@ == timestamp_text(process.now_micros),
    {
        let mut described: Vec<DisplayFingerprint> = Vec::new();
        let mut i: usize = 0;
        while i < displays.len()
            invariant
                i <= displays@.len(),
                described@.len() == i,
                forall|j: int|
                    0 <= j < i ==> describes(
                        #[trigger] described@[j],
                        displays@[j],
                        hardware_of(host.displays@, displays@[j].id@),
                    ),
            decreases displays@.len() - i,
        {
            let display = &displays[i];
            let hardware = find_hardware(&host.displays, display.id.0.as_str());
            let (refresh_hz_bits, adapter_luid) = match hardware {
                Some(facts) => (facts.refresh_hz_bits, facts.adapter_luid),
                None => (None, None),
            };
            described.push(
                DisplayFingerprint {
                    id: display.id.0.clone(),
                    name: display.name.clone(),
                    width: display.bounds.width,
                    height: display.bounds.height,
                    rotation_degrees: display.rotation_degrees,
                    primary: display.is_primary,
                    scale_factor_bits: display.scale_factor_bits,
                    refresh_hz_bits,
                    adapter_luid,
                },
            );
            i += 1;
        }
        EnvironmentFingerprint {
            os: process.os,
            architecture: process.architecture,
            build: process.build,
            debug_assertions: process.debug_assertions,
            displays: described,
            os_build: host.os_build,
            cpu: host.cpu,
            logical_cpus: process.logical_cpus,
            adapters: host.adapters,
            session: host.session,
            power_source: host.power_source,
            power_plan: host.power_plan,
            recorded_at_utc: format_utc_timestamp(process.now_micros),
        }
    }

    /// The adapter that the run went through, as far as can be told: the one that drives the first
    /// display whose adapter is known, or else the first there is.
    pub fn primary_adapter(&self) -> (adapter: Option<&AdapterFingerprint>)
        ensures
            match adapter {
                Some(adapter) => driving_adapter(self.displays@, self.adapters@) == Some(*adapter),
                None => driving_adapter(self.displays@, self.adapters@) is None,
            },
    {
        let mut i: usize = 0;
        proof {
            assert(self.displays@.skip(0) =~= self.displays@);
        }
        while i < self.displays.len()
            invariant
                i <= self.displays@.len(),
                first_luid(self.displays@) == first_luid(self.displays@.skip(i as int)),
            decreases self.displays@.len() - i,
        {
            proof {
                assert(self.displays@.skip(i as int).drop_first() =~= self.displays@.skip(i + 1));
            }
            if let Some(luid) = self.displays[i].adapter_luid {
                let mut j: usize = 0;
                proof {
                    assert(self.adapters@.skip(0) =~= self.adapters@);
                }
                while j < self.adapters.len()
                    invariant
                        j <= self.adapters@.len(),
                        first_luid(self.displays@) == Some(luid),
                        adapter_with(self.adapters@, luid) == adapter_with(
                            self.adapters@.skip(j as int),
                            luid,
                        ),
                    decreases self.adapters@.len() - j,
                {
                    proof {
                        assert(self.adapters@.skip(j as int).drop_first() =~= self.adapters@.skip(
                            j + 1,
                        ));
                    }
                    if self.adapters[j].luid == luid {
                        return Some(&self.adapters[j]);
                    }
                    j += 1;
                }
                return self.first_adapter();
            }
            i += 1;
        }
        self.first_adapter()
    }

    /// The first adapter.
    fn first_adapter(&self) -> (adapter: Option<&AdapterFingerprint>)
        ensures
            match adapter {
                Some(adapter) => self.adapters@.len() > 0 && self.adapters@[0] == *adapter,
                None => self.adapters@.len() == 0,
            },
    {
        if self.adapters.len() == 0 {
            None
        } else {
            Some(&self.adapters[0])
        }
    }
}

/// The first adapter that a display names.
pub open spec fn first_luid(displays: Seq<DisplayFingerprint>) -> Option<i64>
    decreases displays.len(),
{
    if displays.len() == 0 {
        None
    } else if displays[0].adapter_luid is Some {
        displays[0].adapter_luid
    } else {
        first_luid(displays.drop_first())
    }
}

/// The first adapter with an identifier.
pub open spec fn adapter_with(adapters: Seq<AdapterFingerprint>, luid: i64) -> Option<
    AdapterFingerprint,
>
    decreases adapters.len(),
{
    if adapters.len() == 0 {
        None
    } else if adapters[0].luid == luid {
        Some(adapters[0])
    } else {
        adapter_with(adapters.drop_first(), luid)
    }
}

/// The adapter that a run went through: the one that its displays name, or else the first.
pub open spec fn driving_adapter(
    displays: Seq<DisplayFingerprint>,
    adapters: Seq<AdapterFingerprint>,
) -> Option<AdapterFingerprint> {
    let first = if adapters.len() > 0 {
        Some(adapters[0])
    } else {
        None
    };
    match first_luid(displays) {
        Some(luid) => match adapter_with(adapters, luid) {
            Some(adapter) => Some(adapter),
            None => first,
        },
        None => first,
    }
}

/// A fact as it is shown: in quotes where it is known, so that no fact reads like an unknown one.
pub open spec fn fact(text: Option<String>) -> Seq<char> {
    match text {
        Some(text) => "\""@ + text@ + "\""@,
        None => "unknown"@,
    }
}

/// Facts are shown alike only where both are unknown, or both are known and the same.
pub proof fn law_unknown_facts_differ_from_known_ones(a: Option<String>, b: Option<String>)
    requires
        fact(a) == fact(b),
    ensures
        a is Some == b is Some,
        a is Some ==> a->Some_0@ == b->Some_0@,
{
    reveal_strlit("\"");
    reveal_strlit("unknown");
    assert("unknown"@[0] == 'u');
    if let (Some(x), Some(y)) = (a, b) {
        assert(fact(a).subrange(1, fact(a).len() - 1) =~= x@);
        assert(fact(b).subrange(1, fact(b).len() - 1) =~= y@);
    } else if a is Some {
        assert(fact(a)[0] == '"');
    } else if b is Some {
        assert(fact(b)[0] == '"');
    }
}

/// A fact as it is shown.
fn shown_fact(text: &Option<String>) -> (shown: String)
    ensures
        shown@ == fact(*text),
{
    match text {
        Some(text) => {
            let mut shown = "\"".to_owned();
            shown.append(text.as_str());
            shown.append("\"");
            shown
        },
        None => "unknown".to_owned(),
    }
}

/// A number as it is shown, where it is known.
pub open spec fn number_fact(number: Option<usize>) -> Seq<char> {
    match number {
        Some(number) => decimal(number as nat),
        None => "unknown"@,
    }
}

/// An adapter as it is shown: what it is and which driver runs it.
pub open spec fn adapter_label(adapter: AdapterFingerprint) -> Seq<char> {
    adapter.description@ + " driver "@ + fact(adapter.driver_version)
}

/// Adapters as they are shown.
pub open spec fn adapter_labels(adapters: Seq<AdapterFingerprint>) -> Seq<char>
    decreases adapters.len(),
{
    if adapters.len() == 0 {
        Seq::empty()
    } else if adapters.len() == 1 {
        adapter_label(adapters[0])
    } else {
        adapter_labels(adapters.drop_last()) + ", "@ + adapter_label(adapters.last())
    }
}

/// Adapters as they are shown.
pub fn shown_adapters(adapters: &Vec<AdapterFingerprint>) -> (shown: String)
    ensures
        shown@ == adapter_labels(adapters@),
{
    let mut shown = String::new();
    let mut i: usize = 0;
    while i < adapters.len()
        invariant
            i <= adapters@.len(),
            shown@ == adapter_labels(adapters@.take(i as int)),
        decreases adapters@.len() - i,
    {
        if i > 0 {
            shown.append(", ");
        }
        shown.append(adapters[i].description.as_str());
        shown.append(" driver ");
        shown.append(shown_fact(&adapters[i].driver_version).as_str());
        proof {
            let some = adapters@.take(i + 1);
            assert(some.drop_last() =~= adapters@.take(i as int));
        }
        i += 1;
    }
    proof {
        assert(adapters@.take(i as int) =~= adapters@);
    }
    shown
}

/// What tells two machines apart, by name and as it is shown. What their runs share besides is
/// compared with the runs.
pub open spec fn identity(machine: EnvironmentFingerprint) -> Seq<(Seq<char>, Seq<char>)> {
    seq![
        ("os"@, machine.os@),
        ("architecture"@, machine.architecture@),
        ("os_build"@, fact(machine.os_build)),
        ("cpu"@, fact(machine.cpu)),
        ("logical_cpus"@, number_fact(machine.logical_cpus)),
        ("adapters"@, adapter_labels(machine.adapters@)),
        ("session"@, fact(machine.session)),
        ("power_source"@, fact(machine.power_source)),
        ("power_plan"@, fact(machine.power_plan)),
    ]
}

/// The identity of a machine as texts.
pub fn identity_of(machine: &EnvironmentFingerprint) -> (list: Vec<(&'static str, String)>)
    ensures
        list@.len() == identity(*machine).len(),
        forall|i: int|
            0 <= i < list@.len() ==> ((#[trigger] list@[i]).0@, list@[i].1@) == identity(
                *machine,
            )[i],
{
    let mut list: Vec<(&'static str, String)> = Vec::new();
    list.push(("os", machine.os.clone()));
    list.push(("architecture", machine.architecture.clone()));
    list.push(("os_build", shown_fact(&machine.os_build)));
    list.push(("cpu", shown_fact(&machine.cpu)));
    list.push(
        (
            "logical_cpus",
            match machine.logical_cpus {
                Some(number) => decimal_text(number as u64),
                None => "unknown".to_owned(),
            },
        ),
    );
    list.push(("adapters", shown_adapters(&machine.adapters)));
    list.push(("session", shown_fact(&machine.session)));
    list.push(("power_source", shown_fact(&machine.power_source)));
    list.push(("power_plan", shown_fact(&machine.power_plan)));
    list
}

/// Whether the adapters of two machines are called the same and driven by the same drivers, one by
/// one.
pub open spec fn same_adapters(a: Seq<AdapterFingerprint>, b: Seq<AdapterFingerprint>) -> bool {
    &&& a.len() == b.len()
    &&& forall|i: int|
        0 <= i < a.len() ==> (#[trigger] a[i]).description@ == b[i].description@ && says_alike(
            a[i].driver_version,
            b[i].driver_version,
        )
}

/// Whether two facts are both unknown, or say the same.
pub open spec fn says_alike(a: Option<String>, b: Option<String>) -> bool {
    match (a, b) {
        (Some(a), Some(b)) => a@ == b@,
        (None, None) => true,
        _ => false,
    }
}

/// Facts that say the same are shown the same.
proof fn lemma_facts_alike(a: Option<String>, b: Option<String>)
    ensures
        fact(a) == fact(b) <==> says_alike(a, b),
{
    if fact(a) == fact(b) {
        law_unknown_facts_differ_from_known_ones(a, b);
    }
}

/// Adapters that are the same are shown the same.
proof fn lemma_adapters_alike(a: Seq<AdapterFingerprint>, b: Seq<AdapterFingerprint>)
    requires
        same_adapters(a, b),
    ensures
        adapter_labels(a) == adapter_labels(b),
    decreases a.len(),
{
    if a.len() > 0 {
        let last = a.len() - 1;
        lemma_facts_alike(a[last].driver_version, b[last].driver_version);
        assert(a[last].description@ == b[last].description@);
        assert(adapter_label(a[last]) == adapter_label(b[last]));
        let (x, y) = (a.drop_last(), b.drop_last());
        assert(same_adapters(x, y)) by {
            assert forall|i: int| 0 <= i < x.len() implies (#[trigger] x[i]).description@
                == y[i].description@ && says_alike(x[i].driver_version, y[i].driver_version) by {
                assert(a[i].description@ == b[i].description@);
            }
        }
        lemma_adapters_alike(x, y);
    }
}

/// Two machines have the same identity only if everything that tells them apart is the same: the
/// system and its build, the processor and how many of them, the session and the power. Machines of
/// which all that and the adapters with their drivers are the same do have the same identity.
pub proof fn law_an_identity_is_all_that_tells_machines_apart(
    a: EnvironmentFingerprint,
    b: EnvironmentFingerprint,
)
    ensures
        identity(a) == identity(b) ==> {
            &&& a.os@ == b.os@
            &&& a.architecture@ == b.architecture@
            &&& says_alike(a.os_build, b.os_build)
            &&& says_alike(a.cpu, b.cpu)
            &&& a.logical_cpus == b.logical_cpus
            &&& says_alike(a.session, b.session)
            &&& says_alike(a.power_source, b.power_source)
            &&& says_alike(a.power_plan, b.power_plan)
        },
        ({
            &&& a.os@ == b.os@
            &&& a.architecture@ == b.architecture@
            &&& says_alike(a.os_build, b.os_build)
            &&& says_alike(a.cpu, b.cpu)
            &&& a.logical_cpus == b.logical_cpus
            &&& same_adapters(a.adapters@, b.adapters@)
            &&& says_alike(a.session, b.session)
            &&& says_alike(a.power_source, b.power_source)
            &&& says_alike(a.power_plan, b.power_plan)
        }) ==> identity(a) == identity(b),
{
    lemma_facts_alike(a.os_build, b.os_build);
    lemma_facts_alike(a.cpu, b.cpu);
    lemma_facts_alike(a.session, b.session);
    lemma_facts_alike(a.power_source, b.power_source);
    lemma_facts_alike(a.power_plan, b.power_plan);
    if same_adapters(a.adapters@, b.adapters@) {
        lemma_adapters_alike(a.adapters@, b.adapters@);
    }
    let (x, y) = (identity(a), identity(b));
    if x == y {
        assert(x[0] == y[0] && x[1] == y[1] && x[2] == y[2] && x[3] == y[3] && x[4] == y[4] && x[6]
            == y[6] && x[7] == y[7] && x[8] == y[8]);
        reveal_strlit("unknown");
        assert("unknown"@[0] == 'u');
        match (a.logical_cpus, b.logical_cpus) {
            (Some(m), Some(n)) => {
                lemma_decimal_injective(m as nat, n as nat);
            },
            (Some(m), None) => {
                lemma_decimal_digits(m as nat);
                assert(decimal(m as nat)[0] == 'u');
            },
            (None, Some(n)) => {
                lemma_decimal_digits(n as nat);
                assert(decimal(n as nat)[0] == 'u');
            },
            (None, None) => {},
        }
    }
}

/// A machine whose only adapter got another driver, or became another adapter with the same driver,
/// is not the same machine.
pub proof fn law_another_driver_is_another_machine(
    a: EnvironmentFingerprint,
    b: EnvironmentFingerprint,
)
    requires
        a.adapters@.len() == 1,
        b.adapters@.len() == 1,
        identity(a) == identity(b),
    ensures
        a.adapters@[0].description@ == b.adapters@[0].description@ ==> says_alike(
            a.adapters@[0].driver_version,
            b.adapters@[0].driver_version,
        ),
        says_alike(a.adapters@[0].driver_version, b.adapters@[0].driver_version)
            ==> a.adapters@[0].description@ == b.adapters@[0].description@,
{
    let (x, y) = (a.adapters@[0], b.adapters@[0]);
    assert(identity(a)[5] == identity(b)[5]);
    assert(adapter_label(x) == adapter_label(y));
    lemma_facts_alike(x.driver_version, y.driver_version);
    let (f, g) = (fact(x.driver_version), fact(y.driver_version));
    if x.description@ == y.description@ {
        let n = x.description@.len() + " driver "@.len();
        assert(adapter_label(x).skip(n as int) =~= f);
        assert(adapter_label(y).skip(n as int) =~= g);
    }
    if f == g {
        let n = adapter_label(x).len() - f.len() - " driver "@.len();
        assert(adapter_label(x).take(n) =~= x.description@);
        assert(adapter_label(y).take(n) =~= y.description@);
    }
}

/// What is known of a display's hardware is what was found under its own name, and first there.
pub proof fn law_hardware_is_that_of_its_own_display(
    facts: Seq<DisplayHardwareFacts>,
    id: Seq<char>,
)
    ensures
        match hardware_of(facts, id) {
            Some(found) => exists|i: int|
                0 <= i < facts.len() && #[trigger] facts[i] == found && facts[i].display_id@ == id
                    && forall|j: int| 0 <= j < i ==> (#[trigger] facts[j]).display_id@ != id,
            None => forall|i: int| 0 <= i < facts.len() ==> (#[trigger] facts[i]).display_id@ != id,
        },
    decreases facts.len(),
{
    if facts.len() > 0 {
        if facts[0].display_id@ != id {
            let rest = facts.drop_first();
            law_hardware_is_that_of_its_own_display(rest, id);
            match hardware_of(rest, id) {
                Some(found) => {
                    let i = choose|i: int|
                        0 <= i < rest.len() && #[trigger] rest[i] == found && rest[i].display_id@
                            == id && forall|j: int|
                            0 <= j < i ==> (#[trigger] rest[j]).display_id@ != id;
                    assert(facts[i + 1] == found);
                    assert forall|j: int| 0 <= j < i + 1 implies (#[trigger] facts[j]).display_id@
                        != id by {
                        if j > 0 {
                            assert(rest[j - 1] == facts[j]);
                        }
                    }
                },
                None => {
                    assert forall|j: int| 0 <= j < facts.len() implies (
                    #[trigger] facts[j]).display_id@ != id by {
                        if j > 0 {
                            assert(rest[j - 1] == facts[j]);
                        }
                    }
                },
            }
        } else {
            assert(facts[0].display_id@ == id);
        }
    }
}

/// The adapter that drives the displays is the one that the first display which names its adapter
/// names.
pub proof fn law_the_driving_adapter_is_the_one_named(
    displays: Seq<DisplayFingerprint>,
    adapters: Seq<AdapterFingerprint>,
    named: int,
    at: int,
)
    requires
        0 <= named < displays.len(),
        displays[named].adapter_luid is Some,
        forall|i: int| 0 <= i < named ==> (#[trigger] displays[i]).adapter_luid is None,
        0 <= at < adapters.len(),
        adapters[at].luid == displays[named].adapter_luid->Some_0,
        forall|i: int|
            0 <= i < at ==> (#[trigger] adapters[i]).luid != displays[named].adapter_luid->Some_0,
    ensures
        driving_adapter(displays, adapters) == Some(adapters[at]),
{
    lemma_first_luid(displays, named);
    lemma_adapter_with(adapters, displays[named].adapter_luid->Some_0, at);
}

/// The first display that names its adapter decides.
proof fn lemma_first_luid(displays: Seq<DisplayFingerprint>, named: int)
    requires
        0 <= named < displays.len(),
        displays[named].adapter_luid is Some,
        forall|i: int| 0 <= i < named ==> (#[trigger] displays[i]).adapter_luid is None,
    ensures
        first_luid(displays) == displays[named].adapter_luid,
    decreases displays.len(),
{
    if named > 0 {
        let rest = displays.drop_first();
        assert(displays[0].adapter_luid is None);
        assert forall|i: int| 0 <= i < named - 1 implies (#[trigger] rest[i]).adapter_luid is None by {
            assert(displays[i + 1].adapter_luid is None);
        }
        lemma_first_luid(rest, named - 1);
    }
}

/// The first adapter of a number is the one found.
proof fn lemma_adapter_with(adapters: Seq<AdapterFingerprint>, luid: i64, at: int)
    requires
        0 <= at < adapters.len(),
        adapters[at].luid == luid,
        forall|i: int| 0 <= i < at ==> (#[trigger] adapters[i]).luid != luid,
    ensures
        adapter_with(adapters, luid) == Some(adapters[at]),
    decreases adapters.len(),
{
    if at > 0 {
        let rest = adapters.drop_first();
        assert(adapters[0].luid != luid);
        assert forall|i: int| 0 <= i < at - 1 implies (#[trigger] rest[i]).luid != luid by {
            assert(adapters[i + 1].luid != luid);
        }
        lemma_adapter_with(rest, luid, at - 1);
    }
}

/// A display is described by what it says of itself, and by its hardware where that is known.
pub proof fn law_a_display_is_described_as_it_is(
    fingerprint: DisplayFingerprint,
    display: DisplayInfo,
    hardware: Option<DisplayHardwareFacts>,
)
    requires
        describes(fingerprint, display, hardware),
    ensures
        fingerprint.id@ == display.id@,
        fingerprint.name == display.name,
        fingerprint.width == display.bounds.width && fingerprint.height == display.bounds.height,
        fingerprint.rotation_degrees == display.rotation_degrees,
        fingerprint.primary == display.is_primary,
        fingerprint.scale_factor_bits == display.scale_factor_bits,
        hardware matches Some(facts) ==> fingerprint.refresh_hz_bits == facts.refresh_hz_bits
            && fingerprint.adapter_luid == facts.adapter_luid,
        hardware is None ==> fingerprint.refresh_hz_bits is None && fingerprint.adapter_luid is None,
{
}

/// A text says what another says exactly if both are there and the same, or neither is.
pub proof fn law_texts_say_the_same(owned: Option<String>, borrowed: Option<&str>)
    ensures
        says(owned, borrowed) ==> (owned is Some <==> borrowed is Some),
        says(owned, borrowed) && owned is Some ==> owned->Some_0@ == borrowed->Some_0@,
        owned is None && borrowed is None ==> says(owned, borrowed),
        owned is Some && borrowed is Some && owned->Some_0@ == borrowed->Some_0@ ==> says(
            owned,
            borrowed,
        ),
{
}

/// Where no display names its adapter, or none of those that are there is the one that was named, the
/// first adapter drives the displays, and none where there is none.
pub proof fn law_the_first_adapter_drives_what_names_none(
    displays: Seq<DisplayFingerprint>,
    adapters: Seq<AdapterFingerprint>,
)
    requires
        forall|i: int, k: int|
            0 <= i < displays.len() && 0 <= k < adapters.len() ==> (
            #[trigger] displays[i]).adapter_luid != Some((#[trigger] adapters[k]).luid),
    ensures
        adapters.len() > 0 ==> driving_adapter(displays, adapters) == Some(adapters[0]),
        adapters.len() == 0 ==> driving_adapter(displays, adapters) is None,
{
    if let Some(luid) = first_luid(displays) {
        let named = lemma_luid_is_named(displays);
        assert forall|k: int| 0 <= k < adapters.len() implies (#[trigger] adapters[k]).luid != luid by {
            assert(displays[named].adapter_luid != Some(adapters[k].luid));
        }
        lemma_no_adapter_with(adapters, luid);
    }
}

/// What the displays name, one of them names.
proof fn lemma_luid_is_named(displays: Seq<DisplayFingerprint>) -> (named: int)
    requires
        first_luid(displays) is Some,
    ensures
        0 <= named < displays.len(),
        displays[named].adapter_luid == first_luid(displays),
    decreases displays.len(),
{
    if displays[0].adapter_luid is Some {
        0
    } else {
        let named = lemma_luid_is_named(displays.drop_first());
        assert(displays.drop_first()[named] == displays[named + 1]);
        named + 1
    }
}

/// An identifier that no adapter has finds none.
proof fn lemma_no_adapter_with(adapters: Seq<AdapterFingerprint>, luid: i64)
    requires
        forall|k: int| 0 <= k < adapters.len() ==> (#[trigger] adapters[k]).luid != luid,
    ensures
        adapter_with(adapters, luid) is None,
    decreases adapters.len(),
{
    if adapters.len() > 0 {
        let rest = adapters.drop_first();
        assert(adapters[0].luid != luid);
        assert forall|k: int| 0 <= k < rest.len() implies (#[trigger] rest[k]).luid != luid by {
            assert(adapters[k + 1].luid != luid);
        }
        lemma_no_adapter_with(rest, luid);
    }
}

} // verus!
