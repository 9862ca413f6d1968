//! Performance budgets, and the rule that they only apply where they mean something.
//!
//! A budget names the machine it describes. A run somewhere else is skipped and says why: it is
//! neither a pass nor a failure.
use vstd::prelude::*;
use vstd::string::*;

use crate::benchmark::{join_texts, joined, shown_truth, truth, BenchmarkReport};
use crate::fingerprint::DisplayFingerprint;
use crate::text::{
    decimal, decimal_text, ends_with, holds, law_decimals_read_back, lemma_holds_on, number_in,
    same, stands_at, starts_with, texts,
};

verus! {

/// The machine that a budget describes. What is absent matches anything.
#[derive(Debug)]
pub struct HostMatch {
    /// What the machine is called in messages.
    pub description: String,
    pub backend: Option<String>,
    pub mode: Option<String>,
    pub cursor: Option<String>,
    pub synthetic: Option<bool>,
    pub debug_assertions: Option<bool>,
    /// The size of a display, as `WIDTHxHEIGHT`; any attached one may have it.
    pub display_resolution: Option<String>,
}

impl Default for HostMatch {
    /// Any machine.
    fn default() -> (host: Self)
        ensures
            host.description@.len() == 0,
            host.backend is None,
            host.mode is None,
            host.cursor is None,
            host.synthetic is None,
            host.debug_assertions is None,
            host.display_resolution is None,
    {
        HostMatch {
            description: String::new(),
            backend: None,
            mode: None,
            cursor: None,
            synthetic: None,
            debug_assertions: None,
            display_resolution: None,
        }
    }
}

/// Ceilings in nanoseconds. What is absent is not budgeted.
#[derive(Clone, Copy, Debug, Eq, PartialEq, Structural)]
pub struct AbsoluteBudgets {
    pub native_frame_p50_ns: Option<u64>,
    pub native_frame_p99_ns: Option<u64>,
    pub cpu_frame_p50_ns: Option<u64>,
    pub cpu_frame_p99_ns: Option<u64>,
    pub trigger_to_dequeue_p99_ns: Option<u64>,
}

impl Default for AbsoluteBudgets {
    /// No ceilings.
    fn default() -> (budgets: Self)
        ensures
            budgets == (AbsoluteBudgets {
                native_frame_p50_ns: None,
                native_frame_p99_ns: None,
                cpu_frame_p50_ns: None,
                cpu_frame_p99_ns: None,
                trigger_to_dequeue_p99_ns: None,
            }),
    {
        AbsoluteBudgets {
            native_frame_p50_ns: None,
            native_frame_p99_ns: None,
            cpu_frame_p50_ns: None,
            cpu_frame_p99_ns: None,
            trigger_to_dequeue_p99_ns: None,
        }
    }
}

/// The machine that a budget describes, and the ceilings it sets there.
#[derive(Debug)]
pub struct BudgetFile {
    pub host: HostMatch,
    pub absolute: AbsoluteBudgets,
}

/// One ceiling that was checked, and what was found.
#[derive(Debug, Eq, PartialEq)]
pub struct BudgetCheck {
    pub name: String,
    pub limit: String,
    pub measured: String,
    pub met: bool,
}

/// The content of a [`BudgetCheck`].
pub struct Check {
    pub name: Seq<char>,
    pub limit: Seq<char>,
    pub measured: Seq<char>,
    pub met: bool,
}

impl View for BudgetCheck {
    type V = Check;

    open spec fn view(&self) -> Check {
        Check { name: self.name@, limit: self.limit@, measured: self.measured@, met: self.met }
    }
}

/// The contents of checks.
pub open spec fn checks_in(checks: Seq<BudgetCheck>) -> Seq<Check> {
    Seq::new(checks.len(), |i: int| checks[i]@)
}

/// What came of applying a budget to a run.
#[derive(Debug)]
pub struct BudgetOutcome {
    pub host: String,
    /// Why the budget did not apply; empty where it did.
    pub skipped_because: Vec<String>,
    pub checks: Vec<BudgetCheck>,
}

impl BudgetOutcome {
    /// Whether the budget applied and the run breached it.
    pub open spec fn is_breached(self) -> bool {
        self.skipped_because@.len() == 0 && exists|i: int|
            0 <= i < self.checks@.len() && !(#[trigger] self.checks@[i]).met
    }

    /// Whether the run breached a budget that applied to it.
    pub fn breached(&self) -> (yes: bool)
        ensures
            yes == self.is_breached(),
    {
        if self.skipped_because.len() != 0 {
            return false;
        }
        let mut i: usize = 0;
        while i < self.checks.len()
            invariant
                i <= self.checks@.len(),
                self.skipped_because@.len() == 0,
                forall|j: int| 0 <= j < i ==> (#[trigger] self.checks@[j]).met,
            decreases self.checks@.len() - i,
        {
            if !self.checks[i].met {
                return true;
            }
            i += 1;
        }
        false
    }

    /// Whether the budget applied to the run.
    pub fn applied(&self) -> (yes: bool)
        ensures
            yes == (self.skipped_because@.len() == 0),
    {
        self.skipped_because.len() == 0
    }

    /// The lines of the reasons for skipping.
    pub open spec fn reason_lines(reasons: Seq<String>) -> Seq<char>
        decreases reasons.len(),
    {
        if reasons.len() == 0 {
            Seq::empty()
        } else {
            Self::reason_lines(reasons.drop_last()) + "  "@ + reasons.last()@ + "\n"@
        }
    }

    /// The lines of the checks.
    pub open spec fn check_lines(checks: Seq<BudgetCheck>) -> Seq<char>
        decreases checks.len(),
    {
        if checks.len() == 0 {
            Seq::empty()
        } else {
            Self::check_lines(checks.drop_last()) + "  ["@ + (if checks.last().met {
                "ok"@
            } else {
                "BREACH"@
            }) + "] "@ + checks.last().name@ + " limit "@ + checks.last().limit@ + " measured "@
                + checks.last().measured@ + "\n"@
        }
    }

    /// The outcome as it is reported.
    pub open spec fn text(self) -> Seq<char> {
        if self.skipped_because@.len() > 0 {
            "budgets for "@ + self.host@ + " were not applied to this run:\n"@ + Self::reason_lines(
                self.skipped_because@,
            ) + "  the measurements above stand; nothing was judged"@
        } else {
            "budgets for "@ + self.host@ + ":\n"@ + Self::check_lines(self.checks@)
        }
    }

    /// The outcome as it is reported.
    pub fn to_text(&self) -> (text: String)
        ensures
            text@ == self.text(),
    {
        let mut text = "budgets for ".to_owned();
        text.append(self.host.as_str());
        if self.skipped_because.len() > 0 {
            text.append(" were not applied to this run:\n");
            let ghost start = text@;
            let mut i: usize = 0;
            while i < self.skipped_because.len()
                invariant
                    i <= self.skipped_because@.len(),
                    text@ == start + Self::reason_lines(self.skipped_because@.take(i as int)),
                decreases self.skipped_because@.len() - i,
            {
                text.append("  ");
                text.append(self.skipped_because[i].as_str());
                text.append("\n");
                proof {
                    let some = self.skipped_because@.take(i + 1);
                    assert(some.drop_last() =~= self.skipped_because@.take(i as int));
                }
                i += 1;
            }
            proof {
                assert(self.skipped_because@.take(i as int) =~= self.skipped_because@);
            }
            text.append("  the measurements above stand; nothing was judged");
            return text;
        }
        text.append(":\n");
        let ghost start = text@;
        let mut i: usize = 0;
        while i < self.checks.len()
            invariant
                i <= self.checks@.len(),
                text@ == start + Self::check_lines(self.checks@.take(i as int)),
            decreases self.checks@.len() - i,
        {
            let check = &self.checks[i];
            text.append("  [");
            if check.met {
                text.append("ok");
            } else {
                text.append("BREACH");
            }
            text.append("] ");
            text.append(check.name.as_str());
            text.append(" limit ");
            text.append(check.limit.as_str());
            text.append(" measured ");
            text.append(check.measured.as_str());
            text.append("\n");
            proof {
                let some = self.checks@.take(i + 1);
                assert(some.drop_last() =~= self.checks@.take(i as int));
                assert(text@ =~= start + Self::check_lines(some));
            }
            i += 1;
        }
        proof {
            assert(self.checks@.take(i as int) =~= self.checks@);
        }
        text
    }
}

/// A budget that did not apply is never breached, whatever was measured.
pub proof fn law_a_skipped_budget_is_not_breached(outcome: BudgetOutcome)
    requires
        outcome.skipped_because@.len() > 0,
    ensures
        !outcome.is_breached(),
{
}

/// Why a text does not match, if it does not.
pub open spec fn text_mismatch(field: Seq<char>, expected: Option<Seq<char>>, actual: Seq<char>) -> Seq<
    Seq<char>,
> {
    match expected {
        Some(expected) => if expected == actual {
            Seq::empty()
        } else {
            seq![field + " is "@ + actual + ", budget describes "@ + expected]
        },
        None => Seq::empty(),
    }
}

/// A truth value that is expected, as it is shown.
pub open spec fn shown(expected: Option<bool>) -> Option<Seq<char>> {
    match expected {
        Some(value) => Some(truth(value)),
        None => None,
    }
}

/// The text that is expected.
pub open spec fn said(expected: Option<String>) -> Option<Seq<char>> {
    match expected {
        Some(text) => Some(text@),
        None => None,
    }
}

/// The size of a display.
pub open spec fn resolution(display: DisplayFingerprint) -> Seq<char> {
    decimal(display.width as nat) + "x"@ + decimal(display.height as nat)
}

/// The sizes of displays.
pub open spec fn resolutions(displays: Seq<DisplayFingerprint>) -> Seq<Seq<char>> {
    Seq::new(displays.len(), |i: int| resolution(displays[i]))
}

/// Texts with commas between them.
pub open spec fn comma_list(list: Seq<Seq<char>>) -> Seq<char>
    decreases list.len(),
{
    if list.len() == 0 {
        Seq::empty()
    } else if list.len() == 1 {
        list[0]
    } else {
        comma_list(list.drop_last()) + ", "@ + list.last()
    }
}

/// Why the displays do not match, if they do not.
pub open spec fn display_mismatch(
    expected: Option<Seq<char>>,
    displays: Seq<DisplayFingerprint>,
) -> Seq<Seq<char>> {
    match expected {
        Some(expected) => if resolutions(displays).contains(expected) {
            Seq::empty()
        } else {
            seq![
                "no attached display is "@ + expected + "; this run had ["@ + comma_list(
                    resolutions(displays),
                ) + "]"@,
            ]
        },
        None => Seq::empty(),
    }
}

/// Why a run was not made on the machine that a budget describes.
pub open spec fn mismatches_of(host: HostMatch, report: BenchmarkReport) -> Seq<Seq<char>> {
    text_mismatch("backend"@, said(host.backend), report.backend@) + text_mismatch(
        "mode"@,
        said(host.mode),
        report.mode@,
    ) + text_mismatch("cursor"@, said(host.cursor), report.cursor@) + text_mismatch(
        "synthetic"@,
        shown(host.synthetic),
        truth(report.synthetic),
    ) + text_mismatch(
        "debug_assertions"@,
        shown(host.debug_assertions),
        truth(report.environment.debug_assertions),
    ) + display_mismatch(said(host.display_resolution), report.environment.displays@)
}

/// Adds why a text does not match, if it does not.
fn note_mismatch(list: &mut Vec<String>, field: &str, expected: Option<&str>, actual: &str)
    ensures
        texts(final(list)@) == texts(old(list)@) + text_mismatch(
            field@,
            match expected {
                Some(expected) => Some(expected@),
                None => None,
            },
            actual@,
        ),
{
    if let Some(expected) = expected {
        if !same(expected, actual) {
            let mut text = field.to_owned();
            text.append(" is ");
            text.append(actual);
            text.append(", budget describes ");
            text.append(expected);
            list.push(text);
            return;
        }
    }
}

/// Adds why a truth value does not match, if it does not.
fn note_truth(list: &mut Vec<String>, field: &str, expected: Option<bool>, actual: bool)
    ensures
        texts(final(list)@) == texts(old(list)@) + text_mismatch(
            field@,
            shown(expected),
            truth(actual),
        ),
{
    let actual = shown_truth(actual);
    match expected {
        Some(value) => {
            let expected = shown_truth(value);
            note_mismatch(list, field, Some(expected.as_str()), actual.as_str())
        },
        None => note_mismatch(list, field, None, actual.as_str()),
    }
}

/// Adds why the displays do not match, if they do not.
fn note_displays(
    list: &mut Vec<String>,
    expected: &Option<String>,
    displays: &Vec<DisplayFingerprint>,
)
    ensures
        texts(final(list)@) == texts(old(list)@) + display_mismatch(said(*expected), displays@),
{
    if let Some(expected) = expected {
        let mut attached: Vec<String> = Vec::new();
        let mut found = false;
        let mut i: usize = 0;
        while i < displays.len()
            invariant
                i <= displays@.len(),
                texts(attached@) == resolutions(displays@).take(i as int),
                found == resolutions(displays@).take(i as int).contains(expected@),
            decreases displays@.len() - i,
        {
            let mut size = decimal_text(displays[i].width as u64);
            size.append("x");
            size.append(decimal_text(displays[i].height as u64).as_str());
            let ghost so_far = resolutions(displays@).take(i as int);
            proof {
                let next = resolutions(displays@).take(i + 1);
                assert(next =~= so_far.push(size@));
                assert(next[i as int] == size@);
            }
            if same(size.as_str(), expected.as_str()) {
                found = true;
            }
            attached.push(size);
            i += 1;
        }
        proof {
            assert(resolutions(displays@).take(i as int) =~= resolutions(displays@));
        }
        if !found {
            let mut text = "no attached display is ".to_owned();
            text.append(expected.as_str());
            text.append("; this run had [");
            text.append(join_texts(&attached, ", ").as_str());
            text.append("]");
            proof {
                lemma_comma_list(attached@);
            }
            list.push(text);
            return;
        }
    }
}

/// Texts joined by commas are a list of texts with commas.
proof fn lemma_comma_list(list: Seq<String>)
    ensures
        joined(list, ", "@) == comma_list(texts(list)),
    decreases list.len(),
{
    if list.len() > 1 {
        lemma_comma_list(list.drop_last());
        assert(texts(list).drop_last() =~= texts(list.drop_last()));
    }
}

/// Why a run was not made on the machine that a budget describes.
fn host_mismatches(host: &HostMatch, report: &BenchmarkReport) -> (list: Vec<String>)
    ensures
        texts(list@) == mismatches_of(*host, *report),
{
    let mut list: Vec<String> = Vec::new();
    note_mismatch(
        &mut list,
        "backend",
        match &host.backend {
            Some(text) => Some(text.as_str()),
            None => None,
        },
        report.backend.as_str(),
    );
    note_mismatch(
        &mut list,
        "mode",
        match &host.mode {
            Some(text) => Some(text.as_str()),
            None => None,
        },
        report.mode.as_str(),
    );
    note_mismatch(
        &mut list,
        "cursor",
        match &host.cursor {
            Some(text) => Some(text.as_str()),
            None => None,
        },
        report.cursor.as_str(),
    );
    note_truth(&mut list, "synthetic", host.synthetic, report.synthetic);
    note_truth(
        &mut list,
        "debug_assertions",
        host.debug_assertions,
        report.environment.debug_assertions,
    );
    note_displays(&mut list, &host.display_resolution, &report.environment.displays);
    list
}

/// The check of a ceiling, where there is one and something to hold against it.
pub open spec fn ceiling(name: Seq<char>, limit: Option<u64>, measured: Option<u64>) -> Seq<Check> {
    match (limit, measured) {
        (Some(limit), Some(measured)) => seq![
            Check {
                name,
                limit: decimal(limit as nat) + " ns"@,
                measured: decimal(measured as nat) + " ns"@,
                met: measured <= limit,
            },
        ],
        _ => Seq::empty(),
    }
}

/// The checks of the ceilings in nanoseconds.
pub open spec fn absolute_checks(budgets: AbsoluteBudgets, report: BenchmarkReport) -> Seq<Check> {
    let cpu = report.cpu_frame_latency;
    ceiling(
        "native frame p50"@,
        budgets.native_frame_p50_ns,
        Some(report.native_frame_latency.p50_ns),
    ) + ceiling(
        "native frame p99"@,
        budgets.native_frame_p99_ns,
        Some(report.native_frame_latency.p99_ns),
    ) + ceiling(
        "cpu frame p50"@,
        budgets.cpu_frame_p50_ns,
        match cpu {
            Some(cpu) => Some(cpu.p50_ns),
            None => None,
        },
    ) + ceiling(
        "cpu frame p99"@,
        budgets.cpu_frame_p99_ns,
        match cpu {
            Some(cpu) => Some(cpu.p99_ns),
            None => None,
        },
    ) + ceiling(
        "trigger-to-dequeue p99"@,
        budgets.trigger_to_dequeue_p99_ns,
        Some(report.trigger_to_dequeue_latency.p99_ns),
    )
}

/// Adds the check of a ceiling, where there is one and something to hold against it.
fn check_ceiling(
    checks: &mut Vec<BudgetCheck>,
    name: &str,
    limit: Option<u64>,
    measured: Option<u64>,
)
    ensures
        checks_in(final(checks)@) == checks_in(old(checks)@) + ceiling(name@, limit, measured),
{
    if let Some(limit) = limit {
        if let Some(measured) = measured {
            let mut limit_text = decimal_text(limit);
            limit_text.append(" ns");
            let mut measured_text = decimal_text(measured);
            measured_text.append(" ns");
            checks.push(
                BudgetCheck {
                    name: name.to_owned(),
                    limit: limit_text,
                    measured: measured_text,
                    met: measured <= limit,
                },
            );
            return;
        }
    }
}

/// The checks of the ceilings in nanoseconds.
fn check_absolute(budgets: &AbsoluteBudgets, report: &BenchmarkReport) -> (checks: Vec<BudgetCheck>)
    ensures
        checks_in(checks@) == absolute_checks(*budgets, *report),
{
    let mut checks: Vec<BudgetCheck> = Vec::new();
    let (cpu_p50, cpu_p99) = match &report.cpu_frame_latency {
        Some(cpu) => (Some(cpu.p50_ns), Some(cpu.p99_ns)),
        None => (None, None),
    };
    check_ceiling(
        &mut checks,
        "native frame p50",
        budgets.native_frame_p50_ns,
        Some(report.native_frame_latency.p50_ns),
    );
    check_ceiling(
        &mut checks,
        "native frame p99",
        budgets.native_frame_p99_ns,
        Some(report.native_frame_latency.p99_ns),
    );
    check_ceiling(&mut checks, "cpu frame p50", budgets.cpu_frame_p50_ns, cpu_p50);
    check_ceiling(&mut checks, "cpu frame p99", budgets.cpu_frame_p99_ns, cpu_p99);
    check_ceiling(
        &mut checks,
        "trigger-to-dequeue p99",
        budgets.trigger_to_dequeue_p99_ns,
        Some(report.trigger_to_dequeue_latency.p99_ns),
    );
    checks
}

/// Whether an outcome is what applying a budget comes to.
pub open spec fn is_outcome(
    outcome: BudgetOutcome,
    budget: BudgetFile,
    report: BenchmarkReport,
    relative: Seq<BudgetCheck>,
) -> bool {
    let reasons = mismatches_of(budget.host, report);
    &&& outcome.host@ == if budget.host.description@.len() == 0 {
        "the documented benchmark host"@
    } else {
        budget.host.description@
    }
    &&& texts(outcome.skipped_because@) == reasons
    &&& checks_in(outcome.checks@) == if reasons.len() > 0 {
        Seq::empty()
    } else {
        absolute_checks(budget.absolute, report) + checks_in(relative)
    }
}

/// Applies a budget to a run. `relative` holds the checks of the ceilings that are ratios.
pub fn evaluate(budget: &BudgetFile, report: &BenchmarkReport, relative: Vec<BudgetCheck>) -> (
    outcome: BudgetOutcome)
    ensures
        is_outcome(outcome, *budget, *report, relative@),
{
    let host = if budget.host.description.as_str().is_empty() {
        "the documented benchmark host".to_owned()
    } else {
        budget.host.description.clone()
    };
    let skipped_because = host_mismatches(&budget.host, report);
    if skipped_because.len() > 0 {
        let checks: Vec<BudgetCheck> = Vec::new();
        proof {
            assert(checks_in(checks@) =~= Seq::<Check>::empty());
        }
        return BudgetOutcome { host, skipped_because, checks };
    }
    let mut checks = check_absolute(&budget.absolute, report);
    let mut more = relative;
    let ghost before = checks_in(checks@);
    checks.append(&mut more);
    proof {
        assert(checks_in(checks@) =~= before + checks_in(relative@));
    }
    BudgetOutcome { host, skipped_because, checks }
}

/// Whether any run that the budget applied to breached it.
pub fn any_breached(outcomes: &Vec<BudgetOutcome>) -> (yes: bool)
    ensures
        yes == exists|i: int| 0 <= i < outcomes@.len() && (#[trigger] outcomes@[i]).is_breached(),
{
    let mut i: usize = 0;
    while i < outcomes.len()
        invariant
            i <= outcomes@.len(),
            forall|j: int| 0 <= j < i ==> !(#[trigger] outcomes@[j]).is_breached(),
        decreases outcomes@.len() - i,
    {
        if outcomes[i].breached() {
            return true;
        }
        i += 1;
    }
    false
}

/// Applies a budget to every run of a set, each on its own: one that breaches it is not averaged
/// away. `relative` holds the checks of the ceilings that are ratios, for each run.
pub fn evaluate_each(
    budget: &BudgetFile,
    reports: &Vec<BenchmarkReport>,
    relative: Vec<Vec<BudgetCheck>>,
) -> (outcomes: Vec<BudgetOutcome>)
    requires
        relative@.len() == reports@.len(),
    ensures
        outcomes@.len() == reports@.len(),
        forall|i: int|
            0 <= i < reports@.len() ==> is_outcome(
                #[trigger] outcomes@[i],
                *budget,
                reports@[i],
                relative@[i]@,
            ),
{
    let mut left = relative;
    let mut outcomes: Vec<BudgetOutcome> = Vec::new();
    let mut i: usize = 0;
    while i < reports.len()
        invariant
            i <= reports@.len(),
            relative@.len() == reports@.len(),
            left@ == relative@.skip(i as int),
            outcomes@.len() == i,
            forall|j: int|
                0 <= j < i ==> is_outcome(
                    #[trigger] outcomes@[j],
                    *budget,
                    reports@[j],
                    relative@[j]@,
                ),
        decreases reports@.len() - i,
    {
        let checks = left.remove(0);
        outcomes.push(evaluate(budget, &reports[i], checks));
        i += 1;
    }
    outcomes
}

/// A budget that names nothing of a machine applies to every run.
pub proof fn law_an_empty_host_matches_anywhere(host: HostMatch, report: BenchmarkReport)
    requires
        host.backend is None,
        host.mode is None,
        host.cursor is None,
        host.synthetic is None,
        host.debug_assertions is None,
        host.display_resolution is None,
    ensures
        mismatches_of(host, report).len() == 0,
{
}

/// What a size is written like.
pub open spec fn is_size(text: Seq<char>, width: int, height: int) -> bool {
    exists|at: int|
        0 <= at < text.len() && #[trigger] text[at] == 'x' && number_in(text.take(at)) == width
            && number_in(text.skip(at + 1)) == height
}

/// A budget applies to a run exactly where all that it says of the machine is so: the backend, the
/// mode, the pointer, whether frames are made up and whether the build checks itself, and a display of
/// the size that it names.
#[verifier::rlimit(40)]
pub proof fn law_a_budget_applies_to_the_machine_it_describes(
    host: HostMatch,
    report: BenchmarkReport,
)
    ensures
        mismatches_of(host, report).len() == 0 <==> {
            &&& host.backend matches Some(text) ==> text@ == report.backend@
            &&& host.mode matches Some(text) ==> text@ == report.mode@
            &&& host.cursor matches Some(text) ==> text@ == report.cursor@
            &&& host.synthetic matches Some(value) ==> value == report.synthetic
            &&& host.debug_assertions matches Some(value) ==> value
                == report.environment.debug_assertions
            &&& host.display_resolution matches Some(text) ==> exists|i: int|
                0 <= i < report.environment.displays@.len() && text@ == resolution(
                    #[trigger] report.environment.displays@[i],
                )
        },
{
    reveal_strlit("true");
    reveal_strlit("false");
    assert(truth(true) != truth(false)) by {
        assert(truth(true).len() == 4 && truth(false).len() == 5);
    }
    let displays = report.environment.displays@;
    if let Some(text) = host.display_resolution {
        if resolutions(displays).contains(text@) {
            let i = choose|i: int|
                0 <= i < resolutions(displays).len() && resolutions(displays)[i] == text@;
            assert(text@ == resolution(displays[i]));
        } else {
            assert forall|i: int| 0 <= i < displays.len() implies text@ != resolution(
                #[trigger] displays[i],
            ) by {
                assert(resolutions(displays)[i] == resolution(displays[i]));
            }
        }
    }
}

/// The size of a display is written with its width first and its height behind it.
pub proof fn law_a_size_is_written_with_both_sides(display: DisplayFingerprint)
    ensures
        is_size(resolution(display), display.width as int, display.height as int),
{
    let (w, h) = (decimal(display.width as nat), decimal(display.height as nat));
    let text = resolution(display);
    reveal_strlit("x");
    law_decimals_read_back(display.width as nat);
    law_decimals_read_back(display.height as nat);
    assert(text[w.len() as int] == 'x');
    assert(text.take(w.len() as int) =~= w);
    assert(text.skip(w.len() as int + 1) =~= h);
}

/// Whether a figure is over a ceiling that is set for it.
pub open spec fn is_over(limit: Option<u64>, measured: u64) -> bool {
    limit is Some && measured > limit->Some_0
}

/// A run breaches a budget that applies to it exactly where a figure is over the ceiling that is set
/// for that very figure, or a check of a ratio failed: the median and the slow tail of native frames,
/// those of frames for the processor where there were any, and the slow tail of the triggers.
pub proof fn law_a_breach_is_a_figure_over_its_own_ceiling(
    outcome: BudgetOutcome,
    budget: BudgetFile,
    report: BenchmarkReport,
    relative: Seq<BudgetCheck>,
)
    requires
        is_outcome(outcome, budget, report, relative),
        mismatches_of(budget.host, report).len() == 0,
    ensures
        outcome.is_breached() <==> {
            ||| is_over(budget.absolute.native_frame_p50_ns, report.native_frame_latency.p50_ns)
            ||| is_over(budget.absolute.native_frame_p99_ns, report.native_frame_latency.p99_ns)
            ||| report.cpu_frame_latency is Some && is_over(
                budget.absolute.cpu_frame_p50_ns,
                report.cpu_frame_latency->Some_0.p50_ns,
            )
            ||| report.cpu_frame_latency is Some && is_over(
                budget.absolute.cpu_frame_p99_ns,
                report.cpu_frame_latency->Some_0.p99_ns,
            )
            ||| is_over(
                budget.absolute.trigger_to_dequeue_p99_ns,
                report.trigger_to_dequeue_latency.p99_ns,
            )
            ||| exists|i: int| 0 <= i < relative.len() && !(#[trigger] relative[i]).met
        },
{
    let all = checks_in(outcome.checks@);
    let absolute = absolute_checks(budget.absolute, report);
    assert(texts(outcome.skipped_because@).len() == 0);
    let (a, b, c, d, e) = (
        ceiling(
            "native frame p50"@,
            budget.absolute.native_frame_p50_ns,
            Some(report.native_frame_latency.p50_ns),
        ),
        ceiling(
            "native frame p99"@,
            budget.absolute.native_frame_p99_ns,
            Some(report.native_frame_latency.p99_ns),
        ),
        ceiling(
            "cpu frame p50"@,
            budget.absolute.cpu_frame_p50_ns,
            cpu_p50_in(report),
        ),
        ceiling("cpu frame p99"@, budget.absolute.cpu_frame_p99_ns, cpu_p99_in(report)),
        ceiling(
            "trigger-to-dequeue p99"@,
            budget.absolute.trigger_to_dequeue_p99_ns,
            Some(report.trigger_to_dequeue_latency.p99_ns),
        ),
    );
    assert(absolute == a + b + c + d + e);
    lemma_unmet_in_either(a, b);
    lemma_unmet_in_either(a + b, c);
    lemma_unmet_in_either(a + b + c, d);
    lemma_unmet_in_either(a + b + c + d, e);
    lemma_unmet_in_either(absolute, checks_in(relative));
    lemma_unmet_ceiling(
        "native frame p50"@,
        budget.absolute.native_frame_p50_ns,
        Some(report.native_frame_latency.p50_ns),
    );
    lemma_unmet_ceiling(
        "native frame p99"@,
        budget.absolute.native_frame_p99_ns,
        Some(report.native_frame_latency.p99_ns),
    );
    lemma_unmet_ceiling("cpu frame p50"@, budget.absolute.cpu_frame_p50_ns, cpu_p50_in(report));
    lemma_unmet_ceiling("cpu frame p99"@, budget.absolute.cpu_frame_p99_ns, cpu_p99_in(report));
    lemma_unmet_ceiling(
        "trigger-to-dequeue p99"@,
        budget.absolute.trigger_to_dequeue_p99_ns,
        Some(report.trigger_to_dequeue_latency.p99_ns),
    );
    if has_unmet(all) {
        let i = choose|i: int| 0 <= i < all.len() && !(#[trigger] all[i]).met;
        assert(!outcome.checks@[i].met);
    }
    if outcome.is_breached() {
        let i = choose|i: int| 0 <= i < outcome.checks@.len() && !(#[trigger] outcome.checks@[i]).met;
        assert(!all[i].met);
    }
    if has_unmet(checks_in(relative)) {
        let i = choose|i: int|
            0 <= i < checks_in(relative).len() && !(#[trigger] checks_in(relative)[i]).met;
        assert(!relative[i].met);
    }
    if exists|i: int| 0 <= i < relative.len() && !(#[trigger] relative[i]).met {
        let i = choose|i: int| 0 <= i < relative.len() && !(#[trigger] relative[i]).met;
        assert(!checks_in(relative)[i].met);
    }
}

/// The median of the frames for the processor, where there were any.
spec fn cpu_p50_in(report: BenchmarkReport) -> Option<u64> {
    match report.cpu_frame_latency {
        Some(cpu) => Some(cpu.p50_ns),
        None => None,
    }
}

/// The slow tail of the frames for the processor, where there were any.
spec fn cpu_p99_in(report: BenchmarkReport) -> Option<u64> {
    match report.cpu_frame_latency {
        Some(cpu) => Some(cpu.p99_ns),
        None => None,
    }
}

/// Whether a check failed.
pub open spec fn has_unmet(checks: Seq<Check>) -> bool {
    exists|i: int| 0 <= i < checks.len() && !(#[trigger] checks[i]).met
}

/// A check failed in two lists together where it did in one of them.
proof fn lemma_unmet_in_either(a: Seq<Check>, b: Seq<Check>)
    ensures
        has_unmet(a + b) <==> has_unmet(a) || has_unmet(b),
{
    let both = a + b;
    if has_unmet(a) {
        let i = choose|i: int| 0 <= i < a.len() && !(#[trigger] a[i]).met;
        assert(!both[i].met);
    }
    if has_unmet(b) {
        let i = choose|i: int| 0 <= i < b.len() && !(#[trigger] b[i]).met;
        assert(!both[a.len() + i].met);
    }
    if has_unmet(both) {
        let i = choose|i: int| 0 <= i < both.len() && !(#[trigger] both[i]).met;
        if i < a.len() {
            assert(!a[i].met);
        } else {
            assert(!b[i - a.len()].met);
        }
    }
}

/// The check of a ceiling failed where the figure is over it.
proof fn lemma_unmet_ceiling(name: Seq<char>, limit: Option<u64>, measured: Option<u64>)
    ensures
        has_unmet(ceiling(name, limit, measured)) <==> measured is Some && is_over(
            limit,
            measured->Some_0,
        ),
{
    let checks = ceiling(name, limit, measured);
    if limit is Some && measured is Some {
        assert(checks[0].met == (measured->Some_0 <= limit->Some_0));
    }
}

/// Whether a check shows a ceiling and a figure, in nanoseconds.
pub open spec fn shows(check: Check, name: Seq<char>, limit: u64, measured: u64) -> bool {
    &&& check.name == name
    &&& exists|digits: Seq<char>|
        number_in(digits) == limit && check.limit == #[trigger] (digits + " ns"@)
    &&& exists|digits: Seq<char>|
        number_in(digits) == measured && check.measured == #[trigger] (digits + " ns"@)
    &&& check.met == (measured <= limit)
}

/// Each ceiling that is set is shown with the very figure that it is set for, and the figures are
/// shown in the order of the stages.
pub proof fn law_each_ceiling_is_shown_with_its_own_figure(
    budgets: AbsoluteBudgets,
    report: BenchmarkReport,
)
    requires
        budgets.native_frame_p50_ns is Some,
        budgets.native_frame_p99_ns is Some,
        budgets.cpu_frame_p50_ns is Some,
        budgets.cpu_frame_p99_ns is Some,
        budgets.trigger_to_dequeue_p99_ns is Some,
    ensures
        ({
            let checks = absolute_checks(budgets, report);
            let native = report.native_frame_latency;
            let trigger = report.trigger_to_dequeue_latency;
            let last = checks.len() - 1;
            &&& checks.len() == if report.cpu_frame_latency is Some {
                5int
            } else {
                3
            }
            &&& shows(checks[0], "native frame p50"@, budgets.native_frame_p50_ns->Some_0, native.p50_ns)
            &&& shows(checks[1], "native frame p99"@, budgets.native_frame_p99_ns->Some_0, native.p99_ns)
            &&& report.cpu_frame_latency matches Some(cpu) ==> shows(
                checks[2],
                "cpu frame p50"@,
                budgets.cpu_frame_p50_ns->Some_0,
                cpu.p50_ns,
            ) && shows(
                checks[3],
                "cpu frame p99"@,
                budgets.cpu_frame_p99_ns->Some_0,
                cpu.p99_ns,
            )
            &&& shows(
                checks[last],
                "trigger-to-dequeue p99"@,
                budgets.trigger_to_dequeue_p99_ns->Some_0,
                trigger.p99_ns,
            )
        }),
{
    lemma_shown_ceiling(
        "native frame p50"@,
        budgets.native_frame_p50_ns->Some_0,
        report.native_frame_latency.p50_ns,
    );
    lemma_shown_ceiling(
        "native frame p99"@,
        budgets.native_frame_p99_ns->Some_0,
        report.native_frame_latency.p99_ns,
    );
    if let Some(cpu) = report.cpu_frame_latency {
        lemma_shown_ceiling("cpu frame p50"@, budgets.cpu_frame_p50_ns->Some_0, cpu.p50_ns);
        lemma_shown_ceiling("cpu frame p99"@, budgets.cpu_frame_p99_ns->Some_0, cpu.p99_ns);
    }
    lemma_shown_ceiling(
        "trigger-to-dequeue p99"@,
        budgets.trigger_to_dequeue_p99_ns->Some_0,
        report.trigger_to_dequeue_latency.p99_ns,
    );
}

/// The check of a ceiling shows the ceiling and the figure.
proof fn lemma_shown_ceiling(name: Seq<char>, limit: u64, measured: u64)
    ensures
        ceiling(name, Some(limit), Some(measured)).len() == 1,
        shows(ceiling(name, Some(limit), Some(measured))[0], name, limit, measured),
{
    law_decimals_read_back(limit as nat);
    law_decimals_read_back(measured as nat);
    let check = ceiling(name, Some(limit), Some(measured))[0];
    assert(check.limit == decimal(limit as nat) + " ns"@);
    assert(check.measured == decimal(measured as nat) + " ns"@);
}

/// Budgets that were not applied are reported under the host that they describe, with every reason.
pub proof fn law_skipped_budgets_are_reported_with_their_reasons(outcome: BudgetOutcome, i: int)
    requires
        0 <= i < outcome.skipped_because@.len(),
    ensures
        starts_with(outcome.text(), "budgets for "@ + outcome.host@ + " were not applied"@),
        holds(outcome.text(), "  "@ + outcome.skipped_because@[i]@ + "\n"@),
        ends_with(outcome.text(), "  the measurements above stand; nothing was judged"@),
{
    let text = outcome.text();
    let start = "budgets for "@ + outcome.host@;
    let words = " were not applied to this run:\n"@;
    let lines = BudgetOutcome::reason_lines(outcome.skipped_because@);
    let end = "  the measurements above stand; nothing was judged"@;
    let whole = start + words + lines;
    assert(text == whole + end);
    assert((whole + end).skip(whole.len() as int) =~= end);
    assert(starts_with(text, start + " were not applied"@)) by {
        reveal_strlit(" were not applied to this run:\n");
        reveal_strlit(" were not applied");
        let part = start + " were not applied"@;
        assert(text.take(part.len() as int) =~= part);
    }
    let line = "  "@ + outcome.skipped_because@[i]@ + "\n"@;
    lemma_reasons_are_there(outcome.skipped_because@, i);
    lemma_holds_within(start + words, lines, end, line);
}

/// Budgets that were applied are reported under the host that they describe, with every check, its limit
/// and its figure, and whether it was met.
pub proof fn law_applied_budgets_are_reported_with_their_checks(outcome: BudgetOutcome, i: int)
    requires
        outcome.skipped_because@.len() == 0,
        0 <= i < outcome.checks@.len(),
    ensures
        starts_with(outcome.text(), "budgets for "@ + outcome.host@ + ":\n"@),
        holds(outcome.text(), shown_check(outcome.checks@[i])),
{
    let text = outcome.text();
    let start = "budgets for "@ + outcome.host@ + ":\n"@;
    let lines = BudgetOutcome::check_lines(outcome.checks@);
    assert((start + lines).take(start.len() as int) =~= start);
    let line = shown_check(outcome.checks@[i]);
    lemma_checks_are_there(outcome.checks@, i);
    lemma_holds_within(start, lines, Seq::empty(), line);
    assert(start + lines + Seq::<char>::empty() =~= start + lines);
}

/// The line of a check.
pub open spec fn shown_check(check: BudgetCheck) -> Seq<char> {
    let rest = check.name@ + " limit "@ + check.limit@ + " measured "@ + check.measured@ + "\n"@;
    if check.met {
        "  [ok] "@ + rest
    } else {
        "  [BREACH] "@ + rest
    }
}

/// What stands in a part of a text stands in the text.
proof fn lemma_holds_within(
    before: Seq<char>,
    part: Seq<char>,
    behind: Seq<char>,
    pattern: Seq<char>,
)
    requires
        holds(part, pattern),
    ensures
        holds(before + part + behind, pattern),
{
    let i = choose|i: int| #[trigger] stands_at(part, i, pattern);
    let whole = before + part + behind;
    let at = before.len() + i;
    assert(whole.subrange(at, at + pattern.len()) =~= part.subrange(i, i + pattern.len()));
    assert(stands_at(whole, at, pattern));
}

/// Every reason has its line.
proof fn lemma_reasons_are_there(reasons: Seq<String>, i: int)
    requires
        0 <= i < reasons.len(),
    ensures
        holds(BudgetOutcome::reason_lines(reasons), "  "@ + reasons[i]@ + "\n"@),
    decreases reasons.len(),
{
    let front = BudgetOutcome::reason_lines(reasons.drop_last());
    let line = "  "@ + reasons.last()@ + "\n"@;
    assert(BudgetOutcome::reason_lines(reasons) =~= front + line);
    lemma_holds_on(front, line);
    if i < reasons.len() - 1 {
        lemma_reasons_are_there(reasons.drop_last(), i);
        assert(reasons.drop_last()[i] == reasons[i]);
    }
}

/// Every check has its line.
proof fn lemma_checks_are_there(checks: Seq<BudgetCheck>, i: int)
    requires
        0 <= i < checks.len(),
    ensures
        holds(BudgetOutcome::check_lines(checks), shown_check(checks[i])),
    decreases checks.len(),
{
    let front = BudgetOutcome::check_lines(checks.drop_last());
    let line = shown_check(checks.last());
    reveal_strlit("  [");
    reveal_strlit("ok");
    reveal_strlit("BREACH");
    reveal_strlit("] ");
    reveal_strlit("  [ok] ");
    reveal_strlit("  [BREACH] ");
    assert("  [ok] "@ =~= "  ["@ + "ok"@ + "] "@);
    assert("  [BREACH] "@ =~= "  ["@ + "BREACH"@ + "] "@);
    assert(BudgetOutcome::check_lines(checks) =~= front + line);
    lemma_holds_on(front, line);
    if i < checks.len() - 1 {
        lemma_checks_are_there(checks.drop_last(), i);
        assert(checks.drop_last()[i] == checks[i]);
    }
}

/// What became of budgets is told of the host that they describe, with the reasons why they were not
/// applied; and only where there are none was anything checked, each ceiling first and then each
/// comparison.
pub proof fn law_budgets_are_applied_or_skipped(
    outcome: BudgetOutcome,
    budget: BudgetFile,
    report: BenchmarkReport,
    relative: Seq<BudgetCheck>,
)
    requires
        is_outcome(outcome, budget, report, relative),
    ensures
        budget.host.description@.len() > 0 ==> outcome.host@ == budget.host.description@,
        budget.host.description@.len() == 0 ==> outcome.host@ == "the documented benchmark host"@,
        outcome.skipped_because@.len() > 0 <==> mismatches_of(budget.host, report).len() > 0,
        forall|i: int|
            0 <= i < outcome.skipped_because@.len() ==> (#[trigger] outcome.skipped_because@[i])@
                == mismatches_of(budget.host, report)[i],
        outcome.skipped_because@.len() > 0 ==> outcome.checks@.len() == 0,
        outcome.skipped_because@.len() == 0 ==> checks_in(outcome.checks@) == absolute_checks(
            budget.absolute,
            report,
        ) + checks_in(relative),
{
    let reasons = texts(outcome.skipped_because@);
    assert(reasons.len() == outcome.skipped_because@.len());
    assert forall|i: int| 0 <= i < outcome.skipped_because@.len() implies (
    #[trigger] outcome.skipped_because@[i])@ == mismatches_of(budget.host, report)[i] by {
        assert(reasons[i] == outcome.skipped_because@[i]@);
    }
    assert(checks_in(outcome.checks@).len() == outcome.checks@.len());
}

} // verus!
