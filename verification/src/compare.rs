//! Holding a run against a baseline, and refusing to where the two measured different things.
use vstd::prelude::*;
use vstd::string::*;

use crate::benchmark::{
    all_differences, asked, count_of, join_texts, joined, lemma_all_differences,
    name_all_differences, BenchmarkReport, RunCompatibility,
};
use crate::error::AppError;
use crate::fingerprint::{identity, EnvironmentFingerprint};
use crate::json::{has_key, json_document, parse_value, value_keys};
use crate::output_metrics::LatencySummary;
use crate::table::{ascending, lemma_precedes_irreflexive, TextMap};
use crate::text::{decimal, decimal_text, texts};

verus! {

/// One side of a comparison: a run, or several of the same question.
#[derive(Debug)]
pub struct RunSet {
    pub label: String,
    pub runs: Vec<BenchmarkReport>,
}

/// What a file of benchmark results holds.
#[derive(Clone, Copy, Debug, Eq, PartialEq, Structural)]
pub enum RunFileShape {
    /// A set of runs inside an envelope, under `repeated`.
    Enveloped,
    /// A set of runs, under `runs`.
    Several,
    /// One run.
    Single,
}

/// What a value with these keys holds.
pub open spec fn shape_with(keys: Set<Seq<char>>) -> RunFileShape {
    if keys.contains("repeated"@) {
        RunFileShape::Enveloped
    } else if keys.contains("runs"@) {
        RunFileShape::Several
    } else {
        RunFileShape::Single
    }
}

/// What a value holds, told by its shape: nobody has to say which kind of file it came from.
pub fn shape_of(value: &serde_json::Value) -> (shape: RunFileShape)
    ensures
        shape == shape_with(value_keys(*value)),
{
    if has_key(value, "repeated") {
        RunFileShape::Enveloped
    } else if has_key(value, "runs") {
        RunFileShape::Several
    } else {
        RunFileShape::Single
    }
}

/// What the text of a file holds, told by its shape, or why it is no JSON at all.
pub fn run_file_shape(text: &str) -> (result: Result<RunFileShape, String>)
    ensures
        match json_document(text@) {
            Ok(keys) => result == Ok::<RunFileShape, String>(shape_with(keys)),
            Err(fault) => result matches Err(message) && message@ == fault,
        },
{
    match parse_value(text) {
        Ok(value) => Ok(shape_of(&value)),
        Err(message) => Err(message),
    }
}

/// The error of a file that could not be read.
pub fn unreadable(label: &str, error: &str) -> (failure: AppError)
    ensures
        failure matches AppError::InvalidArgument(text) && text@ == "cannot read "@ + label@ + ": "@
            + error@,
{
    let mut text = "cannot read ".to_owned();
    text.append(label);
    text.append(": ");
    text.append(error);
    AppError::InvalidArgument(text)
}

/// The error of a file that holds no JSON.
pub fn not_json(label: &str, fault: &str) -> (failure: AppError)
    ensures
        failure matches AppError::InvalidArgument(text) && text@ == label@
            + " is not benchmark JSON: "@ + fault@,
{
    let mut text = label.to_owned();
    text.append(" is not benchmark JSON: ");
    text.append(fault);
    AppError::InvalidArgument(text)
}

/// The error of a file that holds something else than runs.
pub fn not_runs(label: &str, fault: &str) -> (failure: AppError)
    ensures
        failure matches AppError::InvalidArgument(text) && text@ == label@
            + " is not a benchmark report or repeat set: "@ + fault@,
{
    let mut text = label.to_owned();
    text.append(" is not a benchmark report or repeat set: ");
    text.append(fault);
    AppError::InvalidArgument(text)
}

/// Texts with semicolons between them.
pub open spec fn semicolon_list(list: Seq<Seq<char>>) -> Seq<char>
    decreases list.len(),
{
    if list.len() == 0 {
        Seq::empty()
    } else if list.len() == 1 {
        list[0]
    } else {
        semicolon_list(list.drop_last()) + "; "@ + list.last()
    }
}

/// Texts joined by semicolons are a list of texts with semicolons.
proof fn lemma_semicolon_list(list: Seq<String>)
    ensures
        joined(list, "; "@) == semicolon_list(texts(list)),
    decreases list.len(),
{
    if list.len() > 1 {
        lemma_semicolon_list(list.drop_last());
        assert(texts(list).drop_last() =~= texts(list.drop_last()));
    }
}

/// The first run that asked something else than the first one, or ran on another machine.
pub open spec fn first_stranger(runs: Seq<BenchmarkReport>, from: int) -> int
    decreases runs.len() - from,
{
    if from >= runs.len() {
        runs.len() as int
    } else if all_differences(runs[0], runs[from]).len() > 0 {
        from
    } else {
        first_stranger(runs, from + 1)
    }
}

/// Why runs cannot be one side of a comparison: there are none, or one of them asked something else
/// or ran on another machine.
pub open spec fn set_fault(label: Seq<char>, runs: Seq<BenchmarkReport>) -> Option<Seq<char>> {
    let stranger = first_stranger(runs, 1);
    if runs.len() == 0 {
        Some(label + " holds no runs to compare"@)
    } else if stranger < runs.len() {
        Some(
            label + " is not a comparable set: run "@ + decimal((stranger + 1) as nat)
                + " differs in "@ + semicolon_list(all_differences(runs[0], runs[stranger])),
        )
    } else {
        None
    }
}

impl RunSet {
    /// Takes runs as one side of a comparison. A set that disagrees with itself is refused: its
    /// spread would be the spread of two questions, or of two machines.
    pub fn load(label: String, runs: Vec<BenchmarkReport>) -> (result: Result<RunSet, AppError>)
        ensures
            match set_fault(label@, runs@) {
                Some(message) => result matches Err(AppError::InvalidArgument(text)) && text@
                    == message,
                None => result == Ok::<RunSet, AppError>(RunSet { label, runs }),
            },
    {
        if runs.len() == 0 {
            let mut text = label;
            text.append(" holds no runs to compare");
            return Err(AppError::InvalidArgument(text));
        }
        let count: usize = runs.len();
        let mut i: usize = 1;
        while i < count
            invariant
                1 <= i <= count,
                count == runs@.len(),
                first_stranger(runs@, 1) == first_stranger(runs@, i as int),
            decreases count - i,
        {
            let differences = name_all_differences(&runs[0], &runs[i]);
            if differences.len() > 0 {
                let mut text = label;
                text.append(" is not a comparable set: run ");
                text.append(decimal_text(i as u64 + 1).as_str());
                text.append(" differs in ");
                text.append(join_texts(&differences, "; ").as_str());
                proof {
                    lemma_semicolon_list(differences@);
                }
                return Err(AppError::InvalidArgument(text));
            }
            i += 1;
        }
        Ok(RunSet { label, runs })
    }

    /// What became of the pointer over all runs.
    pub fn cursor_outcomes(&self) -> (totals: TextMap<usize>)
        ensures
            forall|name: Seq<char>|
                {
                    &&& #[trigger] totals@.dom().contains(name) == is_counted(self.runs@, name)
                    &&& totals@.dom().contains(name) ==> totals@[name] == capped(
                        total_of(self.runs@, name),
                    )
                },
    {
        let mut totals: TextMap<usize> = TextMap::new();
        let mut i: usize = 0;
        while i < self.runs.len()
            invariant
                i <= self.runs@.len(),
                totals_match(totals@, self.runs@.take(i as int)),
            decreases self.runs@.len() - i,
        {
            let counts = &self.runs[i].cursor_outcomes;
            add_counts(&mut totals, counts, Ghost(self.runs@.take(i as int)));
            proof {
                let next = self.runs@.take(i + 1);
                assert(next.drop_last() =~= self.runs@.take(i as int));
            }
            i += 1;
        }
        proof {
            assert(self.runs@.take(i as int) =~= self.runs@);
        }
        totals
    }
}

/// The count of a name over all runs.
pub open spec fn total_of(runs: Seq<BenchmarkReport>, name: Seq<char>) -> int
    decreases runs.len(),
{
    if runs.len() == 0 {
        0
    } else {
        total_of(runs.drop_last(), name) + count_of(runs.last().cursor_outcomes@, name)
    }
}

/// Whether any run counts under a name.
pub open spec fn is_counted(runs: Seq<BenchmarkReport>, name: Seq<char>) -> bool
    decreases runs.len(),
{
    runs.len() > 0 && (is_counted(runs.drop_last(), name)
        || runs.last().cursor_outcomes@.dom().contains(name))
}

/// A count, no more than can be counted.
pub open spec fn capped(count: int) -> usize {
    if count > usize::MAX {
        usize::MAX
    } else {
        count as usize
    }
}

/// Whether totals are those of runs.
pub open spec fn totals_match(totals: Map<Seq<char>, usize>, runs: Seq<BenchmarkReport>) -> bool {
    forall|name: Seq<char>|
        {
            &&& #[trigger] totals.dom().contains(name) == is_counted(runs, name)
            &&& totals.dom().contains(name) ==> totals[name] == capped(total_of(runs, name))
        }
}

/// A total is not negative, and nothing where no run counts.
proof fn lemma_total(runs: Seq<BenchmarkReport>, name: Seq<char>)
    ensures
        total_of(runs, name) >= 0,
        !is_counted(runs, name) ==> total_of(runs, name) == 0,
    decreases runs.len(),
{
    if runs.len() > 0 {
        lemma_total(runs.drop_last(), name);
    }
}

/// Adds the counts of one more run.
fn add_counts(
    totals: &mut TextMap<usize>,
    counts: &TextMap<usize>,
    Ghost(runs): Ghost<Seq<BenchmarkReport>>,
)
    requires
        totals_match(old(totals)@, runs),
    ensures
        forall|name: Seq<char>|
            {
                &&& #[trigger] final(totals)@.dom().contains(name) == (is_counted(runs, name)
                    || counts@.dom().contains(name))
                &&& final(totals)@.dom().contains(name) ==> final(totals)@[name] == capped(
                    total_of(runs, name) + count_of(counts@, name),
                )
            },
{
    let length: usize = counts.len();
    let ghost keys = counts.keys();
    let ghost before = totals@;
    let mut i: usize = 0;
    while i < length
        invariant
            i <= length,
            length == keys.len(),
            keys == counts.keys(),
            before == old(totals)@,
            totals_match(before, runs),
            ascending(keys),
            forall|name: Seq<char>|
                {
                    let seen = keys.take(i as int).contains(name);
                    &&& #[trigger] totals@.dom().contains(name) == (is_counted(runs, name) || seen)
                    &&& totals@.dom().contains(name) ==> totals@[name] == capped(
                        total_of(runs, name) + if seen {
                            count_of(counts@, name)
                        } else {
                            0
                        },
                    )
                },
        decreases length - i,
    {
        let key = counts.key_at(i);
        let count: usize = *counts.value_at(i);
        let sum: usize = match totals.get(key.as_str()) {
            Some(total) => total.saturating_add(count),
            None => count,
        };
        let _ = totals.insert(key.clone(), sum);
        proof {
            let seen = keys.take(i as int);
            let next = keys.take(i + 1);
            if seen.contains(key@) {
                lemma_precedes_irreflexive(key@);
            }
            lemma_total(runs, key@);
            assert forall|name: Seq<char>|
                {
                    let now_seen = next.contains(name);
                    &&& #[trigger] totals@.dom().contains(name) == (is_counted(runs, name)
                        || now_seen)
                    &&& totals@.dom().contains(name) ==> totals@[name] == capped(
                        total_of(runs, name) + if now_seen {
                            count_of(counts@, name)
                        } else {
                            0
                        },
                    )
                } by {
                if name == key@ {
                    assert(next[i as int] == name);
                }
            }
        }
        i += 1;
    }
    proof {
        assert(keys.take(i as int) =~= keys);
    }
}

/// A part of what a run measures.
#[derive(Clone, Copy, Debug, Eq, PartialEq, Structural)]
pub enum Stage {
    TriggerToDequeue,
    NativeFrame,
    CpuFrame,
    Readback,
    FrameAge,
}

/// A place in the spread of a stage.
#[derive(Clone, Copy, Debug, Eq, PartialEq, Structural)]
pub enum Percentile {
    P50,
    P95,
}

impl Stage {
    /// All stages, in the order in which they are reported.
    pub open spec fn all() -> Seq<Stage> {
        seq![
            Stage::TriggerToDequeue,
            Stage::NativeFrame,
            Stage::CpuFrame,
            Stage::Readback,
            Stage::FrameAge,
        ]
    }

    /// All stages, in the order in which they are reported.
    pub fn every() -> (stages: Vec<Stage>)
        ensures
            stages@ == Self::all(),
    {
        let mut stages: Vec<Stage> = Vec::new();
        stages.push(Stage::TriggerToDequeue);
        stages.push(Stage::NativeFrame);
        stages.push(Stage::CpuFrame);
        stages.push(Stage::Readback);
        stages.push(Stage::FrameAge);
        stages
    }

    /// What the stage is called in reports.
    pub fn name(self) -> (name: &'static str)
        ensures
            name@ == match self {
                Stage::TriggerToDequeue => "trigger_to_dequeue"@,
                Stage::NativeFrame => "native_frame"@,
                Stage::CpuFrame => "cpu_frame"@,
                Stage::Readback => "readback"@,
                Stage::FrameAge => "frame_age"@,
            },
    {
        match self {
            Stage::TriggerToDequeue => "trigger_to_dequeue",
            Stage::NativeFrame => "native_frame",
            Stage::CpuFrame => "cpu_frame",
            Stage::Readback => "readback",
            Stage::FrameAge => "frame_age",
        }
    }

    /// What a run measured of the stage.
    pub open spec fn summary(self, run: BenchmarkReport) -> Option<LatencySummary> {
        match self {
            Stage::TriggerToDequeue => Some(run.trigger_to_dequeue_latency),
            Stage::NativeFrame => Some(run.native_frame_latency),
            Stage::CpuFrame => run.cpu_frame_latency,
            Stage::Readback => run.readback_latency,
            Stage::FrameAge => Some(run.frame_age),
        }
    }

    /// What a run measured of the stage.
    pub fn summary_of(self, run: &BenchmarkReport) -> (summary: Option<LatencySummary>)
        ensures
            summary == self.summary(*run),
    {
        match self {
            Stage::TriggerToDequeue => Some(run.trigger_to_dequeue_latency),
            Stage::NativeFrame => Some(run.native_frame_latency),
            Stage::CpuFrame => run.cpu_frame_latency,
            Stage::Readback => run.readback_latency,
            Stage::FrameAge => Some(run.frame_age),
        }
    }
}

/// One figure of a summary.
pub open spec fn figure(summary: LatencySummary, percentile: Percentile) -> u64 {
    match percentile {
        Percentile::P50 => summary.p50_ns,
        Percentile::P95 => summary.p95_ns,
    }
}

/// The figures of a stage, of the runs that measured it.
pub open spec fn figures(runs: Seq<BenchmarkReport>, stage: Stage, percentile: Percentile) -> Seq<u64>
    decreases runs.len(),
{
    if runs.len() == 0 {
        Seq::empty()
    } else {
        match stage.summary(runs.last()) {
            Some(summary) => figures(runs.drop_last(), stage, percentile).push(
                figure(summary, percentile),
            ),
            None => figures(runs.drop_last(), stage, percentile),
        }
    }
}

/// The figures of a stage, of the runs that measured it.
pub fn values(runs: &Vec<BenchmarkReport>, stage: Stage, percentile: Percentile) -> (list: Vec<u64>)
    ensures
        list@ == figures(runs@, stage, percentile),
{
    let mut list: Vec<u64> = Vec::new();
    let mut i: usize = 0;
    while i < runs.len()
        invariant
            i <= runs@.len(),
            list@ == figures(runs@.take(i as int), stage, percentile),
        decreases runs@.len() - i,
    {
        proof {
            assert(runs@.take(i + 1).drop_last() =~= runs@.take(i as int));
        }
        if let Some(summary) = stage.summary_of(&runs[i]) {
            list.push(
                match percentile {
                    Percentile::P50 => summary.p50_ns,
                    Percentile::P95 => summary.p95_ns,
                },
            );
        }
        i += 1;
    }
    proof {
        assert(runs@.take(i as int) =~= runs@);
    }
    list
}

/// How many figures are at most some value.
pub open spec fn at_most(list: Seq<u64>, value: u64) -> int
    decreases list.len(),
{
    if list.len() == 0 {
        0
    } else {
        at_most(list.drop_last(), value) + if list.last() <= value {
            1int
        } else {
            0
        }
    }
}

/// How many figures are below some value.
pub open spec fn below(list: Seq<u64>, value: u64) -> int
    decreases list.len(),
{
    if list.len() == 0 {
        0
    } else {
        below(list.drop_last(), value) + if list.last() < value {
            1int
        } else {
            0
        }
    }
}

/// Whether a value is the middle one of some figures: the one that would stand there if they were
/// put in order, the upper of two.
pub open spec fn is_middle(list: Seq<u64>, value: u64) -> bool {
    &&& list.contains(value)
    &&& below(list, value) <= list.len() / 2
    &&& at_most(list, value) > list.len() / 2
}

/// How many figures are at most some value.
fn count_at_most(list: &Vec<u64>, value: u64) -> (count: usize)
    ensures
        count == at_most(list@, value),
{
    let mut count: usize = 0;
    let mut i: usize = 0;
    while i < list.len()
        invariant
            i <= list@.len(),
            count <= i,
            count == at_most(list@.take(i as int), value),
        decreases list@.len() - i,
    {
        proof {
            assert(list@.take(i + 1).drop_last() =~= list@.take(i as int));
        }
        if list[i] <= value {
            count += 1;
        }
        i += 1;
    }
    proof {
        assert(list@.take(i as int) =~= list@);
    }
    count
}

/// All figures are at most one that none exceeds.
proof fn lemma_at_most_all(list: Seq<u64>, value: u64)
    requires
        forall|i: int| 0 <= i < list.len() ==> #[trigger] list[i] <= value,
    ensures
        at_most(list, value) == list.len(),
    decreases list.len(),
{
    if list.len() > 0 {
        lemma_at_most_all(list.drop_last(), value);
    }
}

/// Where no figure lies between two values, as many are below the upper as are at most the lower.
proof fn lemma_nothing_between(list: Seq<u64>, lower: u64, upper: u64)
    requires
        lower < upper,
        forall|i: int| 0 <= i < list.len() ==> #[trigger] list[i] <= lower || list[i] >= upper,
    ensures
        below(list, upper) == at_most(list, lower),
    decreases list.len(),
{
    if list.len() > 0 {
        lemma_nothing_between(list.drop_last(), lower, upper);
    }
}

/// Among figures of which one is below a value, there is a largest that is.
proof fn lemma_largest_below(list: Seq<u64>, value: u64) -> (largest: u64)
    requires
        below(list, value) > 0,
    ensures
        list.contains(largest),
        largest < value,
        forall|i: int| 0 <= i < list.len() ==> #[trigger] list[i] <= largest || list[i] >= value,
    decreases list.len(),
{
    let rest = list.drop_last();
    let last = list.last();
    if below(rest, value) > 0 {
        let best = lemma_largest_below(rest, value);
        let largest = if last < value && last > best {
            last
        } else {
            best
        };
        assert forall|i: int| 0 <= i < list.len() implies #[trigger] list[i] <= largest || list[i]
            >= value by {
            if i < rest.len() {
                assert(rest[i] <= best || rest[i] >= value);
            }
        }
        largest
    } else {
        lemma_none_below(rest, value);
        assert forall|i: int| 0 <= i < list.len() implies #[trigger] list[i] <= last || list[i]
            >= value by {
            if i < rest.len() {
                assert(rest[i] >= value);
            }
        }
        last
    }
}

/// Where no figure is below a value, none is.
proof fn lemma_none_below(list: Seq<u64>, value: u64)
    ensures
        0 <= below(list, value) <= list.len(),
        below(list, value) == 0 ==> forall|i: int| 0 <= i < list.len() ==> #[trigger] list[i] >= value,
    decreases list.len(),
{
    if list.len() > 0 {
        lemma_none_below(list.drop_last(), value);
        if below(list, value) == 0 {
            assert forall|i: int| 0 <= i < list.len() implies #[trigger] list[i] >= value by {
                if i < list.len() - 1 {
                    assert(list.drop_last()[i] >= value);
                }
            }
        }
    }
}

/// The middle figure, where there is any. One run that went astray does not drag it along.
pub fn median(list: &Vec<u64>) -> (middle: Option<u64>)
    ensures
        match middle {
            Some(middle) => is_middle(list@, middle),
            None => list@.len() == 0,
        },
{
    let half: usize = list.len() / 2;
    let largest: u64 = match extremes(list) {
        Some((_, largest)) => largest,
        None => {
            return None;
        },
    };
    proof {
        lemma_at_most_all(list@, largest);
    }
    let mut best: u64 = largest;
    let mut i: usize = 0;
    while i < list.len()
        invariant
            i <= list@.len(),
            half == list@.len() / 2,
            list@.contains(best),
            at_most(list@, best) > half,
            forall|j: int|
                0 <= j < i ==> at_most(list@, #[trigger] list@[j]) <= half || list@[j] >= best,
        decreases list@.len() - i,
    {
        if list[i] < best && count_at_most(list, list[i]) > half {
            best = list[i];
        }
        i += 1;
    }
    proof {
        if below(list@, best) > half {
            let lower = lemma_largest_below(list@, best);
            lemma_nothing_between(list@, lower, best);
        }
    }
    Some(best)
}

/// There is only one middle figure.
pub proof fn law_the_median_is_unique(list: Seq<u64>, a: u64, b: u64)
    requires
        is_middle(list, a),
        is_middle(list, b),
    ensures
        a == b,
{
    if a < b {
        lemma_at_most_below(list, a, b);
    } else if b < a {
        lemma_at_most_below(list, b, a);
    }
}

/// What is at most a value is below every larger one.
proof fn lemma_at_most_below(list: Seq<u64>, lower: u64, upper: u64)
    requires
        lower < upper,
    ensures
        at_most(list, lower) <= below(list, upper),
    decreases list.len(),
{
    if list.len() > 0 {
        lemma_at_most_below(list.drop_last(), lower, upper);
    }
}

/// The smallest and the largest of some figures, where there are any.
pub fn extremes(list: &Vec<u64>) -> (ends: Option<(u64, u64)>)
    ensures
        match ends {
            Some((smallest, largest)) => list@.contains(smallest) && list@.contains(largest) && forall|
                i: int,
            |
                0 <= i < list@.len() ==> smallest <= #[trigger] list@[i] <= largest,
            None => list@.len() == 0,
        },
{
    if list.len() == 0 {
        return None;
    }
    let mut smallest: u64 = list[0];
    let mut largest: u64 = list[0];
    let mut i: usize = 1;
    while i < list.len()
        invariant
            1 <= i <= list@.len(),
            list@.contains(smallest),
            list@.contains(largest),
            forall|j: int| 0 <= j < i ==> smallest <= #[trigger] list@[j] <= largest,
        decreases list@.len() - i,
    {
        if list[i] < smallest {
            smallest = list[i];
        }
        if list[i] > largest {
            largest = list[i];
        }
        i += 1;
    }
    Some((smallest, largest))
}

/// What is said of a stage.
#[derive(Clone, Copy, Debug, Eq, PartialEq, Structural)]
pub enum Verdict {
    /// It moved no further than the sets disagree with themselves, or than the noise floor.
    WithinNoise,
    Slower,
    Faster,
    /// One side has no figure that a change could be a part of.
    Unmeasurable,
}

impl Verdict {
    /// What the verdict is called in reports.
    pub fn as_str(self) -> (name: &'static str)
        ensures
            name@ == match self {
                Verdict::WithinNoise => "within_noise"@,
                Verdict::Slower => "slower"@,
                Verdict::Faster => "faster"@,
                Verdict::Unmeasurable => "unmeasurable"@,
            },
    {
        match self {
            Verdict::WithinNoise => "within_noise",
            Verdict::Slower => "slower",
            Verdict::Faster => "faster",
            Verdict::Unmeasurable => "unmeasurable",
        }
    }
}

/// The verdict on a stage, given whether its change stays within the widest of the spreads and the
/// noise floor, and whether it is an increase.
pub open spec fn judged(
    baseline_p50_ns: u64,
    candidate_p50_ns: u64,
    within_floor: bool,
    increased: bool,
) -> Verdict {
    if baseline_p50_ns == 0 || candidate_p50_ns == 0 {
        Verdict::Unmeasurable
    } else if within_floor {
        Verdict::WithinNoise
    } else if increased {
        Verdict::Slower
    } else {
        Verdict::Faster
    }
}

/// Judges a stage, given whether its change stays within the widest of the spreads and the noise
/// floor, and whether it is an increase. A figure of zero on either side leaves nothing to judge.
pub fn verdict(
    baseline_p50_ns: u64,
    candidate_p50_ns: u64,
    within_floor: bool,
    increased: bool,
) -> (verdict: Verdict)
    ensures
        verdict == judged(baseline_p50_ns, candidate_p50_ns, within_floor, increased),
{
    if baseline_p50_ns == 0 || candidate_p50_ns == 0 {
        return Verdict::Unmeasurable;
    }
    if within_floor {
        Verdict::WithinNoise
    } else if increased {
        Verdict::Slower
    } else {
        Verdict::Faster
    }
}

/// The figures of one stage on both sides.
#[derive(Debug, Eq, PartialEq)]
pub struct StageFigures {
    pub stage: Stage,
    pub baseline_p50_ns: u64,
    pub candidate_p50_ns: u64,
    pub baseline_p95_ns: u64,
    pub candidate_p95_ns: u64,
    /// The medians of the baseline's own runs, whose spread bounds what it can detect.
    pub baseline_p50s: Vec<u64>,
    pub candidate_p50s: Vec<u64>,
}

/// What became of the pointer on both sides. Sides that differ here compare captures with a pointer
/// against captures without one.
#[derive(Debug)]
pub struct CursorOutcomeComparison {
    pub baseline: TextMap<usize>,
    pub candidate: TextMap<usize>,
}

/// Both sides of a comparison.
#[derive(Debug)]
pub struct Comparison {
    /// The question that both sides were asking.
    pub compatibility: RunCompatibility,
    pub stages: Vec<StageFigures>,
    pub cursor_outcomes: CursorOutcomeComparison,
}

/// Whether the stages of a comparison are those that both sides measured, in order.
pub open spec fn stages_match(
    found: Seq<StageFigures>,
    stages: Seq<Stage>,
    baseline: Seq<BenchmarkReport>,
    candidate: Seq<BenchmarkReport>,
) -> bool
    decreases stages.len(),
{
    if stages.len() == 0 {
        found.len() == 0
    } else {
        let stage = stages.last();
        let both = figures(baseline, stage, Percentile::P50).len() > 0 && figures(
            candidate,
            stage,
            Percentile::P50,
        ).len() > 0;
        if both {
            found.len() > 0 && stage_matches(found.last(), stage, baseline, candidate)
                && stages_match(found.drop_last(), stages.drop_last(), baseline, candidate)
        } else {
            stages_match(found, stages.drop_last(), baseline, candidate)
        }
    }
}

/// Whether the figures of a stage are those of both sides.
pub open spec fn stage_matches(
    found: StageFigures,
    stage: Stage,
    baseline: Seq<BenchmarkReport>,
    candidate: Seq<BenchmarkReport>,
) -> bool {
    &&& found.stage == stage
    &&& is_middle(figures(baseline, stage, Percentile::P50), found.baseline_p50_ns)
    &&& is_middle(figures(candidate, stage, Percentile::P50), found.candidate_p50_ns)
    &&& is_middle(figures(baseline, stage, Percentile::P95), found.baseline_p95_ns)
    &&& is_middle(figures(candidate, stage, Percentile::P95), found.candidate_p95_ns)
    &&& found.baseline_p50s@ == figures(baseline, stage, Percentile::P50)
    &&& found.candidate_p50s@ == figures(candidate, stage, Percentile::P50)
}

/// As many runs have one figure of a stage as have another.
proof fn lemma_same_count(runs: Seq<BenchmarkReport>, stage: Stage)
    ensures
        figures(runs, stage, Percentile::P50).len() == figures(runs, stage, Percentile::P95).len(),
    decreases runs.len(),
{
    if runs.len() > 0 {
        lemma_same_count(runs.drop_last(), stage);
    }
}

/// The figures of a stage, where both sides measured it.
fn stage_figures(
    stage: Stage,
    baseline: &Vec<BenchmarkReport>,
    candidate: &Vec<BenchmarkReport>,
) -> (found: Option<StageFigures>)
    ensures
        match found {
            Some(found) => stage_matches(found, stage, baseline@, candidate@),
            None => figures(baseline@, stage, Percentile::P50).len() == 0 || figures(
                candidate@,
                stage,
                Percentile::P50,
            ).len() == 0,
        },
        found is Some ==> figures(baseline@, stage, Percentile::P50).len() > 0 && figures(
            candidate@,
            stage,
            Percentile::P50,
        ).len() > 0,
{
    let baseline_p50s = values(baseline, stage, Percentile::P50);
    let candidate_p50s = values(candidate, stage, Percentile::P50);
    proof {
        lemma_same_count(baseline@, stage);
        lemma_same_count(candidate@, stage);
    }
    match (
        median(&baseline_p50s),
        median(&candidate_p50s),
        median(&values(baseline, stage, Percentile::P95)),
        median(&values(candidate, stage, Percentile::P95)),
    ) {
        (
            Some(baseline_p50_ns),
            Some(candidate_p50_ns),
            Some(baseline_p95_ns),
            Some(candidate_p95_ns),
        ) => Some(
            StageFigures {
                stage,
                baseline_p50_ns,
                candidate_p50_ns,
                baseline_p95_ns,
                candidate_p95_ns,
                baseline_p50s,
                candidate_p50s,
            },
        ),
        _ => None,
    }
}

/// Puts the figures of two sets side by side, or refuses and names everything that differs, with
/// both sides.
pub fn compare(baseline: &RunSet, candidate: &RunSet) -> (result: Result<Comparison, AppError>)
    requires
        baseline.runs@.len() > 0,
        candidate.runs@.len() > 0,
    ensures
        ({
            let differences = all_differences(baseline.runs@[0], candidate.runs@[0]);
            if differences.len() > 0 {
                result matches Err(AppError::InvalidArgument(text)) && text@ == baseline.label@
                    + " and "@ + candidate.label@
                    + " did not measure the same thing, so no figure is reported from them; they differ in "@
                    + semicolon_list(differences)
            } else {
                result matches Ok(comparison) && comparison.compatibility.is_of(baseline.runs@[0])
                    && stages_match(
                    comparison.stages@,
                    Stage::all(),
                    baseline.runs@,
                    candidate.runs@,
                ) && totals_match(comparison.cursor_outcomes.baseline@, baseline.runs@) && totals_match(
                    comparison.cursor_outcomes.candidate@,
                    candidate.runs@,
                )
            }
        }),
{
    let compatibility = RunCompatibility::of(&baseline.runs[0]);
    let differences = name_all_differences(&baseline.runs[0], &candidate.runs[0]);
    if differences.len() > 0 {
        let mut text = baseline.label.clone();
        text.append(" and ");
        text.append(candidate.label.as_str());
        text.append(
            " did not measure the same thing, so no figure is reported from them; they differ in ",
        );
        text.append(join_texts(&differences, "; ").as_str());
        proof {
            lemma_semicolon_list(differences@);
        }
        return Err(AppError::InvalidArgument(text));
    }
    let names = Stage::every();
    let mut stages: Vec<StageFigures> = Vec::new();
    let mut i: usize = 0;
    while i < names.len()
        invariant
            i <= names@.len(),
            stages_match(stages@, names@.take(i as int), baseline.runs@, candidate.runs@),
        decreases names@.len() - i,
    {
        proof {
            assert(names@.take(i + 1).drop_last() =~= names@.take(i as int));
        }
        let ghost before = stages@;
        if let Some(found) = stage_figures(names[i], &baseline.runs, &candidate.runs) {
            stages.push(found);
            proof {
                assert(stages@.drop_last() =~= before);
            }
        }
        i += 1;
    }
    proof {
        assert(names@.take(i as int) =~= names@);
    }
    Ok(
        Comparison {
            compatibility,
            stages,
            cursor_outcomes: CursorOutcomeComparison {
                baseline: baseline.cursor_outcomes(),
                candidate: candidate.cursor_outcomes(),
            },
        },
    )
}

/// Whether the figures of a stage are those of another comparison with its sides swapped. Neither
/// comparison can judge the stage where one of its two figures is zero.
pub open spec fn mirrors(a: StageFigures, b: StageFigures) -> bool {
    &&& a.stage == b.stage
    &&& a.baseline_p50_ns == b.candidate_p50_ns
    &&& a.candidate_p50_ns == b.baseline_p50_ns
    &&& a.baseline_p95_ns == b.candidate_p95_ns
    &&& a.candidate_p95_ns == b.baseline_p95_ns
    &&& a.baseline_p50s@ == b.candidate_p50s@
    &&& a.candidate_p50s@ == b.baseline_p50s@
}

/// Stages that match two sets, and those that match them the other way round, mirror each other.
proof fn lemma_swapped_stages(
    found: Seq<StageFigures>,
    swapped: Seq<StageFigures>,
    stages: Seq<Stage>,
    a: Seq<BenchmarkReport>,
    b: Seq<BenchmarkReport>,
)
    requires
        stages_match(found, stages, a, b),
        stages_match(swapped, stages, b, a),
    ensures
        found.len() == swapped.len(),
        forall|i: int| 0 <= i < found.len() ==> mirrors(#[trigger] found[i], swapped[i]),
    decreases stages.len(),
{
    if stages.len() > 0 {
        let stage = stages.last();
        let (in_a, in_b) = (figures(a, stage, Percentile::P50), figures(b, stage, Percentile::P50));
        if in_a.len() > 0 && in_b.len() > 0 {
            lemma_swapped_stages(
                found.drop_last(),
                swapped.drop_last(),
                stages.drop_last(),
                a,
                b,
            );
            let (x, y) = (found.last(), swapped.last());
            law_the_median_is_unique(in_a, x.baseline_p50_ns, y.candidate_p50_ns);
            law_the_median_is_unique(in_b, x.candidate_p50_ns, y.baseline_p50_ns);
            law_the_median_is_unique(
                figures(a, stage, Percentile::P95),
                x.baseline_p95_ns,
                y.candidate_p95_ns,
            );
            law_the_median_is_unique(
                figures(b, stage, Percentile::P95),
                x.candidate_p95_ns,
                y.baseline_p95_ns,
            );
            assert forall|i: int| 0 <= i < found.len() implies mirrors(
                #[trigger] found[i],
                swapped[i],
            ) by {
                if i < found.len() - 1 {
                    assert(mirrors(found.drop_last()[i], swapped.drop_last()[i]));
                }
            }
        } else {
            lemma_swapped_stages(found, swapped, stages.drop_last(), a, b);
        }
    }
}

/// Which side is the baseline changes nothing of what is compared: sets that can be compared can be
/// the other way round, with the same stages in the same order and their figures swapped. A stage
/// that one comparison cannot judge the other cannot either, whatever the noise.
pub proof fn law_swapped_sides_compare_alike(
    a: RunSet,
    b: RunSet,
    found: Seq<StageFigures>,
    swapped: Seq<StageFigures>,
)
    requires
        a.runs@.len() > 0,
        b.runs@.len() > 0,
        stages_match(found, Stage::all(), a.runs@, b.runs@),
        stages_match(swapped, Stage::all(), b.runs@, a.runs@),
    ensures
        all_differences(a.runs@[0], b.runs@[0]).len() == 0 <==> all_differences(
            b.runs@[0],
            a.runs@[0],
        ).len() == 0,
        found.len() == swapped.len(),
        forall|i: int| 0 <= i < found.len() ==> mirrors(#[trigger] found[i], swapped[i]),
        forall|i: int, within: bool, increased: bool, still_within: bool, still_increased: bool|
            0 <= i < found.len() ==> (#[trigger] judged(
                found[i].baseline_p50_ns,
                found[i].candidate_p50_ns,
                within,
                increased,
            ) is Unmeasurable) == (#[trigger] judged(
                swapped[i].baseline_p50_ns,
                swapped[i].candidate_p50_ns,
                still_within,
                still_increased,
            ) is Unmeasurable),
{
    lemma_all_differences(a.runs@[0], b.runs@[0]);
    lemma_all_differences(b.runs@[0], a.runs@[0]);
    lemma_swapped_stages(found, swapped, Stage::all(), a.runs@, b.runs@);
}

/// When a run was recorded has no part in what it is compared with.
pub proof fn law_the_moment_is_not_compared(a: BenchmarkReport, b: BenchmarkReport, moment: String)
    ensures
        ({
            let later = BenchmarkReport {
                environment: EnvironmentFingerprint {
                    recorded_at_utc: moment,
                    ..a.environment
                },
                ..a
            };
            &&& all_differences(later, b) == all_differences(a, b)
            &&& all_differences(b, later) == all_differences(b, a)
        }),
{
}

/// A comparison is made only of runs that asked the same and ran on the same machine.
pub proof fn law_only_equals_are_compared(a: BenchmarkReport, b: BenchmarkReport)
    ensures
        all_differences(a, b).len() == 0 <==> asked(a) == asked(b) && identity(a.environment)
            == identity(b.environment),
{
    lemma_all_differences(a, b);
}

/// One more run adds its own figure of a stage to those of the runs before it, where it measured the
/// stage: the median or the slow tail of the very stage that is asked for.
pub proof fn law_figures_are_those_of_their_stage(runs: Seq<BenchmarkReport>, run: BenchmarkReport)
    ensures
        ({
            let more = runs.push(run);
            let (p50, p95) = (Percentile::P50, Percentile::P95);
            &&& figures(more, Stage::TriggerToDequeue, p50) == figures(
                runs,
                Stage::TriggerToDequeue,
                p50,
            ).push(run.trigger_to_dequeue_latency.p50_ns)
            &&& figures(more, Stage::TriggerToDequeue, p95) == figures(
                runs,
                Stage::TriggerToDequeue,
                p95,
            ).push(run.trigger_to_dequeue_latency.p95_ns)
            &&& figures(more, Stage::NativeFrame, p50) == figures(runs, Stage::NativeFrame, p50).push(
                run.native_frame_latency.p50_ns,
            )
            &&& figures(more, Stage::NativeFrame, p95) == figures(runs, Stage::NativeFrame, p95).push(
                run.native_frame_latency.p95_ns,
            )
            &&& figures(more, Stage::CpuFrame, p50) == match run.cpu_frame_latency {
                Some(cpu) => figures(runs, Stage::CpuFrame, p50).push(cpu.p50_ns),
                None => figures(runs, Stage::CpuFrame, p50),
            }
            &&& figures(more, Stage::CpuFrame, p95) == match run.cpu_frame_latency {
                Some(cpu) => figures(runs, Stage::CpuFrame, p95).push(cpu.p95_ns),
                None => figures(runs, Stage::CpuFrame, p95),
            }
            &&& figures(more, Stage::Readback, p50) == match run.readback_latency {
                Some(readback) => figures(runs, Stage::Readback, p50).push(readback.p50_ns),
                None => figures(runs, Stage::Readback, p50),
            }
            &&& figures(more, Stage::Readback, p95) == match run.readback_latency {
                Some(readback) => figures(runs, Stage::Readback, p95).push(readback.p95_ns),
                None => figures(runs, Stage::Readback, p95),
            }
            &&& figures(more, Stage::FrameAge, p50) == figures(runs, Stage::FrameAge, p50).push(
                run.frame_age.p50_ns,
            )
            &&& figures(more, Stage::FrameAge, p95) == figures(runs, Stage::FrameAge, p95).push(
                run.frame_age.p95_ns,
            )
        }),
        forall|stage: Stage, percentile: Percentile|
            (#[trigger] figures(Seq::empty(), stage, percentile)).len() == 0,
{
    assert(runs.push(run).drop_last() =~= runs);
}

/// The middle of figures that stand in order is the one in their middle, the upper of two.
pub proof fn law_the_middle_stands_in_the_middle(list: Seq<u64>, value: u64)
    requires
        forall|i: int, j: int| 0 <= i <= j < list.len() ==> list[i] <= list[j],
        list.len() > 0,
    ensures
        is_middle(list, value) <==> value == list[(list.len() / 2) as int],
{
    let middle = (list.len() / 2) as int;
    if is_middle(list, value) {
        if value < list[middle] {
            lemma_few_at_most(list, value, middle);
        }
        if value > list[middle] {
            lemma_many_below(list, value, middle + 1);
        }
    }
    if value == list[middle] {
        lemma_few_below(list, value, middle);
        lemma_many_at_most(list, value, middle + 1);
    }
}

/// Where all from some place on are larger, no more than those before it are at most a value.
proof fn lemma_few_at_most(list: Seq<u64>, value: u64, from: int)
    requires
        0 <= from <= list.len(),
        forall|i: int| from <= i < list.len() ==> #[trigger] list[i] > value,
    ensures
        0 <= at_most(list, value) <= from,
    decreases list.len(),
{
    if list.len() > 0 {
        let front = list.drop_last();
        let place = if from < list.len() {
            from
        } else {
            from - 1
        };
        assert forall|i: int| place <= i < front.len() implies #[trigger] front[i] > value by {
            assert(list[i] > value);
        }
        lemma_few_at_most(front, value, place);
        if from < list.len() {
            assert(list[list.len() - 1] > value);
        }
    }
}

/// Where all from some place on are not smaller, no more than those before it are below a value.
proof fn lemma_few_below(list: Seq<u64>, value: u64, from: int)
    requires
        0 <= from <= list.len(),
        forall|i: int| from <= i < list.len() ==> #[trigger] list[i] >= value,
    ensures
        0 <= below(list, value) <= from,
    decreases list.len(),
{
    if list.len() > 0 {
        let front = list.drop_last();
        let place = if from < list.len() {
            from
        } else {
            from - 1
        };
        assert forall|i: int| place <= i < front.len() implies #[trigger] front[i] >= value by {
            assert(list[i] >= value);
        }
        lemma_few_below(front, value, place);
        if from < list.len() {
            assert(list[list.len() - 1] >= value);
        }
    }
}

/// Where all before some place are smaller, at least so many are below a value.
proof fn lemma_many_below(list: Seq<u64>, value: u64, until: int)
    requires
        0 <= until <= list.len(),
        forall|i: int| 0 <= i < until ==> #[trigger] list[i] < value,
    ensures
        below(list, value) >= until,
    decreases list.len(),
{
    if list.len() > 0 {
        let front = list.drop_last();
        let place = if until < list.len() {
            until
        } else {
            until - 1
        };
        assert forall|i: int| 0 <= i < place implies #[trigger] front[i] < value by {
            assert(list[i] < value);
        }
        if place >= 0 {
            lemma_many_below(front, value, place);
        }
        if until == list.len() {
            assert(list[list.len() - 1] < value);
        }
    }
}

/// Where all before some place are not larger, at least so many are at most a value.
proof fn lemma_many_at_most(list: Seq<u64>, value: u64, until: int)
    requires
        0 <= until <= list.len(),
        forall|i: int| 0 <= i < until ==> #[trigger] list[i] <= value,
    ensures
        at_most(list, value) >= until,
    decreases list.len(),
{
    if list.len() > 0 {
        let front = list.drop_last();
        let place = if until < list.len() {
            until
        } else {
            until - 1
        };
        assert forall|i: int| 0 <= i < place implies #[trigger] front[i] <= value by {
            assert(list[i] <= value);
        }
        lemma_many_at_most(front, value, place);
        if until == list.len() {
            assert(list[list.len() - 1] <= value);
        }
    }
}

/// Figures that only stand in another order have the same middle.
pub proof fn law_the_order_of_runs_does_not_move_the_middle(a: Seq<u64>, b: Seq<u64>, value: u64)
    requires
        a.to_multiset() == b.to_multiset(),
    ensures
        is_middle(a, value) == is_middle(b, value),
{
    lemma_counts_in_a_multiset(a, value);
    lemma_counts_in_a_multiset(b, value);
    vstd::seq_lib::to_multiset_contains(a, value);
    vstd::seq_lib::to_multiset_contains(b, value);
    vstd::seq_lib::to_multiset_len(a);
    vstd::seq_lib::to_multiset_len(b);
}

/// What is counted of figures does not rest on their order.
proof fn lemma_counts_in_a_multiset(list: Seq<u64>, value: u64)
    ensures
        below(list, value) == list.to_multiset().filter(|figure: u64| figure < value).len(),
        at_most(list, value) == list.to_multiset().filter(|figure: u64| figure <= value).len(),
    decreases list.len(),
{
    broadcast use vstd::seq_lib::group_to_multiset_ensures;
    broadcast use vstd::multiset::group_multiset_properties;

    let smaller = |figure: u64| figure < value;
    let no_larger = |figure: u64| figure <= value;
    if list.len() > 0 {
        let front = list.drop_last();
        lemma_counts_in_a_multiset(front, value);
        assert(list =~= front.push(list.last()));
        assert(list.to_multiset() =~= front.to_multiset().insert(list.last()));
        if smaller(list.last()) {
            assert(list.to_multiset().filter(smaller) =~= front.to_multiset().filter(smaller).insert(
                list.last(),
            ));
        } else {
            assert(list.to_multiset().filter(smaller) =~= front.to_multiset().filter(smaller));
        }
        if no_larger(list.last()) {
            assert(list.to_multiset().filter(no_larger) =~= front.to_multiset().filter(
                no_larger,
            ).insert(list.last()));
        } else {
            assert(list.to_multiset().filter(no_larger) =~= front.to_multiset().filter(no_larger));
        }
    } else {
        assert(list.to_multiset().filter(smaller) =~= vstd::multiset::Multiset::empty());
        assert(list.to_multiset().filter(no_larger) =~= vstd::multiset::Multiset::empty());
    }
}

/// A stage is slower where its figure rose and faster where it fell by more than the noise, and within
/// the noise otherwise. There is no telling exactly where one of the two figures is zero.
pub proof fn law_verdicts_follow_the_change(
    baseline: u64,
    candidate: u64,
    within_floor: bool,
    increased: bool,
)
    ensures
        ({
            let verdict = judged(baseline, candidate, within_floor, increased);
            let measurable = baseline > 0 && candidate > 0;
            &&& verdict is Unmeasurable <==> !measurable
            &&& verdict is WithinNoise <==> measurable && within_floor
            &&& verdict is Slower <==> measurable && !within_floor && increased
            &&& verdict is Faster <==> measurable && !within_floor && !increased
        }),
{
}

/// Whether a run measured a stage.
pub open spec fn measured(run: BenchmarkReport, stage: Stage) -> bool {
    match stage {
        Stage::CpuFrame => run.cpu_frame_latency is Some,
        Stage::Readback => run.readback_latency is Some,
        Stage::TriggerToDequeue | Stage::NativeFrame | Stage::FrameAge => true,
    }
}

/// There are figures of a stage exactly where a run measured it.
proof fn lemma_figures_of_measured(runs: Seq<BenchmarkReport>, stage: Stage)
    ensures
        figures(runs, stage, Percentile::P50).len() > 0 <==> exists|i: int|
            0 <= i < runs.len() && measured(#[trigger] runs[i], stage),
    decreases runs.len(),
{
    if runs.len() > 0 {
        let front = runs.drop_last();
        lemma_figures_of_measured(front, stage);
        let last = runs.len() - 1;
        if measured(runs[last], stage) {
            assert(stage.summary(runs.last()) is Some);
        } else {
            assert(stage.summary(runs.last()) is None);
            if exists|i: int| 0 <= i < runs.len() && measured(#[trigger] runs[i], stage) {
                let i = choose|i: int| 0 <= i < runs.len() && measured(#[trigger] runs[i], stage);
                assert(measured(front[i], stage));
            }
            if exists|i: int| 0 <= i < front.len() && measured(#[trigger] front[i], stage) {
                let i = choose|i: int| 0 <= i < front.len() && measured(#[trigger] front[i], stage);
                assert(measured(runs[i], stage));
            }
        }
    }
}

/// Which of the stages are reported, and that each has the figures of its own.
proof fn lemma_reported_stages(
    found: Seq<StageFigures>,
    stages: Seq<Stage>,
    baseline: Seq<BenchmarkReport>,
    candidate: Seq<BenchmarkReport>,
    stage: Stage,
)
    requires
        stages_match(found, stages, baseline, candidate),
    ensures
        (exists|i: int| 0 <= i < found.len() && (#[trigger] found[i]).stage == stage)
            <==> stages.contains(stage) && figures(baseline, stage, Percentile::P50).len() > 0
            && figures(candidate, stage, Percentile::P50).len() > 0,
        forall|i: int|
            0 <= i < found.len() ==> stage_matches(
                #[trigger] found[i],
                found[i].stage,
                baseline,
                candidate,
            ),
    decreases stages.len(),
{
    if stages.len() > 0 {
        let last = stages.last();
        let front = stages.drop_last();
        let both = figures(baseline, last, Percentile::P50).len() > 0 && figures(
            candidate,
            last,
            Percentile::P50,
        ).len() > 0;
        let earlier = if both {
            found.drop_last()
        } else {
            found
        };
        lemma_reported_stages(earlier, front, baseline, candidate, stage);
        if stages.contains(stage) && stage != last {
            let i = choose|i: int| 0 <= i < stages.len() && stages[i] == stage;
            assert(front[i] == stage);
        }
        if front.contains(stage) {
            let i = choose|i: int| 0 <= i < front.len() && front[i] == stage;
            assert(stages[i] == stage);
        }
        assert(stages[stages.len() - 1] == last);
        if both {
            let n = found.len() - 1;
            assert(found[n].stage == last);
            if exists|i: int| 0 <= i < earlier.len() && (#[trigger] earlier[i]).stage == stage {
                let i = choose|i: int| 0 <= i < earlier.len() && (#[trigger] earlier[i]).stage == stage;
                assert(found[i].stage == stage);
            }
            if exists|i: int| 0 <= i < found.len() && (#[trigger] found[i]).stage == stage {
                let i = choose|i: int| 0 <= i < found.len() && (#[trigger] found[i]).stage == stage;
                if i < n {
                    assert(earlier[i].stage == stage);
                }
            }
            assert forall|i: int| 0 <= i < found.len() implies stage_matches(
                #[trigger] found[i],
                found[i].stage,
                baseline,
                candidate,
            ) by {
                if i < n {
                    assert(earlier[i] == found[i]);
                }
            }
        }
    }
}

/// A stage is compared exactly where both sides measured it, and then by the middle of the medians,
/// and of the slow tails, that the runs of each side have for this very stage.
pub proof fn law_a_stage_is_compared_where_both_sides_measured_it(
    found: Seq<StageFigures>,
    baseline: Seq<BenchmarkReport>,
    candidate: Seq<BenchmarkReport>,
    stage: Stage,
)
    requires
        stages_match(found, Stage::all(), baseline, candidate),
    ensures
        (exists|i: int| 0 <= i < found.len() && (#[trigger] found[i]).stage == stage) <==> (exists|i:
            int|
            0 <= i < baseline.len() && measured(#[trigger] baseline[i], stage)) && (exists|i: int|
            0 <= i < candidate.len() && measured(#[trigger] candidate[i], stage)),
        forall|i: int|
            0 <= i < found.len() ==> {
                let figure = #[trigger] found[i];
                &&& is_middle(
                    figures(baseline, figure.stage, Percentile::P50),
                    figure.baseline_p50_ns,
                )
                &&& is_middle(
                    figures(candidate, figure.stage, Percentile::P50),
                    figure.candidate_p50_ns,
                )
                &&& is_middle(
                    figures(baseline, figure.stage, Percentile::P95),
                    figure.baseline_p95_ns,
                )
                &&& is_middle(
                    figures(candidate, figure.stage, Percentile::P95),
                    figure.candidate_p95_ns,
                )
            },
{
    let all = Stage::all();
    assert(all[0] == Stage::TriggerToDequeue && all[1] == Stage::NativeFrame && all[2]
        == Stage::CpuFrame && all[3] == Stage::Readback && all[4] == Stage::FrameAge);
    assert(all.contains(stage));
    lemma_reported_stages(found, all, baseline, candidate, stage);
    lemma_figures_of_measured(baseline, stage);
    lemma_figures_of_measured(candidate, stage);
}

/// The stages are told apart by where they stand: the trigger first, then the frame, its way to the
/// processor, its reading and its age.
pub proof fn law_stages_are_reported_in_their_order(
    found: Seq<StageFigures>,
    baseline: Seq<BenchmarkReport>,
    candidate: Seq<BenchmarkReport>,
    i: int,
    j: int,
)
    requires
        stages_match(found, Stage::all(), baseline, candidate),
        0 <= i < j < found.len(),
    ensures
        place_of(found[i].stage) < place_of(found[j].stage),
{
    lemma_in_order(found, Stage::all(), baseline, candidate, i, j);
}

/// Where a stage stands among the stages of a capture.
pub open spec fn place_of(stage: Stage) -> int {
    match stage {
        Stage::TriggerToDequeue => 0,
        Stage::NativeFrame => 1,
        Stage::CpuFrame => 2,
        Stage::Readback => 3,
        Stage::FrameAge => 4,
    }
}

/// Stages that are reported stand in the order of the stages that could be.
proof fn lemma_in_order(
    found: Seq<StageFigures>,
    stages: Seq<Stage>,
    baseline: Seq<BenchmarkReport>,
    candidate: Seq<BenchmarkReport>,
    i: int,
    j: int,
)
    requires
        stages_match(found, stages, baseline, candidate),
        0 <= i < j < found.len(),
        forall|a: int, b: int|
            0 <= a < b < stages.len() ==> place_of(#[trigger] stages[a]) < place_of(
                #[trigger] stages[b],
            ),
    ensures
        place_of(found[i].stage) < place_of(found[j].stage),
    decreases stages.len(),
{
    if stages.len() > 0 {
        let last = stages.last();
        let front = stages.drop_last();
        assert forall|a: int, b: int| 0 <= a < b < front.len() implies place_of(
            #[trigger] front[a],
        ) < place_of(#[trigger] front[b]) by {
            assert(place_of(stages[a]) < place_of(stages[b]));
        }
        let both = figures(baseline, last, Percentile::P50).len() > 0 && figures(
            candidate,
            last,
            Percentile::P50,
        ).len() > 0;
        if both {
            let earlier = found.drop_last();
            if j < earlier.len() {
                lemma_in_order(earlier, front, baseline, candidate, i, j);
            } else {
                lemma_reported_stages(earlier, front, baseline, candidate, found[i].stage);
                assert(earlier[i].stage == found[i].stage);
                let a = choose|a: int| 0 <= a < front.len() && front[a] == found[i].stage;
                assert(place_of(stages[a]) < place_of(stages[stages.len() - 1]));
            }
        } else {
            lemma_in_order(found, front, baseline, candidate, i, j);
        }
    }
}

/// A set can be compared exactly where it has a run and every run can be put beside the first.
pub proof fn law_a_set_is_comparable_where_every_run_matches_the_first(
    label: Seq<char>,
    runs: Seq<BenchmarkReport>,
)
    ensures
        set_fault(label, runs) is None <==> runs.len() > 0 && forall|i: int|
            1 <= i < runs.len() ==> all_differences(runs[0], #[trigger] runs[i]).len() == 0,
{
    lemma_first_stranger(runs, 1);
}

/// The first run that differs from the first of all.
proof fn lemma_first_stranger(runs: Seq<BenchmarkReport>, from: int)
    requires
        0 <= from,
    ensures
        first_stranger(runs, from) < runs.len() <==> exists|i: int|
            from <= i < runs.len() && all_differences(runs[0], #[trigger] runs[i]).len() > 0,
    decreases runs.len() - from,
{
    if from < runs.len() {
        lemma_first_stranger(runs, from + 1);
        if all_differences(runs[0], runs[from]).len() == 0 {
            if exists|i: int|
                from <= i < runs.len() && all_differences(runs[0], #[trigger] runs[i]).len() > 0 {
                let i = choose|i: int|
                    from <= i < runs.len() && all_differences(runs[0], #[trigger] runs[i]).len() > 0;
                assert(i >= from + 1);
            }
        }
    }
}

/// What became of the pointer is counted over all runs of a side: one more run adds its own counts.
pub proof fn law_pointer_counts_add_up(
    runs: Seq<BenchmarkReport>,
    run: BenchmarkReport,
    totals: Map<Seq<char>, usize>,
    more: Map<Seq<char>, usize>,
    name: Seq<char>,
)
    requires
        totals_match(totals, runs),
        totals_match(more, runs.push(run)),
    ensures
        more.dom().contains(name) <==> totals.dom().contains(name)
            || run.cursor_outcomes@.dom().contains(name),
        ({
            let before = if totals.dom().contains(name) {
                totals[name] as int
            } else {
                0
            };
            let added = if run.cursor_outcomes@.dom().contains(name) {
                run.cursor_outcomes@[name] as int
            } else {
                0
            };
            more.dom().contains(name) ==> more[name] == if before + added <= usize::MAX {
                before + added
            } else {
                usize::MAX as int
            }
        }),
{
    assert(runs.push(run).drop_last() =~= runs);
    assert(totals.dom().contains(name) == is_counted(runs, name));
    assert(more.dom().contains(name) == is_counted(runs.push(run), name));
    lemma_uncounted(runs, name);
}

/// What no run counted comes to nothing.
proof fn lemma_uncounted(runs: Seq<BenchmarkReport>, name: Seq<char>)
    ensures
        total_of(runs, name) >= 0,
        !is_counted(runs, name) ==> total_of(runs, name) == 0,
    decreases runs.len(),
{
    if runs.len() > 0 {
        lemma_uncounted(runs.drop_last(), name);
    }
}

/// A file is an envelope where it says so, several runs where it has runs, and one run otherwise.
pub proof fn law_a_file_is_told_by_its_keys(keys: Set<Seq<char>>)
    ensures
        shape_with(keys) is Enveloped <==> keys.contains("repeated"@),
        shape_with(keys) is Several <==> keys.contains("runs"@) && !keys.contains("repeated"@),
        shape_with(keys) is Single <==> !keys.contains("runs"@) && !keys.contains("repeated"@),
{
}

/// A stage is reported with the figures of its own runs on each side: all of them in the order of the
/// runs, and the middle of each kind.
pub proof fn law_a_stage_is_reported_with_its_own_figures(
    found: StageFigures,
    stage: Stage,
    baseline: Seq<BenchmarkReport>,
    candidate: Seq<BenchmarkReport>,
)
    requires
        stage_matches(found, stage, baseline, candidate),
    ensures
        found.stage == stage,
        found.baseline_p50s@ == figures(baseline, stage, Percentile::P50),
        found.candidate_p50s@ == figures(candidate, stage, Percentile::P50),
        is_middle(found.baseline_p50s@, found.baseline_p50_ns),
        is_middle(found.candidate_p50s@, found.candidate_p50_ns),
        is_middle(figures(baseline, stage, Percentile::P95), found.baseline_p95_ns),
        is_middle(figures(candidate, stage, Percentile::P95), found.candidate_p95_ns),
{
}

/// A set that cannot be compared is refused for the first run that does not match, by its place in the
/// set and with all in which it differs; an empty one for having no runs.
pub proof fn law_the_first_run_that_does_not_match_is_named(
    label: Seq<char>,
    runs: Seq<BenchmarkReport>,
    k: int,
)
    requires
        1 <= k < runs.len(),
        all_differences(runs[0], runs[k]).len() > 0,
        forall|i: int| 1 <= i < k ==> all_differences(runs[0], #[trigger] runs[i]).len() == 0,
    ensures
        set_fault(label, runs) == Some(
            label + " is not a comparable set: run "@ + decimal((k + 1) as nat) + " differs in "@
                + semicolon_list(all_differences(runs[0], runs[k])),
        ),
        set_fault(label, Seq::empty()) == Some(label + " holds no runs to compare"@),
{
    lemma_stranger_at(runs, 1, k);
}

/// The first run that does not match is the first stranger.
proof fn lemma_stranger_at(runs: Seq<BenchmarkReport>, from: int, k: int)
    requires
        1 <= from <= k < runs.len(),
        all_differences(runs[0], runs[k]).len() > 0,
        forall|i: int| from <= i < k ==> all_differences(runs[0], #[trigger] runs[i]).len() == 0,
    ensures
        first_stranger(runs, from) == k,
    decreases k - from,
{
    if from < k {
        assert(all_differences(runs[0], runs[from]).len() == 0);
        lemma_stranger_at(runs, from + 1, k);
    }
}

} // verus!
