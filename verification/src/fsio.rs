//! Files that survive a crash: how a file is replaced in one step, how the names beside it are
//! chosen, and which leftovers are swept.
//!
//! Moments are nanoseconds since the Unix epoch, and may lie before it.
use vstd::prelude::*;
use vstd::string::*;

use crate::path::{FilePath, Part, PathPart};
use crate::table::{
    lemma_precedes_irreflexive, lemma_precedes_total, lemma_precedes_transitive, text_order, Order,
};
use crate::text::{
    decimal, decimal_text, law_decimals_read_back, precedes, starts_with, strip_prefix,
};

verus! {

/// How long an abandoned temporary file may linger, in nanoseconds.
pub const TEMP_ARTIFACT_MAX_AGE: i128 = 604_800_000_000_000;

/// How many damaged files are kept.
pub const CORRUPT_ARTIFACT_RETENTION: usize = 5;

/// How many names are tried for one file.
pub const NAME_ATTEMPTS: u32 = 128;

/// The directory of a path, or the current one where the path names none.
pub open spec fn usable_parts(path: Seq<Part>) -> Seq<Part> {
    match FilePath::parent_parts(path) {
        Some(parent) => if parent.len() > 0 {
            parent
        } else {
            seq![Part::Current]
        },
        None => seq![Part::Current],
    }
}

/// The directory that the neighbours of a file are in.
pub fn usable_parent(path: &FilePath) -> (directory: FilePath)
    ensures
        directory@ == usable_parts(path@),
{
    if let Some(parent) = path.parent() {
        if !parent.is_empty() {
            return parent;
        }
    }
    let mut parts: Vec<PathPart> = Vec::new();
    parts.push(PathPart::Current);
    let directory = FilePath { parts };
    directory
}

/// The name of a temporary file beside its destination.
pub open spec fn temporary_name_of(file_name: Seq<char>, process: int, sequence: int) -> Seq<char> {
    "."@ + file_name + ".tmp-"@ + decimal(process as nat) + "-"@ + decimal(sequence as nat)
}

/// The name that a damaged file is set aside under.
pub open spec fn quarantine_name_of(file_name: Seq<char>, process: int, sequence: int) -> Seq<char> {
    file_name + ".corrupt-"@ + decimal(process as nat) + "-"@ + decimal(sequence as nat)
}

/// Where a temporary file for a path is created; `None` where the path names no file.
pub fn temporary_path(path: &FilePath, process: u32, sequence: u64) -> (temporary: Option<FilePath>)
    ensures
        match temporary {
            Some(temporary) => path.named() && temporary@ == usable_parts(path@).push(
                Part::Normal(
                    temporary_name_of(path@.last()->Normal_0, process as int, sequence as int),
                ),
            ),
            None => !path.named(),
        },
{
    match path.file_name() {
        Some(file_name) => {
            let mut name = ".".to_owned();
            name.append(file_name.as_str());
            name.append(".tmp-");
            name.append(decimal_text(process as u64).as_str());
            name.append("-");
            name.append(decimal_text(sequence).as_str());
            Some(usable_parent(path).join(name.as_str()))
        },
        None => None,
    }
}

/// Where a damaged file is set aside; `None` where the path names no file.
pub fn quarantine_path(path: &FilePath, process: u32, sequence: u64) -> (quarantine: Option<
    FilePath,
>)
    ensures
        match quarantine {
            Some(quarantine) => path.named() && quarantine@ == usable_parts(path@).push(
                Part::Normal(
                    quarantine_name_of(path@.last()->Normal_0, process as int, sequence as int),
                ),
            ),
            None => !path.named(),
        },
{
    match path.file_name() {
        Some(file_name) => {
            let mut name = file_name.clone();
            name.append(".corrupt-");
            name.append(decimal_text(process as u64).as_str());
            name.append("-");
            name.append(decimal_text(sequence).as_str());
            Some(usable_parent(path).join(name.as_str()))
        },
        None => None,
    }
}

/// How an operation on a file ended.
#[derive(Clone, Copy, Debug, Eq, PartialEq, Structural)]
pub enum FileOutcome {
    Done,
    AlreadyExists,
    NotFound,
    Failed,
}

/// What follows an attempt to claim a name.
#[derive(Clone, Copy, Debug, Eq, PartialEq, Structural)]
pub enum Claim {
    /// The name is ours.
    Taken,
    /// Try the next name.
    TryNext,
    /// There was nothing to set aside any more.
    SourceGone,
    /// The error stands.
    Fail,
    /// No name was free.
    Exhausted,
}

/// Decides after an attempt to create a temporary file; `attempts` counts it.
pub fn create_temporary_file(outcome: FileOutcome, attempts: u32) -> (claim: Claim)
    ensures
        claim == match outcome {
            FileOutcome::Done => Claim::Taken,
            FileOutcome::AlreadyExists => if attempts < NAME_ATTEMPTS {
                Claim::TryNext
            } else {
                Claim::Exhausted
            },
            FileOutcome::NotFound | FileOutcome::Failed => Claim::Fail,
        },
{
    match outcome {
        FileOutcome::Done => Claim::Taken,
        FileOutcome::AlreadyExists => {
            if attempts < NAME_ATTEMPTS {
                Claim::TryNext
            } else {
                Claim::Exhausted
            }
        },
        FileOutcome::NotFound | FileOutcome::Failed => Claim::Fail,
    }
}

/// Decides after an attempt to set a damaged file aside; `attempts` counts it. A file that is gone
/// needs no setting aside.
pub fn quarantine_config(outcome: FileOutcome, attempts: u32) -> (claim: Claim)
    ensures
        claim == match outcome {
            FileOutcome::Done => Claim::Taken,
            FileOutcome::AlreadyExists => if attempts < NAME_ATTEMPTS {
                Claim::TryNext
            } else {
                Claim::Exhausted
            },
            FileOutcome::NotFound => Claim::SourceGone,
            FileOutcome::Failed => Claim::Fail,
        },
{
    match outcome {
        FileOutcome::NotFound => Claim::SourceGone,
        _ => create_temporary_file(outcome, attempts),
    }
}

/// A step of replacing a file.
#[derive(Clone, Copy, Debug, Eq, PartialEq, Structural)]
pub enum WriteStep {
    /// Give the temporary file the permissions of the file it replaces.
    PreservePermissions,
    /// Write the contents and bring them to disk.
    WriteContents,
    /// Move the temporary file onto the destination.
    Replace,
    /// Bring the directory to disk.
    SyncParent,
}

/// What follows a step of replacing a file.
#[derive(Clone, Copy, Debug, Eq, PartialEq, Structural)]
pub enum AfterStep {
    Next(WriteStep),
    /// Remove the temporary file; the error of the step stands.
    RemoveTemporary,
    /// The error of the step stands; there is no temporary file any more.
    Fail,
    Finished,
}

/// What follows a step of replacing a file, given whether it succeeded.
pub open spec fn after_step(step: WriteStep, succeeded: bool) -> AfterStep {
    match (step, succeeded) {
        (WriteStep::PreservePermissions, true) => AfterStep::Next(WriteStep::WriteContents),
        (WriteStep::WriteContents, true) => AfterStep::Next(WriteStep::Replace),
        (WriteStep::Replace, true) => AfterStep::Next(WriteStep::SyncParent),
        (WriteStep::SyncParent, true) => AfterStep::Finished,
        (WriteStep::SyncParent, false) => AfterStep::Fail,
        (_, false) => AfterStep::RemoveTemporary,
    }
}

/// Decides how replacing a file goes on after a step. The temporary file exists already.
pub fn atomic_write(step: WriteStep, succeeded: bool) -> (after: AfterStep)
    ensures
        after == after_step(step, succeeded),
{
    if succeeded {
        match step {
            WriteStep::PreservePermissions => AfterStep::Next(WriteStep::WriteContents),
            WriteStep::WriteContents => AfterStep::Next(WriteStep::Replace),
            WriteStep::Replace => AfterStep::Next(WriteStep::SyncParent),
            WriteStep::SyncParent => AfterStep::Finished,
        }
    } else {
        match step {
            WriteStep::SyncParent => AfterStep::Fail,
            _ => AfterStep::RemoveTemporary,
        }
    }
}

/// What replacing a file leaves on disk.
pub enum Files {
    /// The old contents, and nothing beside them.
    Old,
    /// The new contents, and nothing beside them.
    New,
}

/// Where the steps of replacing a file lead, given which of them would succeed.
pub open spec fn outcome_of(step: WriteStep, works: spec_fn(WriteStep) -> bool) -> (Files, bool)
    decreases
            match step {
                WriteStep::PreservePermissions => 3nat,
                WriteStep::WriteContents => 2nat,
                WriteStep::Replace => 1nat,
                WriteStep::SyncParent => 0nat,
            },
{
    match after_step(step, works(step)) {
        AfterStep::Next(next) => outcome_of(next, works),
        AfterStep::RemoveTemporary => (Files::Old, false),
        AfterStep::Fail => (Files::New, false),
        AfterStep::Finished => (Files::New, true),
    }
}

/// Whichever step fails, a reader sees the old file or the whole new one; and where the writing or
/// the replacing failed, it is the old one.
pub proof fn law_a_failed_write_keeps_the_old_file(works: spec_fn(WriteStep) -> bool)
    ensures
        ({
            let (files, finished) = outcome_of(WriteStep::PreservePermissions, works);
            &&& finished ==> files is New
            &&& !works(WriteStep::WriteContents) || !works(WriteStep::Replace) ==> files is Old
        }),
{
    reveal_with_fuel(outcome_of, 4);
}

/// A file beside a configuration file.
#[derive(Debug)]
pub struct Artifact {
    pub name: String,
    /// When it was last written, where that is known.
    pub modified: Option<i128>,
    /// Whether it has just been set aside.
    pub protected: bool,
}

impl Artifact {
    /// Whether the file is a temporary one for `file_name`.
    pub open spec fn is_temporary(self, file_name: Seq<char>) -> bool {
        starts_with(self.name@, "."@ + file_name + ".tmp-"@)
    }

    /// Whether the file is a damaged one, set aside for `file_name`.
    pub open spec fn is_corrupt(self, file_name: Seq<char>) -> bool {
        !self.is_temporary(file_name) && starts_with(self.name@, file_name + ".corrupt-"@)
    }

    /// Whether the file has lingered too long.
    pub open spec fn is_stale(self, now: int) -> bool {
        self.modified matches Some(modified) && now - modified >= TEMP_ARTIFACT_MAX_AGE
    }

    /// When the file was last written, as far as its rank goes.
    pub open spec fn written(self) -> int {
        match self.modified {
            Some(modified) => modified as int,
            None => 0,
        }
    }
}

/// Whether the artifact at `i` is kept rather than the one at `j`: one that was just set aside
/// first, then the newer, then the one with the later name, then the one that was listed first.
pub open spec fn ahead(artifacts: Seq<Artifact>, i: int, j: int) -> bool {
    let (a, b) = (artifacts[i], artifacts[j]);
    if a.protected != b.protected {
        a.protected
    } else if a.written() != b.written() {
        a.written() > b.written()
    } else if a.name@ != b.name@ {
        precedes(b.name@, a.name@)
    } else {
        i < j
    }
}

/// How many of the first `n` artifacts are damaged files that are kept rather than the one at `i`.
pub open spec fn rank_among(
    artifacts: Seq<Artifact>,
    file_name: Seq<char>,
    i: int,
    n: int,
) -> int
    decreases n,
{
    if n <= 0 {
        0
    } else {
        rank_among(artifacts, file_name, i, n - 1) + if artifacts[n - 1].is_corrupt(file_name)
            && ahead(artifacts, n - 1, i) {
            1int
        } else {
            0
        }
    }
}

/// How many damaged files are kept rather than the one at `i`.
pub open spec fn rank(artifacts: Seq<Artifact>, file_name: Seq<char>, i: int) -> int {
    rank_among(artifacts, file_name, i, artifacts.len() as int)
}

/// Whether the artifact at `i` is removed.
pub open spec fn is_swept(
    artifacts: Seq<Artifact>,
    file_name: Seq<char>,
    now: int,
    i: int,
) -> bool {
    let artifact = artifacts[i];
    ||| artifact.is_temporary(file_name) && artifact.is_stale(now) && !artifact.protected
    ||| artifact.is_corrupt(file_name) && rank(artifacts, file_name, i)
        >= CORRUPT_ARTIFACT_RETENTION
}

/// Whether a name starts with a text.
fn has_prefix(name: &str, prefix: &str) -> (yes: bool)
    ensures
        yes == starts_with(name@, prefix@),
{
    strip_prefix(name, prefix).is_some()
}

/// Whether one artifact is kept rather than another.
fn is_ahead(artifacts: &Vec<Artifact>, i: usize, j: usize) -> (yes: bool)
    requires
        i < artifacts@.len(),
        j < artifacts@.len(),
    ensures
        yes == ahead(artifacts@, i as int, j as int),
{
    let (a, b) = (&artifacts[i], &artifacts[j]);
    if a.protected != b.protected {
        return a.protected;
    }
    let written_a: i128 = match a.modified {
        Some(modified) => modified,
        None => 0,
    };
    let written_b: i128 = match b.modified {
        Some(modified) => modified,
        None => 0,
    };
    if written_a != written_b {
        return written_a > written_b;
    }
    match text_order(b.name.as_str(), a.name.as_str()) {
        Order::Same => i < j,
        Order::Before => {
            proof {
                lemma_precedes_irreflexive(a.name@);
            }
            true
        },
        Order::After => {
            proof {
                lemma_precedes_irreflexive(a.name@);
                if precedes(b.name@, a.name@) {
                    lemma_precedes_transitive(a.name@, b.name@, a.name@);
                }
            }
            false
        },
    }
}

/// The leftovers to be removed, as positions in the listing, in its order. Temporary files go when
/// they have lingered too long; of the damaged files that were set aside the newest few are kept. The
/// one that was just set aside is protected.
pub fn maintain_config_artifacts_at(
    file_name: &str,
    artifacts: &Vec<Artifact>,
    now: i128,
) -> (removed: Vec<usize>)
    ensures
        forall|k: int|
            0 <= k < removed@.len() ==> (#[trigger] removed@[k]) < artifacts@.len() && is_swept(
                artifacts@,
                file_name@,
                now as int,
                removed@[k] as int,
            ),
        forall|i: int|
            0 <= i < artifacts@.len() && #[trigger] is_swept(
                artifacts@,
                file_name@,
                now as int,
                i,
            ) ==> removed@.contains(i as usize),
        forall|k: int, l: int| 0 <= k < l < removed@.len() ==> removed@[k] < removed@[l],
{
    let mut temporary_prefix = ".".to_owned();
    temporary_prefix.append(file_name);
    temporary_prefix.append(".tmp-");
    let mut corrupt_prefix = file_name.to_owned();
    corrupt_prefix.append(".corrupt-");
    let mut corrupt: Vec<bool> = Vec::new();
    let mut i: usize = 0;
    while i < artifacts.len()
        invariant
            i <= artifacts@.len(),
            temporary_prefix@ == "."@ + file_name@ + ".tmp-"@,
            corrupt_prefix@ == file_name@ + ".corrupt-"@,
            corrupt@.len() == i,
            forall|j: int| 0 <= j < i ==> #[trigger] corrupt@[j] == artifacts@[j].is_corrupt(file_name@),
        decreases artifacts@.len() - i,
    {
        let name = artifacts[i].name.as_str();
        let damaged = !has_prefix(name, temporary_prefix.as_str()) && has_prefix(
            name,
            corrupt_prefix.as_str(),
        );
        corrupt.push(damaged);
        i += 1;
    }
    let mut removed: Vec<usize> = Vec::new();
    let mut i: usize = 0;
    while i < artifacts.len()
        invariant
            i <= artifacts@.len(),
            temporary_prefix@ == "."@ + file_name@ + ".tmp-"@,
            corrupt@.len() == artifacts@.len(),
            forall|j: int|
                0 <= j < artifacts@.len() ==> #[trigger] corrupt@[j] == artifacts@[j].is_corrupt(file_name@),
            forall|k: int|
                0 <= k < removed@.len() ==> (#[trigger] removed@[k]) < i && is_swept(
                    artifacts@,
                    file_name@,
                    now as int,
                    removed@[k] as int,
                ),
            forall|j: int|
                0 <= j < i && #[trigger] is_swept(artifacts@, file_name@, now as int, j)
                    ==> removed@.contains(j as usize),
            forall|k: int, l: int| 0 <= k < l < removed@.len() ==> removed@[k] < removed@[l],
        decreases artifacts@.len() - i,
    {
        let swept = if corrupt[i] {
            corrupt_rank(artifacts, &corrupt, Ghost(file_name@), i) >= CORRUPT_ARTIFACT_RETENTION
        } else if has_prefix(artifacts[i].name.as_str(), temporary_prefix.as_str()) {
            !artifacts[i].protected && stale(&artifacts[i], now)
        } else {
            false
        };
        let ghost before = removed@;
        if swept {
            removed.push(i);
            proof {
                assert(removed@[removed@.len() - 1] == i);
                assert forall|j: int|
                    0 <= j < i && #[trigger] is_swept(
                        artifacts@,
                        file_name@,
                        now as int,
                        j,
                    ) implies removed@.contains(j as usize) by {
                    let k = choose|k: int| 0 <= k < before.len() && before[k] == j as usize;
                    assert(removed@[k] == j as usize);
                }
            }
        }
        i += 1;
    }
    removed
}

/// How many damaged files are kept rather than the one at `i`.
fn corrupt_rank(
    artifacts: &Vec<Artifact>,
    corrupt: &Vec<bool>,
    Ghost(file_name): Ghost<Seq<char>>,
    i: usize,
) -> (count: usize)
    requires
        i < artifacts@.len(),
        corrupt@.len() == artifacts@.len(),
        forall|j: int|
            0 <= j < artifacts@.len() ==> #[trigger] corrupt@[j] == artifacts@[j].is_corrupt(file_name),
    ensures
        count == rank(artifacts@, file_name, i as int),
{
    let mut count: usize = 0;
    let mut j: usize = 0;
    while j < artifacts.len()
        invariant
            i < artifacts@.len(),
            j <= artifacts@.len(),
            corrupt@.len() == artifacts@.len(),
            forall|j: int|
                0 <= j < artifacts@.len() ==> #[trigger] corrupt@[j] == artifacts@[j].is_corrupt(
                    file_name,
                ),
            count <= j,
            count == rank_among(artifacts@, file_name, i as int, j as int),
        decreases artifacts@.len() - j,
    {
        if corrupt[j] && is_ahead(artifacts, j, i) {
            count += 1;
        }
        j += 1;
    }
    count
}

/// Whether an artifact has lingered too long.
fn stale(artifact: &Artifact, now: i128) -> (yes: bool)
    ensures
        yes == artifact.is_stale(now as int),
{
    match artifact.modified {
        Some(modified) => match modified.checked_add(TEMP_ARTIFACT_MAX_AGE) {
            Some(limit) => now >= limit,
            None => false,
        },
        None => false,
    }
}

/// The order of artifacts is strict, and decides between any two of them.
proof fn lemma_ahead(artifacts: Seq<Artifact>, i: int, j: int)
    ensures
        !ahead(artifacts, i, i),
        ahead(artifacts, i, j) ==> !ahead(artifacts, j, i),
        i != j ==> ahead(artifacts, i, j) || ahead(artifacts, j, i),
{
    let (a, b) = (artifacts[i].name@, artifacts[j].name@);
    lemma_precedes_irreflexive(a);
    lemma_precedes_total(a, b);
    if precedes(a, b) && precedes(b, a) {
        lemma_precedes_transitive(a, b, a);
    }
}

/// The order of artifacts carries over.
proof fn lemma_ahead_transitive(artifacts: Seq<Artifact>, i: int, j: int, k: int)
    requires
        ahead(artifacts, i, j),
        ahead(artifacts, j, k),
    ensures
        ahead(artifacts, i, k),
{
    let (a, b, c) = (artifacts[i].name@, artifacts[j].name@, artifacts[k].name@);
    if precedes(b, a) && precedes(c, b) {
        lemma_precedes_transitive(c, b, a);
        lemma_precedes_irreflexive(a);
    }
}

/// What is kept rather than `i` is kept rather than whatever `i` is kept rather than.
proof fn lemma_rank_grows(
    artifacts: Seq<Artifact>,
    file_name: Seq<char>,
    i: int,
    j: int,
    n: int,
)
    requires
        ahead(artifacts, i, j),
        0 <= n <= artifacts.len(),
        0 <= i < artifacts.len(),
        artifacts[i].is_corrupt(file_name),
    ensures
        rank_among(artifacts, file_name, i, n) + (if i < n {
            1int
        } else {
            0
        }) <= rank_among(artifacts, file_name, j, n),
        0 <= rank_among(artifacts, file_name, i, n),
    decreases n,
{
    if n > 0 {
        lemma_rank_grows(artifacts, file_name, i, j, n - 1);
        lemma_ahead(artifacts, i, i);
        if ahead(artifacts, n - 1, i) {
            lemma_ahead_transitive(artifacts, n - 1, i, j);
        }
    }
}

/// A rank is not negative.
proof fn lemma_rank_bounds(artifacts: Seq<Artifact>, file_name: Seq<char>, i: int, n: int)
    requires
        0 <= n,
    ensures
        0 <= rank_among(artifacts, file_name, i, n) <= n,
    decreases n,
{
    if n > 0 {
        lemma_rank_bounds(artifacts, file_name, i, n - 1);
    }
}

/// A file that was just set aside is never swept, where it is the only one that was.
pub proof fn law_the_new_quarantine_is_kept(
    artifacts: Seq<Artifact>,
    file_name: Seq<char>,
    now: int,
    i: int,
)
    requires
        0 <= i < artifacts.len(),
        artifacts[i].protected,
        forall|j: int| 0 <= j < artifacts.len() && j != i ==> !#[trigger] artifacts[j].protected,
    ensures
        !is_swept(artifacts, file_name, now, i),
{
    lemma_first_rank(artifacts, file_name, i, artifacts.len() as int);
}

/// Nothing is kept rather than the only protected artifact.
proof fn lemma_first_rank(artifacts: Seq<Artifact>, file_name: Seq<char>, i: int, n: int)
    requires
        0 <= i < artifacts.len(),
        0 <= n <= artifacts.len(),
        artifacts[i].protected,
        forall|j: int| 0 <= j < artifacts.len() && j != i ==> !#[trigger] artifacts[j].protected,
    ensures
        rank_among(artifacts, file_name, i, n) == 0,
    decreases n,
{
    if n > 0 {
        lemma_first_rank(artifacts, file_name, i, n - 1);
        lemma_ahead(artifacts, i, i);
        if n - 1 != i {
            assert(!artifacts[n - 1].protected);
        }
    }
}

/// The damaged files that a sweep leaves.
pub open spec fn kept_corrupt(artifacts: Seq<Artifact>, file_name: Seq<char>, now: int) -> Set<int> {
    Set::range(0, artifacts.len() as int).filter(
        |i: int| artifacts[i].is_corrupt(file_name) && !is_swept(artifacts, file_name, now, i),
    )
}

/// A sweep leaves only so many damaged files, however many there were.
pub proof fn law_damaged_files_are_bounded(
    artifacts: Seq<Artifact>,
    file_name: Seq<char>,
    now: int,
)
    ensures
        kept_corrupt(artifacts, file_name, now).len() <= CORRUPT_ARTIFACT_RETENTION,
{
    let kept = kept_corrupt(artifacts, file_name, now);
    let n = artifacts.len() as int;
    let ranks = Set::<int>::range(0, 5);
    let to_rank = |i: int| rank(artifacts, file_name, i);
    assert forall|i: int| kept.contains(i) implies ranks.contains(#[trigger] to_rank(i)) by {
        lemma_rank_bounds(artifacts, file_name, i, n);
    }
    assert forall|i: int, j: int|
        kept.contains(i) && kept.contains(j) && #[trigger] to_rank(i) == #[trigger] to_rank(
            j,
        ) implies i == j by {
        lemma_ahead(artifacts, i, j);
        if i != j {
            if ahead(artifacts, i, j) {
                lemma_rank_grows(artifacts, file_name, i, j, n);
            } else {
                lemma_rank_grows(artifacts, file_name, j, i, n);
            }
        }
    }
    let image = kept.map(to_rank);
    vstd::set_lib::lemma_map_size(kept, image, to_rank);
    vstd::set_lib::range_set_properties::<int>(0, 5);
    vstd::set_lib::lemma_len_subset(image, ranks);
}

/// Of two damaged files, one swept and one kept, the kept one is the newer, unless one of them was
/// just set aside.
pub proof fn law_the_newest_damage_is_kept(
    artifacts: Seq<Artifact>,
    file_name: Seq<char>,
    now: int,
    kept: int,
    swept: int,
)
    requires
        0 <= kept < artifacts.len(),
        0 <= swept < artifacts.len(),
        artifacts[kept].is_corrupt(file_name),
        artifacts[swept].is_corrupt(file_name),
        is_swept(artifacts, file_name, now, swept),
        !is_swept(artifacts, file_name, now, kept),
        artifacts[kept].protected == artifacts[swept].protected,
    ensures
        artifacts[kept].written() >= artifacts[swept].written(),
{
    lemma_ahead(artifacts, kept, swept);
    if ahead(artifacts, swept, kept) {
        lemma_rank_grows(artifacts, file_name, swept, kept, artifacts.len() as int);
    }
}

/// Whether moving a file may go ahead: one that must not replace anything is refused where its
/// destination is taken.
pub fn move_file(replace_existing: bool, destination_exists: bool) -> (result: Result<(), String>)
    ensures
        match result {
            Ok(()) => replace_existing || !destination_exists,
            Err(text) => !replace_existing && destination_exists && text@
                == "destination already exists"@,
        },
{
    if !replace_existing && destination_exists {
        Err("destination already exists".to_owned())
    } else {
        Ok(())
    }
}

/// Whether a file may be moved onto its destination, whatever is there.
pub fn replace_file(destination_exists: bool) -> (result: Result<(), String>)
    ensures
        result is Ok,
{
    move_file(true, destination_exists)
}

/// Whether a file may be moved to a destination that nothing must be lost at: only where nothing is
/// there.
pub fn finalize_new(destination_exists: bool) -> (result: Result<(), String>)
    ensures
        match result {
            Ok(()) => !destination_exists,
            Err(text) => destination_exists && text@ == "destination already exists"@,
        },
{
    move_file(false, destination_exists)
}

/// A path as the native file functions take it: ended by a zero, and holding none before its end.
pub fn wide_path(units: Vec<u16>) -> (result: Result<Vec<u16>, String>)
    ensures
        match result {
            Ok(wide) => !units@.contains(0) && wide@ == units@.push(0),
            Err(text) => units@.contains(0) && text@ == "Windows path contains an embedded NUL"@,
        },
{
    let mut i: usize = 0;
    while i < units.len()
        invariant
            i <= units@.len(),
            forall|j: int| 0 <= j < i ==> #[trigger] units@[j] != 0,
        decreases units@.len() - i,
    {
        if units[i] == 0 {
            return Err("Windows path contains an embedded NUL".to_owned());
        }
        i += 1;
    }
    let mut wide = units;
    wide.push(0);
    Ok(wide)
}

/// How long a move is tried while someone else has the file open, in nanoseconds.
pub const MOVE_RETRY_TIMEOUT: u64 = 250_000_000;

/// What follows a move that failed.
#[derive(Clone, Copy, Debug, Eq, PartialEq, Structural)]
pub enum MoveStep {
    /// Sleep this many nanoseconds, then try again.
    RetryAfter(u64),
    /// Put the attributes of both files back, where they were changed; the error stands.
    Fail,
}

/// Decides after a move that failed: only a file that someone else has open is waited for.
pub fn after_failed_move(sharing_violation: bool, elapsed: u64) -> (step: MoveStep)
    ensures
        step == if sharing_violation && elapsed < MOVE_RETRY_TIMEOUT {
            MoveStep::RetryAfter(10_000_000)
        } else {
            MoveStep::Fail
        },
{
    if !sharing_violation || elapsed >= MOVE_RETRY_TIMEOUT {
        MoveStep::Fail
    } else {
        MoveStep::RetryAfter(10_000_000)
    }
}

/// The file attributes that can be set: archive, hidden, not indexed, offline, read-only, system and
/// temporary. The others belong to the file system.
pub const SETTABLE_ATTRIBUTES: u32 = 0x3127;

/// The attribute of a file that has no other one.
pub const ATTRIBUTE_NORMAL: u32 = 0x80;

/// The attribute of a file that cannot be written.
pub const ATTRIBUTE_READONLY: u32 = 0x1;

/// The attributes to set on a file that is to have the given ones.
pub open spec fn settable(attributes: u32) -> u32 {
    if attributes & SETTABLE_ATTRIBUTES == 0 {
        ATTRIBUTE_NORMAL
    } else {
        attributes & SETTABLE_ATTRIBUTES
    }
}

/// The attributes to set on a file that is to have the given ones.
pub fn settable_attributes(attributes: u32) -> (filtered: u32)
    ensures
        filtered == settable(attributes),
{
    let filtered: u32 = attributes & SETTABLE_ATTRIBUTES;
    if filtered == 0 {
        ATTRIBUTE_NORMAL
    } else {
        filtered
    }
}

/// What can be set stays as it is: an attribute that is settable is kept, one that is not is
/// dropped, and nothing settable changes the second time.
pub proof fn law_settable_attributes(attributes: u32, bit: u32)
    requires
        bit < 32,
    ensures
        attributes & SETTABLE_ATTRIBUTES != 0 ==> settable(settable(attributes)) == settable(
            attributes,
        ),
        SETTABLE_ATTRIBUTES & (1u32 << bit) != 0 ==> settable(attributes) & (1u32 << bit)
            == attributes & (1u32 << bit),
        attributes & SETTABLE_ATTRIBUTES != 0 && SETTABLE_ATTRIBUTES & (1u32 << bit) == 0
            ==> settable(attributes) & (1u32 << bit) == 0,
{
    let a = attributes;
    let b = 1u32 << bit;
    assert((a & 0x3127u32) & 0x3127u32 == a & 0x3127u32) by (bit_vector);
    assert(0x3127u32 & b != 0 && a & 0x3127u32 != 0 ==> (a & 0x3127u32) & b == a & b)
        by (bit_vector)
        requires
            b == 1u32 << bit,
            bit < 32,
    ;
    assert(0x3127u32 & b != 0 && a & 0x3127u32 == 0 ==> 0x80u32 & b == 0 && a & b == 0)
        by (bit_vector)
        requires
            b == 1u32 << bit,
            bit < 32,
    ;
    assert(0x3127u32 & b == 0 ==> (a & 0x3127u32) & b == 0) by (bit_vector);
}

/// What the attributes of a destination ask of a replacement: the attributes that the replacing file
/// gets, and those that the destination gets first so that it can be replaced, where it needs any.
pub fn replacement_attributes(destination: u32) -> (attributes: (u32, Option<u32>))
    ensures
        attributes.0 == settable(destination),
        attributes.1 == if destination & ATTRIBUTE_READONLY != 0 {
            Some(settable(destination & !ATTRIBUTE_READONLY))
        } else {
            None
        },
{
    let writable = if destination & ATTRIBUTE_READONLY != 0 {
        Some(settable_attributes(destination & !ATTRIBUTE_READONLY))
    } else {
        None
    };
    (settable_attributes(destination), writable)
}

/// The directory of a file is where the file is, and a file without one is where the program is.
pub proof fn law_a_file_is_written_in_its_own_directory(directory: Seq<Part>, name: Seq<char>)
    ensures
        directory.len() > 0 ==> usable_parts(directory.push(Part::Normal(name))) == directory,
        directory.len() == 0 ==> usable_parts(directory.push(Part::Normal(name))) == seq![
            Part::Current,
        ],
{
    assert(directory.push(Part::Normal(name)).drop_last() =~= directory);
}

/// What is written beside a file is found again as what it is, and never taken for anything else.
pub proof fn law_artifacts_are_found_by_their_names(
    temporary: Artifact,
    damaged: Artifact,
    file_name: Seq<char>,
    process: int,
    sequence: int,
)
    requires
        temporary.name@ == temporary_name_of(file_name, process, sequence),
        damaged.name@ == quarantine_name_of(file_name, process, sequence),
    ensures
        temporary.is_temporary(file_name) && !temporary.is_corrupt(file_name),
        damaged.is_corrupt(file_name) && !damaged.is_temporary(file_name),
{
    reveal_strlit(".");
    reveal_strlit(".tmp-");
    reveal_strlit(".corrupt-");
    let n = file_name.len() as int;
    let (start, head) = ("."@ + file_name + ".tmp-"@, file_name + ".corrupt-"@);
    assert(temporary.name@.take(n + 6) =~= start);
    assert(damaged.name@.take(n + 9) =~= head);
    if damaged.name@.len() >= n + 6 && damaged.name@.take(n + 6) == start {
        assert(start[n + 1] == '.');
        assert(damaged.name@.take(n + 6)[n + 1] == 'c');
    }
}

/// A process that counts on never has the same name twice, and no two processes share one.
pub proof fn law_names_beside_a_file_are_never_shared(
    file_name: Seq<char>,
    process: int,
    sequence: int,
    other_process: int,
    other_sequence: int,
)
    requires
        0 <= process,
        0 <= sequence,
        0 <= other_process,
        0 <= other_sequence,
    ensures
        temporary_name_of(file_name, process, sequence) == temporary_name_of(
            file_name,
            other_process,
            other_sequence,
        ) ==> process == other_process && sequence == other_sequence,
        quarantine_name_of(file_name, process, sequence) == quarantine_name_of(
            file_name,
            other_process,
            other_sequence,
        ) ==> process == other_process && sequence == other_sequence,
{
    let (p, s, q, t) = (process, sequence, other_process, other_sequence);
    if temporary_name_of(file_name, p, s) == temporary_name_of(file_name, q, t) {
        lemma_numbers_apart("."@ + file_name + ".tmp-"@, p, s, q, t);
    }
    if quarantine_name_of(file_name, p, s) == quarantine_name_of(file_name, q, t) {
        lemma_numbers_apart(file_name + ".corrupt-"@, p, s, q, t);
    }
}

/// Two numbers with a hyphen between them, behind the same start, are the same numbers.
proof fn lemma_numbers_apart(start: Seq<char>, a: int, b: int, c: int, d: int)
    requires
        0 <= a,
        0 <= b,
        0 <= c,
        0 <= d,
        start + decimal(a as nat) + "-"@ + decimal(b as nat) == start + decimal(c as nat) + "-"@
            + decimal(d as nat),
    ensures
        a == c,
        b == d,
{
    reveal_strlit("-");
    let (x, y) = (decimal(a as nat), decimal(b as nat));
    let (z, w) = (decimal(c as nat), decimal(d as nat));
    let (left, right) = (start + x + "-"@ + y, start + z + "-"@ + w);
    let n = start.len() as int;
    law_decimals_read_back(a as nat);
    law_decimals_read_back(b as nat);
    law_decimals_read_back(c as nat);
    law_decimals_read_back(d as nat);
    assert(left[n + x.len()] == '-');
    assert(right[n + z.len()] == '-');
    if x.len() < z.len() {
        assert(right[n + x.len()] == z[x.len() as int]);
    }
    if z.len() < x.len() {
        assert(left[n + z.len()] == x[z.len() as int]);
    }
    assert(left.subrange(n, n + x.len()) =~= x);
    assert(right.subrange(n, n + z.len()) =~= z);
    assert(left.skip(n + x.len() + 1) =~= y);
    assert(right.skip(n + z.len() + 1) =~= w);
}

/// A temporary file is swept exactly when it has lain there for a week and is not the one in use. What
/// was not written beside the file is never swept.
pub proof fn law_a_week_old_leftover_is_swept(
    artifacts: Seq<Artifact>,
    file_name: Seq<char>,
    now: int,
    i: int,
)
    requires
        0 <= i < artifacts.len(),
    ensures
        artifacts[i].is_temporary(file_name) ==> (is_swept(artifacts, file_name, now, i)
            <==> !artifacts[i].protected && (artifacts[i].modified matches Some(modified) && now
            - modified >= 7 * 86_400 * 1_000_000_000)),
        !starts_with(artifacts[i].name@, "."@ + file_name + ".tmp-"@) && !starts_with(
            artifacts[i].name@,
            file_name + ".corrupt-"@,
        ) ==> !is_swept(artifacts, file_name, now, i),
{
}

/// A damaged file is swept exactly where five others are kept rather than it: those just set aside,
/// then the newer ones.
pub proof fn law_five_damaged_files_are_kept(
    artifacts: Seq<Artifact>,
    file_name: Seq<char>,
    now: int,
    i: int,
)
    requires
        0 <= i < artifacts.len(),
        artifacts[i].is_corrupt(file_name),
    ensures
        is_swept(artifacts, file_name, now, i) <==> kept_before(artifacts, file_name, i).len() >= 5,
        forall|j: int|
            0 <= j < artifacts.len() && artifacts[j].is_corrupt(file_name)
                && artifacts[i].protected == artifacts[j].protected && artifacts[j].written()
                > artifacts[i].written() ==> #[trigger] kept_before(
                artifacts,
                file_name,
                i,
            ).contains(j),
        forall|j: int| #[trigger]
            kept_before(artifacts, file_name, i).contains(j) ==> artifacts[j].is_corrupt(file_name)
                && j != i && !(artifacts[i].protected && !artifacts[j].protected) && (
            artifacts[i].protected == artifacts[j].protected ==> artifacts[j].written()
                >= artifacts[i].written()),
        kept_corrupt(artifacts, file_name, now).len() <= 5,
{
    lemma_rank_counts(artifacts, file_name, i, artifacts.len() as int);
    law_damaged_files_are_bounded(artifacts, file_name, now);
    assert forall|j: int| #[trigger] kept_before(artifacts, file_name, i).contains(j) implies j != i by {
        lemma_ahead(artifacts, i, i);
    }
}

/// The damaged files that are kept rather than one of them.
pub open spec fn kept_before(artifacts: Seq<Artifact>, file_name: Seq<char>, i: int) -> Set<int> {
    Set::range(0, artifacts.len() as int).filter(
        |j: int| artifacts[j].is_corrupt(file_name) && ahead(artifacts, j, i),
    )
}

/// A rank is the number of those that are kept before.
proof fn lemma_rank_counts(artifacts: Seq<Artifact>, file_name: Seq<char>, i: int, n: int)
    requires
        0 <= n <= artifacts.len(),
    ensures
        Set::<int>::range(0, n).filter(
            |j: int| artifacts[j].is_corrupt(file_name) && ahead(artifacts, j, i),
        ).finite(),
        rank_among(artifacts, file_name, i, n) == Set::<int>::range(0, n).filter(
            |j: int| artifacts[j].is_corrupt(file_name) && ahead(artifacts, j, i),
        ).len(),
    decreases n,
{
    let counts = |j: int| artifacts[j].is_corrupt(file_name) && ahead(artifacts, j, i);
    let now = Set::<int>::range(0, n).filter(counts);
    if n > 0 {
        lemma_rank_counts(artifacts, file_name, i, n - 1);
        let before = Set::<int>::range(0, n - 1).filter(counts);
        if counts(n - 1) {
            assert(now =~= before.insert(n - 1));
        } else {
            assert(now =~= before);
        }
    } else {
        assert(now =~= Set::<int>::empty());
    }
}

/// A write is done exactly where every step of it worked, and the new file is there exactly where it
/// was written and put in its place.
pub proof fn law_a_write_is_done_where_every_step_worked(works: spec_fn(WriteStep) -> bool)
    ensures
        ({
            let (files, finished) = outcome_of(WriteStep::PreservePermissions, works);
            let replaced = works(WriteStep::PreservePermissions) && works(WriteStep::WriteContents)
                && works(WriteStep::Replace);
            &&& files is New <==> replaced
            &&& finished <==> replaced && works(WriteStep::SyncParent)
        }),
{
    reveal_with_fuel(outcome_of, 4);
}

/// A step that failed leaves no temporary file behind, unless the file was already replaced.
pub proof fn law_a_failed_step_cleans_up(step: WriteStep)
    ensures
        after_step(step, false) is RemoveTemporary <==> !(step is SyncParent),
        after_step(step, false) is Fail <==> step is SyncParent,
        after_step(step, true) is Finished <==> step is SyncParent,
{
}

/// The attributes that a file is given are those that may be set, and where there are none of them, that
/// of a file without attributes.
pub proof fn law_attributes_that_may_be_set(attributes: u32)
    ensures
        attributes & 0x3127 != 0 ==> settable(attributes) == attributes & 0x3127,
        attributes & 0x3127 == 0 ==> settable(attributes) == 0x80,
        ATTRIBUTE_READONLY == 1,
{
}

/// A name beside a file is looked for 128 times, and a file that someone else has open is tried again for
/// a quarter of a second.
pub proof fn law_how_long_files_are_tried()
    ensures
        NAME_ATTEMPTS == 128,
        MOVE_RETRY_TIMEOUT * 4 == 1_000_000_000,
{
}

/// A file whose age is not known counts as the oldest there can be, and any other by its own time.
pub proof fn law_unknown_ages_are_the_oldest(artifact: Artifact)
    ensures
        artifact.modified is None ==> artifact.written() == 0,
        artifact.modified matches Some(modified) ==> artifact.written() == modified,
{
}

} // verus!
