//! Recent captures, remembered well enough to find them again.
use vstd::prelude::*;
use vstd::seq_lib::*;
use vstd::string::*;

use crate::error::ConfigError;
use crate::path::{parts_of, FilePath, Part};
use crate::text::{
    holds, is_among, law_patterns_are_replaced_where_they_stand, replace, replaced, starts_with,
    strip_prefix, texts,
};

verus! {

/// The name of the history file.
pub const HISTORY_FILE_NAME: &'static str = "history.toml";

/// The version of the history format.
pub const HISTORY_SCHEMA_VERSION: u32 = 1;

/// How much of the capture history is kept. Every limit is independent of the others.
#[derive(Clone, Copy, Debug, Eq, PartialEq, Structural)]
pub struct RetentionPolicy {
    /// The newest entries, this many. Zero keeps none.
    pub max_items: usize,
    /// Entries older than this many seconds are forgotten.
    pub max_age: Option<u64>,
    /// The bytes of all captures together.
    pub max_total_bytes: Option<u64>,
}

/// One capture, as much of it as is worth keeping.
#[derive(Debug, Eq, PartialEq)]
pub struct HistoryEntry {
    /// Where the capture was written.
    pub path: String,
    /// When it was taken, in microseconds since the Unix epoch.
    pub captured_at_micros: i64,
    pub bytes: u64,
    pub width: u32,
    pub height: u32,
    pub display: String,
    pub mode: String,
}

impl HistoryEntry {
    /// How old the capture is, in nanoseconds. One stamped in the future is new, and one stamped
    /// before the epoch counts as taken then.
    pub open spec fn spec_age(self, now_ns: int) -> int {
        let taken = if self.captured_at_micros < 0 {
            0
        } else {
            self.captured_at_micros * 1_000
        };
        if now_ns > taken {
            now_ns - taken
        } else {
            0
        }
    }

    /// How old the capture is, in nanoseconds, at a moment given in nanoseconds since the epoch.
    pub fn age(&self, now_ns: u128) -> (age_ns: u128)
        ensures
            age_ns == self.spec_age(now_ns as int),
    {
        let taken: u128 = if self.captured_at_micros < 0 {
            0
        } else {
            self.captured_at_micros as u128 * 1_000
        };
        now_ns.saturating_sub(taken)
    }

    /// The stamp of a moment, given in nanoseconds since the epoch where the clock is not before
    /// it. A moment that no stamp can hold is stamped as the epoch.
    pub fn micros_since_epoch(nanos_since_epoch: Option<u128>) -> (micros: i64)
        ensures
            micros == match nanos_since_epoch {
                Some(nanos) => if nanos / 1_000 <= i64::MAX {
                    (nanos / 1_000) as int
                } else {
                    0
                },
                None => 0,
            },
    {
        match nanos_since_epoch {
            Some(nanos) => {
                let micros: u128 = nanos / 1_000;
                if micros <= i64::MAX as u128 {
                    micros as i64
                } else {
                    0
                }
            },
            None => 0,
        }
    }
}

/// The captures that are remembered, newest first.
#[derive(Debug)]
pub struct CaptureHistory {
    pub schema_version: u32,
    pub entries: Vec<HistoryEntry>,
}

impl Default for CaptureHistory {
    fn default() -> (history: Self)
        ensures
            history.schema_version == HISTORY_SCHEMA_VERSION,
            history.entries@ == Seq::<HistoryEntry>::empty(),
    {
        CaptureHistory { schema_version: HISTORY_SCHEMA_VERSION, entries: Vec::new() }
    }
}

/// The bytes of captures, all together.
pub open spec fn total_bytes(entries: Seq<HistoryEntry>) -> int
    decreases entries.len(),
{
    if entries.len() == 0 {
        0
    } else {
        total_bytes(entries.drop_last()) + entries.last().bytes
    }
}

/// Whether an entry is older than a policy allows.
pub open spec fn outlived(entry: HistoryEntry, policy: RetentionPolicy, now_ns: int) -> bool {
    policy.max_age is Some && entry.spec_age(now_ns) > policy.max_age->Some_0 * 1_000_000_000
}

/// Whether there is room for an entry behind those that are kept already.
pub open spec fn fits(kept: Seq<HistoryEntry>, entry: HistoryEntry, policy: RetentionPolicy) -> bool {
    &&& kept.len() < policy.max_items
    &&& policy.max_total_bytes is Some ==> saturated(total_bytes(kept) + entry.bytes)
        <= policy.max_total_bytes->Some_0
}

/// A number of bytes, no more than can be counted.
pub open spec fn saturated(bytes: int) -> int {
    if bytes > u64::MAX {
        u64::MAX as int
    } else {
        bytes
    }
}

/// What is kept and what is forgotten of some entries, both in their order, and whether there was no
/// room for one of them: then the older ones behind it are forgotten too.
pub open spec fn sorted_out(
    entries: Seq<HistoryEntry>,
    policy: RetentionPolicy,
    now_ns: int,
) -> (Seq<HistoryEntry>, Seq<HistoryEntry>, bool)
    decreases entries.len(),
{
    if entries.len() == 0 {
        (Seq::empty(), Seq::empty(), false)
    } else {
        let (kept, forgotten, full) = sorted_out(entries.drop_last(), policy, now_ns);
        let last = entries.last();
        if outlived(last, policy, now_ns) {
            (kept, forgotten.push(last), full)
        } else if full || !fits(kept, last, policy) {
            (kept, forgotten.push(last), true)
        } else {
            (kept.push(last), forgotten, false)
        }
    }
}

/// What is kept and what is forgotten of some entries, both in their order.
pub open spec fn pruned(
    entries: Seq<HistoryEntry>,
    policy: RetentionPolicy,
    now_ns: int,
) -> (Seq<HistoryEntry>, Seq<HistoryEntry>) {
    let (kept, forgotten, _) = sorted_out(entries, policy, now_ns);
    (kept, forgotten)
}

/// Where the kept entries stayed, as the flags say.
pub open spec fn flagged(entries: Seq<HistoryEntry>, flags: Seq<bool>) -> Seq<HistoryEntry>
    recommends
        entries.len() == flags.len(),
    decreases entries.len(),
{
    if entries.len() == 0 || flags.len() == 0 {
        Seq::empty()
    } else if flags.last() {
        flagged(entries.drop_last(), flags.drop_last()).push(entries.last())
    } else {
        flagged(entries.drop_last(), flags.drop_last())
    }
}

/// The bytes counted so far while pruning, which stop at the largest count.
proof fn lemma_total_nonnegative(entries: Seq<HistoryEntry>)
    ensures
        total_bytes(entries) >= 0,
    decreases entries.len(),
{
    if entries.len() > 0 {
        lemma_total_nonnegative(entries.drop_last());
    }
}

impl CaptureHistory {
    /// The most recent capture.
    pub fn most_recent(&self) -> (entry: Option<&HistoryEntry>)
        ensures
            match entry {
                Some(entry) => self.entries@.len() > 0 && *entry == self.entries@[0],
                None => self.entries@.len() == 0,
            },
    {
        if self.entries.len() == 0 {
            None
        } else {
            Some(&self.entries[0])
        }
    }

    /// Applies a policy, and gives back what was forgotten. Where there is no room for all of them,
    /// the oldest are.
    pub fn prune(&mut self, policy: RetentionPolicy, now_ns: u128) -> (forgotten: Vec<HistoryEntry>)
        ensures
            final(self).schema_version == old(self).schema_version,
            (final(self).entries@, forgotten@) == pruned(
                old(self).entries@,
                policy,
                now_ns as int,
            ),
            policy.max_age is None ==> final(self).entries@ == old(self).entries@.take(
                final(self).entries@.len() as int,
            ),
    {
        let mut entries: Vec<HistoryEntry> = Vec::new();
        std::mem::swap(&mut entries, &mut self.entries);
        let ghost all = entries@;
        let mut full = false;
        let mut kept: Vec<HistoryEntry> = Vec::new();
        let mut forgotten: Vec<HistoryEntry> = Vec::new();
        let mut bytes: u64 = 0;
        let mut count: usize = 0;
        let length: usize = entries.len();
        while count < length
            invariant
                count <= length,
                length == all.len(),
                entries@ == all.skip(count as int),
                (kept@, forgotten@, full) == sorted_out(
                    all.take(count as int),
                    policy,
                    now_ns as int,
                ),
                bytes == saturated(total_bytes(kept@)),
            decreases length - count,
        {
            let entry = entries.remove(0);
            proof {
                assert(all.take(count + 1).drop_last() =~= all.take(count as int));
                lemma_total_nonnegative(kept@);
            }
            let too_old = match policy.max_age {
                Some(limit) => entry.age(now_ns) > limit as u128 * 1_000_000_000,
                None => false,
            };
            let too_many = kept.len() >= policy.max_items;
            let too_large = match policy.max_total_bytes {
                Some(limit) => bytes.saturating_add(entry.bytes) > limit,
                None => false,
            };
            if too_old {
                forgotten.push(entry);
            } else if full || too_many || too_large {
                full = true;
                forgotten.push(entry);
            } else {
                bytes = bytes.saturating_add(entry.bytes);
                let ghost before = kept@;
                kept.push(entry);
                proof {
                    assert(kept@.drop_last() =~= before);
                }
            }
            count += 1;
        }
        proof {
            assert(all.take(count as int) =~= all);
            law_the_oldest_are_forgotten(all, policy, now_ns as int);
        }
        self.entries = kept;
        forgotten
    }

    /// Adds the newest capture and applies a policy, and gives back what was forgotten.
    pub fn record(&mut self, entry: HistoryEntry, policy: RetentionPolicy, now_ns: u128) -> (
        forgotten: Vec<HistoryEntry>)
        ensures
            final(self).schema_version == old(self).schema_version,
            (final(self).entries@, forgotten@) == pruned(
                seq![entry] + old(self).entries@,
                policy,
                now_ns as int,
            ),
    {
        self.entries.insert(0, entry);
        proof {
            assert(self.entries@ =~= seq![entry] + old(self).entries@);
        }
        self.prune(policy, now_ns)
    }

    /// Forgets the entries whose files are gone, and says how many those were. `present` says of
    /// each entry whether its file is there.
    pub fn forget_missing(&mut self, present: &Vec<bool>) -> (forgotten: usize)
        requires
            present@.len() == old(self).entries@.len(),
        ensures
            final(self).schema_version == old(self).schema_version,
            final(self).entries@ == flagged(old(self).entries@, present@),
            forgotten == old(self).entries@.len() - final(self).entries@.len(),
    {
        let mut entries: Vec<HistoryEntry> = Vec::new();
        std::mem::swap(&mut entries, &mut self.entries);
        let ghost all = entries@;
        let before: usize = entries.len();
        let mut kept: Vec<HistoryEntry> = Vec::new();
        let mut count: usize = 0;
        while count < before
            invariant
                count <= before,
                before == all.len(),
                present@.len() == all.len(),
                entries@ == all.skip(count as int),
                kept@ == flagged(all.take(count as int), present@.take(count as int)),
                kept@.len() <= count,
            decreases before - count,
        {
            let entry = entries.remove(0);
            proof {
                assert(all.take(count + 1).drop_last() =~= all.take(count as int));
                assert(present@.take(count + 1).drop_last() =~= present@.take(count as int));
            }
            if present[count] {
                kept.push(entry);
            }
            count += 1;
        }
        proof {
            assert(all.take(count as int) =~= all);
            assert(present@.take(count as int) =~= present@);
        }
        let after: usize = kept.len();
        self.entries = kept;
        before - after
    }
}

/// The kept entries meet every limit, and nothing is lost: what was kept and what was forgotten are
/// together what there was.
pub proof fn law_prune_meets_every_limit(
    entries: Seq<HistoryEntry>,
    policy: RetentionPolicy,
    now_ns: int,
)
    requires
        now_ns >= 0,
    ensures
        ({
            let (kept, forgotten) = pruned(entries, policy, now_ns);
            &&& kept.len() <= policy.max_items
            &&& kept.len() + forgotten.len() == entries.len()
            &&& kept.to_multiset().add(forgotten.to_multiset()) =~= entries.to_multiset()
            &&& policy.max_age is Some ==> forall|i: int|
                0 <= i < kept.len() ==> (#[trigger] kept[i]).spec_age(now_ns)
                    <= policy.max_age->Some_0 * 1_000_000_000
            &&& policy.max_total_bytes is Some ==> saturated(total_bytes(kept))
                <= policy.max_total_bytes->Some_0
        }),
    decreases entries.len(),
{
    broadcast use group_to_multiset_ensures;

    if entries.len() > 0 {
        law_prune_meets_every_limit(entries.drop_last(), policy, now_ns);
        let (kept, forgotten) = pruned(entries.drop_last(), policy, now_ns);
        let last = entries.last();
        assert(entries =~= entries.drop_last().push(last));
        assert(kept.push(last).drop_last() =~= kept);
    } else {
        assert(entries =~= Seq::<HistoryEntry>::empty());
    }
}

/// The entries that are not too old.
pub open spec fn young(entries: Seq<HistoryEntry>, policy: RetentionPolicy, now_ns: int) -> Seq<
    HistoryEntry,
>
    decreases entries.len(),
{
    if entries.len() == 0 {
        Seq::empty()
    } else if outlived(entries.last(), policy, now_ns) {
        young(entries.drop_last(), policy, now_ns)
    } else {
        young(entries.drop_last(), policy, now_ns).push(entries.last())
    }
}

/// Of the entries that are not too old the front is kept, so that none is kept that is older than
/// one that was forgotten for want of room. Where age is no reason to forget, the front of all of
/// them is.
pub proof fn law_the_oldest_are_forgotten(
    entries: Seq<HistoryEntry>,
    policy: RetentionPolicy,
    now_ns: int,
)
    ensures
        ({
            let (kept, _, full) = sorted_out(entries, policy, now_ns);
            let candidates = young(entries, policy, now_ns);
            &&& kept.len() <= candidates.len()
            &&& kept == candidates.take(kept.len() as int)
            &&& !full ==> kept == candidates
            &&& policy.max_age is None ==> candidates == entries
        }),
    decreases entries.len(),
{
    if entries.len() > 0 {
        law_the_oldest_are_forgotten(entries.drop_last(), policy, now_ns);
        let (kept, _, _) = sorted_out(entries, policy, now_ns);
        let candidates = young(entries, policy, now_ns);
        assert(entries =~= entries.drop_last().push(entries.last()));
        assert(kept =~= candidates.take(kept.len() as int));
    } else {
        assert(entries =~= Seq::<HistoryEntry>::empty());
        assert(young(entries, policy, now_ns) =~= Seq::<HistoryEntry>::empty().take(0));
    }
}

/// What was kept is kept again, with room for all of it.
proof fn lemma_kept_again(entries: Seq<HistoryEntry>, policy: RetentionPolicy, now_ns: int)
    ensures
        ({
            let kept = sorted_out(entries, policy, now_ns).0;
            sorted_out(kept, policy, now_ns) == (kept, Seq::<HistoryEntry>::empty(), false)
        }),
    decreases entries.len(),
{
    if entries.len() > 0 {
        lemma_kept_again(entries.drop_last(), policy, now_ns);
        let (kept, _, full) = sorted_out(entries.drop_last(), policy, now_ns);
        let last = entries.last();
        if !outlived(last, policy, now_ns) && !full && fits(kept, last, policy) {
            assert(kept.push(last).drop_last() =~= kept);
        }
    }
}

/// Pruning again changes nothing.
pub proof fn law_prune_is_idempotent(
    entries: Seq<HistoryEntry>,
    policy: RetentionPolicy,
    now_ns: int,
)
    ensures
        pruned(pruned(entries, policy, now_ns).0, policy, now_ns) == (
            pruned(entries, policy, now_ns).0,
            Seq::<HistoryEntry>::empty(),
        ),
{
    lemma_kept_again(entries, policy, now_ns);
}

/// The first of some entries is kept first, if it fits alone.
proof fn lemma_front_is_kept(entries: Seq<HistoryEntry>, policy: RetentionPolicy, now_ns: int)
    requires
        entries.len() > 0,
        !outlived(entries[0], policy, now_ns),
        fits(Seq::empty(), entries[0], policy),
    ensures
        pruned(entries, policy, now_ns).0.len() > 0,
        pruned(entries, policy, now_ns).0[0] == entries[0],
    decreases entries.len(),
{
    if entries.len() == 1 {
        assert(sorted_out(entries.drop_last(), policy, now_ns) == (
            Seq::<HistoryEntry>::empty(),
            Seq::<HistoryEntry>::empty(),
            false,
        ));
    } else {
        lemma_front_is_kept(entries.drop_last(), policy, now_ns);
    }
}

/// A capture that meets the limits by itself is the most recent one once it is recorded.
pub proof fn law_recorded_capture_is_most_recent(
    entries: Seq<HistoryEntry>,
    entry: HistoryEntry,
    policy: RetentionPolicy,
    now_ns: int,
)
    requires
        policy.max_items > 0,
        policy.max_age is Some ==> entry.spec_age(now_ns) <= policy.max_age->Some_0 * 1_000_000_000,
        policy.max_total_bytes is Some ==> entry.bytes <= policy.max_total_bytes->Some_0,
    ensures
        pruned(seq![entry] + entries, policy, now_ns).0.len() > 0,
        pruned(seq![entry] + entries, policy, now_ns).0[0] == entry,
{
    lemma_front_is_kept(seq![entry] + entries, policy, now_ns);
}

/// A policy of no entries remembers nothing.
pub proof fn law_zero_items_remembers_nothing(
    entries: Seq<HistoryEntry>,
    policy: RetentionPolicy,
    now_ns: int,
)
    requires
        policy.max_items == 0,
    ensures
        pruned(entries, policy, now_ns) == (Seq::<HistoryEntry>::empty(), entries),
    decreases entries.len(),
{
    if entries.len() > 0 {
        law_zero_items_remembers_nothing(entries.drop_last(), policy, now_ns);
    } else {
        assert(entries =~= Seq::<HistoryEntry>::empty());
    }
}

/// What reading the history file gave.
#[derive(Debug)]
pub enum HistoryRead {
    Missing,
    Failed { path: String, source: String },
    Malformed(String),
    Parsed(CaptureHistory),
}

/// The history that was read, if there was one. One written in another format is reported rather
/// than taken for none.
pub fn read_history(read: HistoryRead) -> (result: Result<Option<CaptureHistory>, ConfigError>)
    ensures
        result == match read {
            HistoryRead::Missing => Ok::<Option<CaptureHistory>, ConfigError>(None),
            HistoryRead::Failed { path, source } => Err(ConfigError::Read { path, source }),
            HistoryRead::Malformed(message) => Err(ConfigError::Parse(message)),
            HistoryRead::Parsed(history) => if history.schema_version == HISTORY_SCHEMA_VERSION {
                Ok(Some(history))
            } else {
                Err(ConfigError::UnsupportedSchema(history.schema_version))
            },
        },
{
    match read {
        HistoryRead::Missing => Ok(None),
        HistoryRead::Failed { path, source } => Err(ConfigError::Read { path, source }),
        HistoryRead::Malformed(message) => Err(ConfigError::Parse(message)),
        HistoryRead::Parsed(history) => {
            if history.schema_version != HISTORY_SCHEMA_VERSION {
                Err(ConfigError::UnsupportedSchema(history.schema_version))
            } else {
                Ok(Some(history))
            }
        },
    }
}

/// Where the history is kept.
#[derive(Debug)]
pub struct HistoryStore {
    pub location: Option<FilePath>,
}

impl HistoryStore {
    /// The store in the storage directory.
    pub fn for_default_storage(storage: Option<&FilePath>) -> (store: Self)
        ensures
            match storage {
                Some(storage) => parts_of(store.location) == Some(
                    storage@.push(Part::Normal("history.toml"@)),
                ),
                None => store.location is None,
            },
    {
        HistoryStore {
            location: match storage {
                Some(storage) => Some(storage.join("history.toml")),
                None => None,
            },
        }
    }

    /// The store beside a configuration file.
    pub fn for_config(config_path: &FilePath) -> (store: Self)
        ensures
            match FilePath::parent_parts(config_path@) {
                Some(directory) => parts_of(store.location) == Some(
                    directory.push(Part::Normal("history.toml"@)),
                ),
                None => store.location is None,
            },
    {
        HistoryStore {
            location: match config_path.parent() {
                Some(directory) => Some(directory.join("history.toml")),
                None => None,
            },
        }
    }

    /// The store in one file.
    pub fn at(path: FilePath) -> (store: Self)
        ensures
            store.location == Some(path),
    {
        HistoryStore { location: Some(path) }
    }

    /// The file of the store.
    pub fn path(&self) -> (path: Option<&FilePath>)
        ensures
            match path {
                Some(path) => self.location == Some(*path),
                None => self.location is None,
            },
    {
        match &self.location {
            Some(path) => Some(path),
            None => None,
        }
    }

    /// The file of the store, which has to be known.
    pub fn required_path(&self) -> (result: Result<&FilePath, ConfigError>)
        ensures
            match self.location {
                Some(path) => result matches Ok(found) && *found == path,
                None => result == Err::<&FilePath, ConfigError>(
                    ConfigError::HomeDirectoryUnavailable,
                ),
            },
    {
        match &self.location {
            Some(path) => Ok(path),
            None => Err(ConfigError::HomeDirectoryUnavailable),
        }
    }

    /// What loading the store fails with, if it does.
    pub open spec fn load_fault(self, read: HistoryRead) -> Option<ConfigError> {
        if self.location is None {
            Some(ConfigError::HomeDirectoryUnavailable)
        } else {
            match read {
                HistoryRead::Missing => None,
                HistoryRead::Failed { path, source } => Some(ConfigError::Read { path, source }),
                HistoryRead::Malformed(message) => Some(ConfigError::Parse(message)),
                HistoryRead::Parsed(history) => if history.schema_version
                    == HISTORY_SCHEMA_VERSION {
                    None
                } else {
                    Some(ConfigError::UnsupportedSchema(history.schema_version))
                },
            }
        }
    }

    /// The entries that loading the store gives.
    pub open spec fn loaded(read: HistoryRead) -> Seq<HistoryEntry> {
        match read {
            HistoryRead::Parsed(history) => history.entries@,
            _ => Seq::empty(),
        }
    }

    /// The history, from what reading the store's file gave.
    pub fn load(&self, read: HistoryRead) -> (result: Result<CaptureHistory, ConfigError>)
        ensures
            match self.load_fault(read) {
                Some(error) => result == Err::<CaptureHistory, ConfigError>(error),
                None => result matches Ok(history) && history.schema_version
                    == HISTORY_SCHEMA_VERSION && history.entries@ == Self::loaded(read),
            },
    {
        match self.required_path() {
            Err(error) => {
                return Err(error);
            },
            Ok(_) => {},
        }
        match read_history(read) {
            Err(error) => Err(error),
            Ok(Some(history)) => Ok(history),
            Ok(None) => Ok(CaptureHistory::default()),
        }
    }

    /// The history with one more capture, to be written back, and what was forgotten for it.
    pub fn record(
        &self,
        read: HistoryRead,
        entry: HistoryEntry,
        policy: RetentionPolicy,
        now_ns: u128,
    ) -> (result: Result<(CaptureHistory, Vec<HistoryEntry>), ConfigError>)
        ensures
            match self.load_fault(read) {
                Some(error) => result == Err::<(CaptureHistory, Vec<HistoryEntry>), ConfigError>(
                    error,
                ),
                None => result matches Ok((history, forgotten)) && history.schema_version
                    == HISTORY_SCHEMA_VERSION && (history.entries@, forgotten@) == pruned(
                    seq![entry] + Self::loaded(read),
                    policy,
                    now_ns as int,
                ),
            },
    {
        match self.load(read) {
            Err(error) => Err(error),
            Ok(loaded) => {
                let mut history = loaded;
                let forgotten = history.record(entry, policy, now_ns);
                Ok((history, forgotten))
            },
        }
    }

    /// The history with a policy applied and without the entries whose files are gone, to be written
    /// back, and what the policy forgot. `present` are the paths at which there is a file.
    pub fn prune(
        &self,
        read: HistoryRead,
        policy: RetentionPolicy,
        now_ns: u128,
        present: &Vec<String>,
    ) -> (result: Result<(CaptureHistory, Vec<HistoryEntry>), ConfigError>)
        ensures
            match self.load_fault(read) {
                Some(error) => result == Err::<(CaptureHistory, Vec<HistoryEntry>), ConfigError>(
                    error,
                ),
                None => {
                    let (kept, dropped) = pruned(Self::loaded(read), policy, now_ns as int);
                    result matches Ok((history, forgotten)) && history.schema_version
                        == HISTORY_SCHEMA_VERSION && history.entries@ == flagged(
                        kept,
                        found(kept, texts(present@)),
                    ) && forgotten@ == dropped
                },
            },
    {
        match self.load(read) {
            Err(error) => Err(error),
            Ok(loaded) => {
                let mut history = loaded;
                let forgotten = history.prune(policy, now_ns);
                let mut flags: Vec<bool> = Vec::new();
                let mut i: usize = 0;
                while i < history.entries.len()
                    invariant
                        i <= history.entries@.len(),
                        flags@ == found(history.entries@, texts(present@)).take(i as int),
                    decreases history.entries@.len() - i,
                {
                    let is_there = is_among(history.entries[i].path.as_str(), present);
                    flags.push(is_there);
                    proof {
                        let all = found(history.entries@, texts(present@));
                        assert(all.take(i + 1) =~= all.take(i as int).push(all[i as int]));
                    }
                    i += 1;
                }
                proof {
                    let all = found(history.entries@, texts(present@));
                    assert(all.take(i as int) =~= all);
                }
                let _ = history.forget_missing(&flags);
                Ok((history, forgotten))
            },
        }
    }
}

/// Which entries are those of a file that is there.
pub open spec fn found(entries: Seq<HistoryEntry>, present: Seq<Seq<char>>) -> Seq<bool> {
    entries.map_values(|entry: HistoryEntry| present.contains(entry.path@))
}

/// The text of a history file, from the text of a document that holds the history as its `history`
/// table: the table's fields come to the top level, and its entries with them.
pub open spec fn history_file_text(document: Seq<char>) -> Seq<char> {
    replaced(
        if starts_with(document, "[history]\n"@) {
            document.skip("[history]\n"@.len() as int)
        } else {
            document
        },
        "[[history.entries]]"@,
        "[[entries]]"@,
    )
}

/// The text of a history file, from the text of a document that holds the history as its `history`
/// table.
pub fn frame_history(document: &str) -> (text: String)
    ensures
        text@ == history_file_text(document@),
{
    let body = match strip_prefix(document, "[history]\n") {
        Some(rest) => rest,
        None => document.to_owned(),
    };
    proof {
        reveal_strlit("[[history.entries]]");
    }
    replace(body.as_str(), "[[history.entries]]", "[[entries]]")
}

/// A capture that was stamped at or after the epoch is forgotten for its age exactly when more time
/// than the limit lies between its stamp and now: whatever else is remembered, one that is too old is
/// not kept, and one that is not is kept where there is room for everything.
pub proof fn law_age_is_the_time_since_the_stamp(
    entries: Seq<HistoryEntry>,
    policy: RetentionPolicy,
    now_ns: int,
    entry: HistoryEntry,
)
    requires
        policy.max_age is Some,
        entry.captured_at_micros >= 0,
        entries.contains(entry),
    ensures
        ({
            let (kept, forgotten) = pruned(entries, policy, now_ns);
            let limit = policy.max_age->Some_0;
            let too_old = now_ns - entry.captured_at_micros * 1_000 > limit * 1_000_000_000;
            &&& too_old ==> !kept.contains(entry) && forgotten.contains(entry)
            &&& !too_old && policy.max_items >= entries.len() && policy.max_total_bytes is None
                ==> kept.contains(entry)
        }),
{
    let i = choose|i: int| 0 <= i < entries.len() && entries[i] == entry;
    lemma_where_an_entry_goes(entries, policy, now_ns, i);
    lemma_kept_entries_are_young(entries, policy, now_ns);
}

/// Every capture that is kept was taken within the limit, and there are no more of them, and no more
/// bytes in them, than the policy allows.
pub proof fn law_what_is_kept_is_within_the_limits(
    entries: Seq<HistoryEntry>,
    policy: RetentionPolicy,
    now_ns: int,
    i: int,
)
    requires
        now_ns >= 0,
        0 <= i < pruned(entries, policy, now_ns).0.len(),
    ensures
        ({
            let kept = pruned(entries, policy, now_ns).0;
            &&& kept.len() <= policy.max_items
            &&& policy.max_age matches Some(limit) ==> kept[i].captured_at_micros < 0
                || kept[i].captured_at_micros * 1_000 + limit * 1_000_000_000 >= now_ns
            &&& policy.max_total_bytes matches Some(limit) ==> limit < u64::MAX ==> kept.fold_left(
                0int,
                |sum: int, entry: HistoryEntry| sum + entry.bytes,
            ) <= limit
        }),
{
    law_prune_meets_every_limit(entries, policy, now_ns);
    lemma_kept_entries_are_young(entries, policy, now_ns);
    let kept = pruned(entries, policy, now_ns).0;
    assert(kept.contains(kept[i]));
    lemma_total_is_a_sum(kept);
}

/// The bytes of captures are those of each, added up.
proof fn lemma_total_is_a_sum(entries: Seq<HistoryEntry>)
    ensures
        total_bytes(entries) == entries.fold_left(
            0int,
            |sum: int, entry: HistoryEntry| sum + entry.bytes,
        ),
    decreases entries.len(),
{
    if entries.len() > 0 {
        lemma_total_is_a_sum(entries.drop_last());
    }
}

/// None of the kept entries is too old.
proof fn lemma_kept_entries_are_young(
    entries: Seq<HistoryEntry>,
    policy: RetentionPolicy,
    now_ns: int,
)
    ensures
        forall|entry: HistoryEntry| #[trigger]
            sorted_out(entries, policy, now_ns).0.contains(entry) ==> !outlived(
                entry,
                policy,
                now_ns,
            ),
    decreases entries.len(),
{
    if entries.len() > 0 {
        lemma_kept_entries_are_young(entries.drop_last(), policy, now_ns);
        let before = sorted_out(entries.drop_last(), policy, now_ns).0;
        let kept = sorted_out(entries, policy, now_ns).0;
        assert forall|entry: HistoryEntry| #[trigger] kept.contains(entry) implies !outlived(
            entry,
            policy,
            now_ns,
        ) by {
            let i = choose|i: int| 0 <= i < kept.len() && kept[i] == entry;
            if i < before.len() {
                assert(before[i] == entry);
                assert(before.contains(entry));
            }
        }
    }
}

/// Where an entry goes: to what is forgotten if it is too old, and to what is kept if it is not and
/// there is room for all.
proof fn lemma_where_an_entry_goes(
    entries: Seq<HistoryEntry>,
    policy: RetentionPolicy,
    now_ns: int,
    i: int,
)
    requires
        0 <= i < entries.len(),
    ensures
        outlived(entries[i], policy, now_ns) ==> sorted_out(entries, policy, now_ns).1.contains(
            entries[i],
        ),
        !outlived(entries[i], policy, now_ns) && policy.max_items >= entries.len()
            && policy.max_total_bytes is None ==> sorted_out(entries, policy, now_ns).0.contains(
            entries[i],
        ),
        policy.max_items >= entries.len() && policy.max_total_bytes is None ==> !sorted_out(
            entries,
            policy,
            now_ns,
        ).2 && sorted_out(entries, policy, now_ns).0.len() <= entries.len(),
    decreases entries.len(),
{
    let front = entries.drop_last();
    let (kept, forgotten, full) = sorted_out(front, policy, now_ns);
    let (kept_all, forgotten_all, _) = sorted_out(entries, policy, now_ns);
    if front.len() > 0 {
        lemma_where_an_entry_goes(front, policy, now_ns, if i < front.len() { i } else { 0 });
    }
    if i < front.len() {
        assert(front[i] == entries[i]);
        if forgotten.contains(entries[i]) {
            let j = choose|j: int| 0 <= j < forgotten.len() && forgotten[j] == entries[i];
            assert(forgotten_all[j] == entries[i]);
        }
        if kept.contains(entries[i]) {
            let j = choose|j: int| 0 <= j < kept.len() && kept[j] == entries[i];
            assert(kept_all[j] == entries[i]);
        }
    } else {
        if outlived(entries[i], policy, now_ns) {
            assert(forgotten_all[forgotten_all.len() - 1] == entries[i]);
        } else if policy.max_items >= entries.len() && policy.max_total_bytes is None {
            assert(kept_all[kept_all.len() - 1] == entries[i]);
        }
    }
}

/// Recorded captures are remembered newest first: behind the new one, what is kept is a stretch of
/// what was there, in the order it was.
pub proof fn law_recording_keeps_the_order(
    entries: Seq<HistoryEntry>,
    entry: HistoryEntry,
    policy: RetentionPolicy,
    now_ns: int,
)
    requires
        policy.max_age is None,
    ensures
        ({
            let kept = pruned(seq![entry] + entries, policy, now_ns).0;
            &&& kept.len() <= entries.len() + 1
            &&& kept == (seq![entry] + entries).take(kept.len() as int)
            &&& kept.len() < entries.len() + 1 ==> kept.len() == policy.max_items || (
            policy.max_total_bytes matches Some(limit) && (seq![entry] + entries).take(
                kept.len() as int + 1,
            ).fold_left(0int, |sum: int, e: HistoryEntry| sum + e.bytes) > limit)
        }),
{
    let all = seq![entry] + entries;
    law_the_oldest_are_forgotten(all, policy, now_ns);
    let kept = pruned(all, policy, now_ns).0;
    if kept.len() < all.len() {
        lemma_full_for_a_reason(all, policy, now_ns);
        lemma_total_is_a_sum(all.take(kept.len() as int + 1));
    }
}

/// Where something is forgotten for want of room, the first of it had none.
proof fn lemma_full_for_a_reason(entries: Seq<HistoryEntry>, policy: RetentionPolicy, now_ns: int)
    requires
        policy.max_age is None,
        sorted_out(entries, policy, now_ns).2 || sorted_out(entries, policy, now_ns).0.len()
            < entries.len(),
    ensures
        ({
            let (kept, _, full) = sorted_out(entries, policy, now_ns);
            &&& full
            &&& kept.len() < entries.len()
            &&& kept == entries.take(kept.len() as int)
            &&& kept.len() >= policy.max_items || (policy.max_total_bytes matches Some(limit)
                && total_bytes(entries.take(kept.len() as int + 1)) > limit)
            &&& kept.len() <= policy.max_items
        }),
    decreases entries.len(),
{
    if entries.len() > 0 {
        let front = entries.drop_last();
        law_the_oldest_are_forgotten(front, policy, now_ns);
        law_the_oldest_are_forgotten(entries, policy, now_ns);
        let (before, _, was_full) = sorted_out(front, policy, now_ns);
        let (kept, _, full) = sorted_out(entries, policy, now_ns);
        lemma_no_more_than_items(entries, policy, now_ns);
        if was_full || before.len() < front.len() {
            lemma_full_for_a_reason(front, policy, now_ns);
            assert(front.take(before.len() as int + 1) =~= entries.take(before.len() as int + 1));
        } else {
            assert(before =~= front);
            assert(entries.take(before.len() as int + 1) =~= entries);
            assert(total_bytes(entries) == total_bytes(front) + entries.last().bytes);
            assert(kept == before);
        }
    }
}

/// There are never more entries than the policy allows.
proof fn lemma_no_more_than_items(entries: Seq<HistoryEntry>, policy: RetentionPolicy, now_ns: int)
    ensures
        sorted_out(entries, policy, now_ns).0.len() <= policy.max_items,
    decreases entries.len(),
{
    if entries.len() > 0 {
        lemma_no_more_than_items(entries.drop_last(), policy, now_ns);
    }
}

/// Exactly the entries whose files are there stay.
pub proof fn law_entries_that_are_there_stay(entries: Seq<HistoryEntry>, flags: Seq<bool>, i: int)
    requires
        entries.len() == flags.len(),
        0 <= i < entries.len(),
    ensures
        flags[i] ==> flagged(entries, flags).contains(entries[i]),
        forall|entry: HistoryEntry| #[trigger]
            flagged(entries, flags).contains(entry) ==> exists|k: int|
                0 <= k < entries.len() && flags[k] && #[trigger] entries[k] == entry,
    decreases entries.len(),
{
    let (front, fronts) = (entries.drop_last(), flags.drop_last());
    let before = flagged(front, fronts);
    let after = flagged(entries, flags);
    if front.len() > 0 {
        law_entries_that_are_there_stay(front, fronts, if i < front.len() { i } else { 0 });
    }
    if flags[i] {
        if i < front.len() {
            let j = choose|j: int| 0 <= j < before.len() && before[j] == front[i];
            assert(after[j] == entries[i]);
        } else {
            assert(after[after.len() - 1] == entries[i]);
        }
    }
    assert forall|entry: HistoryEntry| #[trigger] after.contains(entry) implies exists|k: int|
        0 <= k < entries.len() && flags[k] && #[trigger] entries[k] == entry by {
        let j = choose|j: int| 0 <= j < after.len() && after[j] == entry;
        if j < before.len() {
            assert(before[j] == entry);
            assert(before.contains(entry));
            let k = choose|k: int|
                0 <= k < front.len() && fronts[k] && #[trigger] front[k] == entry;
            assert(entries[k] == entry && flags[k]);
        } else {
            assert(entries[entries.len() - 1] == entry && flags[entries.len() - 1]);
        }
    }
}

/// A history can be loaded exactly where there is a place for it and it is not there yet, or is one of
/// this version. What is wrong otherwise is reported as what it is.
pub proof fn law_a_history_is_loaded_where_it_can_be_read(store: HistoryStore, read: HistoryRead)
    ensures
        store.load_fault(read) is None <==> store.location is Some && (read is Missing || (
        read matches HistoryRead::Parsed(history) && history.schema_version == 1)),
        store.location is None ==> store.load_fault(read) == Some(
            ConfigError::HomeDirectoryUnavailable,
        ),
        store.location is Some ==> match read {
            HistoryRead::Missing => true,
            HistoryRead::Failed { path, source } => store.load_fault(read) == Some(
                ConfigError::Read { path, source },
            ),
            HistoryRead::Malformed(message) => store.load_fault(read) == Some(
                ConfigError::Parse(message),
            ),
            HistoryRead::Parsed(history) => history.schema_version != 1 ==> store.load_fault(read)
                == Some(ConfigError::UnsupportedSchema(history.schema_version)),
        },
{
}

/// A history file is the history without the table that it was written in: its own header is left out,
/// each entry stands under a header of its own, and all else stays.
pub proof fn law_a_history_file_has_no_table_around_it(rest: Seq<char>)
    ensures
        !holds(rest, "[[history.entries]]"@) ==> history_file_text("[history]\n"@ + rest) == rest,
        history_file_text("[history]\n"@ + ("[[history.entries]]"@ + rest)) == "[[entries]]"@
            + history_file_text("[history]\n"@ + rest),
{
    reveal_strlit("[history]\n");
    reveal_strlit("[[history.entries]]");
    let head = "[history]\n"@;
    let (entries, entry) = ("[[history.entries]]"@, "[[entries]]"@);
    let whole = entries + rest;
    assert((head + rest).take(head.len() as int) =~= head);
    assert((head + rest).skip(head.len() as int) =~= rest);
    assert((head + whole).take(head.len() as int) =~= head);
    assert((head + whole).skip(head.len() as int) =~= whole);
    law_patterns_are_replaced_where_they_stand(rest, entries, entry);
}

} // verus!
