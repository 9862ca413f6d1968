//! The identity of a build: what it is called, and where its sources came from.
use vstd::prelude::*;
use vstd::string::*;

use crate::fingerprint::{copied, BuildIdentity};
use crate::text::{
    chars_of, debug_text, decimal, decimal_text, holds, is_blank, law_decimals_read_back,
    lemma_holds_on, quoted, same, split, split_text, text_between, texts, trim, trimmed,
};

verus! {

/// What the environment and the version control say about a build. What is not set, or could not
/// be asked, is absent.
#[derive(Debug)]
pub struct BuildInputs {
    pub release_version: String,
    pub target: String,
    pub profile: String,
    /// `CAPTASTIC_GIT_COMMIT`.
    pub named_commit: Option<String>,
    /// `GITHUB_SHA`.
    pub ci_commit: Option<String>,
    /// The commit that is checked out.
    pub head_commit: Option<String>,
    /// `CAPTASTIC_GIT_DIRTY`.
    pub named_dirty: Option<String>,
    /// The changes of the worktree, one per line.
    pub worktree_status: Option<String>,
    /// The tags of the commit, one per line.
    pub head_tags: Option<String>,
    /// `GITHUB_REF_TYPE`.
    pub ci_ref_type: Option<String>,
    /// `GITHUB_REF_NAME`.
    pub ci_ref_name: Option<String>,
    /// How many commits there are since the last release.
    pub revisions: Option<String>,
    /// `GITHUB_ACTIONS`.
    pub ci: Option<String>,
    /// `GITHUB_RUN_NUMBER`.
    pub ci_run_number: Option<String>,
    /// `GITHUB_RUN_ATTEMPT`.
    pub ci_run_attempt: Option<String>,
    /// `GITHUB_RUN_ID`.
    pub ci_run_id: Option<String>,
    /// `GITHUB_SERVER_URL`.
    pub ci_server_url: Option<String>,
    /// `GITHUB_REPOSITORY`.
    pub ci_repository: Option<String>,
    /// `CAPTASTIC_BUILD_VERSION`.
    pub named_version: Option<String>,
}

/// What a setting says, without the white space around it; one that says nothing is not set.
pub open spec fn set_to(value: Option<String>) -> Option<Seq<char>> {
    match value {
        Some(text) => if trimmed(text@).len() > 0 {
            Some(trimmed(text@))
        } else {
            None
        },
        None => None,
    }
}

/// The text of an optional string.
pub open spec fn text_of(value: Option<String>) -> Option<Seq<char>> {
    match value {
        Some(text) => Some(text@),
        None => None,
    }
}

/// What a setting says.
fn nonempty(value: &Option<String>) -> (set: Option<String>)
    ensures
        text_of(set) == set_to(*value),
{
    match value {
        Some(text) => {
            let text = trim(text.as_str());
            if text.as_str().is_empty() {
                None
            } else {
                Some(text)
            }
        },
        None => None,
    }
}

/// The truth value that a text stands for.
pub open spec fn truth_in(text: Seq<char>) -> Option<bool> {
    if text == "1"@ || text == "true"@ || text == "True"@ || text == "TRUE"@ {
        Some(true)
    } else if text == "0"@ || text == "false"@ || text == "False"@ || text == "FALSE"@ {
        Some(false)
    } else {
        None
    }
}

/// The truth value that a text stands for.
pub fn parse_bool(text: &str) -> (value: Option<bool>)
    ensures
        value == truth_in(text@),
{
    if same(text, "1") || same(text, "true") || same(text, "True") || same(text, "TRUE") {
        Some(true)
    } else if same(text, "0") || same(text, "false") || same(text, "False") || same(text, "FALSE") {
        Some(false)
    } else {
        None
    }
}

/// Whether a text is made of decimal digits.
pub open spec fn all_digits(text: Seq<char>) -> bool {
    forall|i: int| 0 <= i < text.len() ==> '0' <= #[trigger] text[i] <= '9'
}

/// The number that decimal digits stand for.
pub open spec fn digits_value(text: Seq<char>) -> int
    decreases text.len(),
{
    if text.len() == 0 {
        0
    } else {
        digits_value(text.drop_last()) * 10 + (text.last() as int - '0' as int)
    }
}

/// The number that a text stands for: decimal digits, with a plus sign in front at most.
pub open spec fn number_in(text: Seq<char>) -> Option<u64> {
    let digits = if text.len() > 0 && text[0] == '+' {
        text.skip(1)
    } else {
        text
    };
    if digits.len() > 0 && all_digits(digits) && digits_value(digits) <= u64::MAX {
        Some(digits_value(digits) as u64)
    } else {
        None
    }
}

/// More digits never make a number smaller.
proof fn lemma_value_grows(text: Seq<char>, n: int)
    requires
        all_digits(text),
        0 <= n <= text.len(),
    ensures
        0 <= digits_value(text.take(n)) <= digits_value(text),
    decreases text.len(),
{
    if n == text.len() {
        assert(text.take(n) =~= text);
        if n > 0 {
            let rest = text.drop_last();
            lemma_value_grows(rest, n - 1);
        }
    } else {
        let rest = text.drop_last();
        lemma_value_grows(rest, n);
        assert(rest.take(n) =~= text.take(n));
    }
}

/// The number that a text stands for.
pub fn parse_number(text: &str) -> (number: Option<u64>)
    ensures
        number == number_in(text@),
{
    let chars = chars_of(text);
    let start: usize = if chars.len() > 0 && chars[0] == '+' {
        1
    } else {
        0
    };
    let ghost digits = if text@.len() > 0 && text@[0] == '+' {
        text@.skip(1)
    } else {
        text@
    };
    if chars.len() == start {
        return None;
    }
    let mut value: u64 = 0;
    let mut i: usize = start;
    while i < chars.len()
        invariant
            chars@ == text@,
            start <= i <= chars@.len(),
            digits == text@.skip(start as int),
            number_in(text@) == if digits.len() > 0 && all_digits(digits) && digits_value(digits)
                <= u64::MAX {
                Some(digits_value(digits) as u64)
            } else {
                None
            },
            forall|j: int| 0 <= j < i - start ==> '0' <= #[trigger] digits[j] <= '9',
            value == digits_value(digits.take(i - start)),
        decreases chars@.len() - i,
    {
        let c = chars[i];
        proof {
            assert(digits[i - start] == c);
        }
        if !('0' <= c && c <= '9') {
            return None;
        }
        let ghost n = i - start;
        proof {
            assert(digits.take(n + 1).drop_last() =~= digits.take(n));
        }
        let figure: u64 = (c as u32 - 48) as u64;
        let next = match value.checked_mul(10) {
            Some(tens) => tens.checked_add(figure),
            None => None,
        };
        match next {
            Some(next) => {
                value = next;
            },
            None => {
                proof {
                    if all_digits(digits) {
                        lemma_value_grows(digits, n + 1);
                    }
                }
                return None;
            },
        }
        i += 1;
    }
    proof {
        assert(digits.take(i - start) =~= digits);
    }
    Some(value)
}

/// Whether a setting holds something other than a number.
pub open spec fn is_misnumbered(value: Option<String>) -> bool {
    set_to(value) matches Some(text) && number_in(text) is None
}

/// The number that a setting holds.
pub open spec fn number_set(value: Option<String>) -> Option<u64> {
    match set_to(value) {
        Some(text) => number_in(text),
        None => None,
    }
}

/// The number that a setting holds.
fn optional_number(value: &Option<String>) -> (number: Option<u64>)
    ensures
        number == number_set(*value),
{
    match nonempty(value) {
        Some(text) => parse_number(text.as_str()),
        None => None,
    }
}

impl BuildInputs {
    /// The commit that is built.
    pub open spec fn commit(self) -> Option<Seq<char>> {
        if set_to(self.named_commit) is Some {
            set_to(self.named_commit)
        } else if set_to(self.ci_commit) is Some {
            set_to(self.ci_commit)
        } else {
            text_of(self.head_commit)
        }
    }

    /// The first characters of a commit.
    pub open spec fn short(commit: Seq<char>) -> Seq<char> {
        if commit.len() > 9 {
            commit.take(9)
        } else {
            commit
        }
    }

    /// Whether the sources differ from the commit.
    pub open spec fn is_dirty(self) -> bool {
        match set_to(self.named_dirty) {
            Some(text) => truth_in(text) == Some(true),
            None => self.worktree_status matches Some(status) && status@.len() > 0,
        }
    }

    /// The tag that a release of this version has.
    pub open spec fn expected_tag(self) -> Seq<char> {
        "v"@ + self.release_version@
    }

    /// The tag that is being built, as far as continuous integration says.
    pub open spec fn ci_tag(self) -> Option<Seq<char>> {
        if set_to(self.ci_ref_type) == Some("tag"@) {
            set_to(self.ci_ref_name)
        } else {
            None
        }
    }

    /// A line without the carriage return at its end.
    pub open spec fn line(text: Seq<char>) -> Seq<char> {
        if text.len() > 0 && text.last() == '\r' {
            text.drop_last()
        } else {
            text
        }
    }

    /// Whether the commit carries the tag of this version.
    pub open spec fn is_tagged(self) -> bool {
        self.head_tags matches Some(tags) && exists|i: int|
            0 <= i < split(tags@, '\n').len() && Self::line(#[trigger] split(tags@, '\n')[i])
                == self.expected_tag()
    }

    /// The release tag of the sources.
    pub open spec fn tag(self) -> Option<Seq<char>> {
        if self.is_tagged() {
            Some(self.expected_tag())
        } else {
            self.ci_tag()
        }
    }

    /// Why nothing may be built from these inputs, the first reason found.
    pub open spec fn fault(self) -> Option<Seq<char>> {
        if set_to(self.named_dirty) matches Some(text) && truth_in(text) is None {
            Some("CAPTASTIC_GIT_DIRTY must be true or false"@)
        } else if self.ci_tag() matches Some(tag) && tag != self.expected_tag() {
            Some(
                "release tag "@ + self.ci_tag()->Some_0 + " must match workspace version "@
                    + self.release_version@,
            )
        } else if self.tag() is Some && self.is_dirty() {
            Some("release builds require a clean worktree"@)
        } else if self.tag() is Some && self.commit() is None {
            Some("release builds require a Git commit"@)
        } else if is_misnumbered(self.ci_run_number) {
            Some("GITHUB_RUN_NUMBER must be an unsigned integer"@)
        } else if is_misnumbered(self.ci_run_attempt) {
            Some("GITHUB_RUN_ATTEMPT must be an unsigned integer"@)
        } else {
            None
        }
    }

    /// Where the build comes from.
    pub open spec fn channel(self) -> Seq<char> {
        if self.tag() is Some {
            "release"@
        } else if set_to(self.ci) is Some {
            "ci"@
        } else {
            "development"@
        }
    }

    /// A number as part of a version.
    pub open spec fn part(number: Option<u64>, otherwise: u64) -> Seq<char> {
        match number {
            Some(number) => decimal(number as nat),
            None => decimal(otherwise as nat),
        }
    }

    /// The commit as part of a version.
    pub open spec fn commit_part(self) -> Seq<char> {
        match self.commit() {
            Some(commit) => Self::short(commit),
            None => "unknown"@,
        }
    }

    /// The commits since the last release.
    pub open spec fn revision_count(self) -> Option<u64> {
        match self.revisions {
            Some(text) => number_in(text@),
            None => None,
        }
    }

    /// What the build is called.
    pub open spec fn version(self) -> Seq<char> {
        if set_to(self.named_version) is Some {
            set_to(self.named_version)->Some_0
        } else if self.tag() is Some {
            self.release_version@
        } else if set_to(self.ci) is Some {
            self.release_version@ + "-ci."@ + Self::part(number_set(self.ci_run_number), 0) + "."@
                + Self::part(number_set(self.ci_run_attempt), 1) + ".g"@ + self.commit_part()
        } else {
            self.release_version@ + "-dev."@ + Self::part(self.revision_count(), 0) + ".g"@
                + self.commit_part() + if self.is_dirty() {
                ".dirty"@
            } else {
                Seq::<char>::empty()
            }
        }
    }

    /// Where the run that made the build can be looked at.
    pub open spec fn run_url(self) -> Option<Seq<char>> {
        match (set_to(self.ci_server_url), set_to(self.ci_repository), set_to(self.ci_run_id)) {
            (Some(server), Some(repository), Some(run)) => Some(
                server + "/"@ + repository + "/actions/runs/"@ + run,
            ),
            _ => None,
        }
    }

    /// The commit that is built.
    fn find_commit(&self) -> (commit: Option<String>)
        ensures
            text_of(commit) == self.commit(),
    {
        if let Some(commit) = nonempty(&self.named_commit) {
            return Some(commit);
        }
        if let Some(commit) = nonempty(&self.ci_commit) {
            return Some(commit);
        }
        copied(&self.head_commit)
    }

    /// Whether the sources differ from the commit.
    fn find_dirty(&self) -> (dirty: bool)
        ensures
            dirty == self.is_dirty(),
    {
        match nonempty(&self.named_dirty) {
            Some(text) => match parse_bool(text.as_str()) {
                Some(dirty) => dirty,
                None => false,
            },
            None => match &self.worktree_status {
                Some(status) => !status.as_str().is_empty(),
                None => false,
            },
        }
    }

    /// The tag that is being built, as far as continuous integration says.
    fn find_ci_tag(&self) -> (tag: Option<String>)
        ensures
            text_of(tag) == self.ci_tag(),
    {
        if let Some(kind) = nonempty(&self.ci_ref_type) {
            if same(kind.as_str(), "tag") {
                return nonempty(&self.ci_ref_name);
            }
        }
        None
    }

    /// The tag that a release of this version has.
    fn make_expected_tag(&self) -> (tag: String)
        ensures
            tag@ == self.expected_tag(),
    {
        let mut tag = "v".to_owned();
        tag.append(self.release_version.as_str());
        tag
    }

    /// The release tag of the sources.
    fn find_tag(&self) -> (tag: Option<String>)
        ensures
            text_of(tag) == self.tag(),
    {
        let expected = self.make_expected_tag();
        if let Some(tags) = &self.head_tags {
            let lines = split_text(tags.as_str(), '\n');
            let mut i: usize = 0;
            while i < lines.len()
                invariant
                    i <= lines@.len(),
                    self.head_tags == Some(*tags),
                    expected@ == self.expected_tag(),
                    texts(lines@) == split(tags@, '\n'),
                    forall|j: int|
                        0 <= j < i ==> Self::line(#[trigger] split(tags@, '\n')[j])
                            != self.expected_tag(),
                decreases lines@.len() - i,
            {
                let chars = chars_of(lines[i].as_str());
                let end: usize = if chars.len() > 0 && chars[chars.len() - 1] == '\r' {
                    chars.len() - 1
                } else {
                    chars.len()
                };
                let line = text_between(&chars, 0, end);
                proof {
                    assert(line@ =~= Self::line(split(tags@, '\n')[i as int]));
                }
                if same(line.as_str(), expected.as_str()) {
                    proof {
                        assert(self.head_tags->Some_0@ == tags@);
                    }
                    return Some(expected);
                }
                i += 1;
            }
        }
        self.find_ci_tag()
    }

    /// Why nothing may be built from these inputs.
    pub fn build_fault(&self) -> (fault: Option<String>)
        ensures
            text_of(fault) == self.fault(),
    {
        if let Some(text) = nonempty(&self.named_dirty) {
            if parse_bool(text.as_str()).is_none() {
                return Some("CAPTASTIC_GIT_DIRTY must be true or false".to_owned());
            }
        }
        let expected = self.make_expected_tag();
        if let Some(tag) = self.find_ci_tag() {
            if !same(tag.as_str(), expected.as_str()) {
                let mut text = "release tag ".to_owned();
                text.append(tag.as_str());
                text.append(" must match workspace version ");
                text.append(self.release_version.as_str());
                return Some(text);
            }
        }
        if self.find_tag().is_some() {
            if self.find_dirty() {
                return Some("release builds require a clean worktree".to_owned());
            }
            if self.find_commit().is_none() {
                return Some("release builds require a Git commit".to_owned());
            }
        }
        if let Some(text) = nonempty(&self.ci_run_number) {
            if parse_number(text.as_str()).is_none() {
                return Some("GITHUB_RUN_NUMBER must be an unsigned integer".to_owned());
            }
        }
        if let Some(text) = nonempty(&self.ci_run_attempt) {
            if parse_number(text.as_str()).is_none() {
                return Some("GITHUB_RUN_ATTEMPT must be an unsigned integer".to_owned());
            }
        }
        None
    }

    /// The identity of the build, where there is nothing against building.
    pub fn resolve_build_identity(&self) -> (identity: BuildIdentity)
        requires
            self.fault() is None,
        ensures
            identity.release_version == self.release_version,
            identity.version@ == self.version(),
            identity.channel@ == self.channel(),
            text_of(identity.git_commit) == self.commit(),
            text_of(identity.git_short_commit) == match self.commit() {
                Some(commit) => Some(Self::short(commit)),
                None => None,
            },
            identity.revision_count == self.revision_count(),
            text_of(identity.source_tag) == self.tag(),
            identity.dirty == self.is_dirty(),
            text_of(identity.ci_run_id) == set_to(self.ci_run_id),
            identity.ci_run_number == number_set(self.ci_run_number),
            identity.ci_run_attempt == number_set(self.ci_run_attempt),
            text_of(identity.ci_run_url) == self.run_url(),
            identity.target == self.target,
            identity.profile == self.profile,
    {
        let git_commit = self.find_commit();
        let git_short_commit = match &git_commit {
            Some(commit) => {
                let chars = chars_of(commit.as_str());
                let end: usize = if chars.len() > 9 {
                    9
                } else {
                    chars.len()
                };
                let short = text_between(&chars, 0, end);
                Some(short)
            },
            None => None,
        };
        let dirty = self.find_dirty();
        let source_tag = self.find_tag();
        let revision_count = match &self.revisions {
            Some(text) => parse_number(text.as_str()),
            None => None,
        };
        let is_ci = nonempty(&self.ci).is_some();
        let ci_run_number = optional_number(&self.ci_run_number);
        let ci_run_attempt = optional_number(&self.ci_run_attempt);
        let channel = if source_tag.is_some() {
            "release".to_owned()
        } else if is_ci {
            "ci".to_owned()
        } else {
            "development".to_owned()
        };
        let version = match nonempty(&self.named_version) {
            Some(version) => version,
            None => {
                let mut version = self.release_version.clone();
                if source_tag.is_none() {
                    if is_ci {
                        version.append("-ci.");
                        version.append(part_text(ci_run_number, 0).as_str());
                        version.append(".");
                        version.append(part_text(ci_run_attempt, 1).as_str());
                    } else {
                        version.append("-dev.");
                        version.append(part_text(revision_count, 0).as_str());
                    }
                    version.append(".g");
                    match &git_short_commit {
                        Some(commit) => version.append(commit.as_str()),
                        None => version.append("unknown"),
                    }
                    if !is_ci {
                        if dirty {
                            version.append(".dirty");
                        }
                    }
                }
                version
            },
        };
        let ci_run_id = nonempty(&self.ci_run_id);
        let ci_run_url = match (nonempty(&self.ci_server_url), nonempty(&self.ci_repository), &ci_run_id)
        {
            (Some(server), Some(repository), Some(run)) => {
                let mut url = server;
                url.append("/");
                url.append(repository.as_str());
                url.append("/actions/runs/");
                url.append(run.as_str());
                Some(url)
            },
            _ => None,
        };
        BuildIdentity {
            release_version: self.release_version.clone(),
            version,
            channel,
            git_commit,
            git_short_commit,
            revision_count,
            source_tag,
            dirty,
            ci_run_id,
            ci_run_number,
            ci_run_attempt,
            ci_run_url,
            target: self.target.clone(),
            profile: self.profile.clone(),
        }
    }
}

/// A number as part of a version.
fn part_text(number: Option<u64>, otherwise: u64) -> (text: String)
    ensures
        text@ == BuildInputs::part(number, otherwise),
{
    match number {
        Some(number) => decimal_text(number),
        None => decimal_text(otherwise),
    }
}

/// A build of tagged sources is clean, and has a commit and the tag of its version. It is called a
/// release, and has the version of one unless another was named.
pub proof fn law_releases_are_clean(inputs: BuildInputs)
    requires
        inputs.fault() is None,
        inputs.tag() is Some,
    ensures
        !inputs.is_dirty(),
        inputs.commit() is Some,
        inputs.tag() == Some(inputs.expected_tag()),
        inputs.channel() == "release"@,
        set_to(inputs.named_version) is None ==> inputs.version() == inputs.release_version@,
{
}

/// A text in source form, where there is one.
pub open spec fn text_source(text: Option<String>) -> Seq<char> {
    match text {
        Some(text) => "Some("@ + debug_text(text@) + ")"@,
        None => "None"@,
    }
}

/// A number in source form, where there is one.
pub open spec fn number_source(number: Option<u64>) -> Seq<char> {
    match number {
        Some(number) => "Some("@ + decimal(number as nat) + ")"@,
        None => "None"@,
    }
}

/// One line of the source.
pub open spec fn source_line(name: Seq<char>, value: Seq<char>) -> Seq<char> {
    "    "@ + name + ": "@ + value + ",\n"@
}

/// The source of a constant that holds an identity.
pub open spec fn source_of(identity: BuildIdentity) -> Seq<char> {
    "pub const BUILD_INFO: BuildInfo = BuildInfo {\n"@ + source_line(
        "release_version"@,
        debug_text(identity.release_version@),
    ) + source_line("version"@, debug_text(identity.version@)) + source_line(
        "channel"@,
        debug_text(identity.channel@),
    ) + source_line("git_commit"@, text_source(identity.git_commit)) + source_line(
        "git_short_commit"@,
        text_source(identity.git_short_commit),
    ) + source_line("revision_count"@, number_source(identity.revision_count)) + source_line(
        "source_tag"@,
        text_source(identity.source_tag),
    ) + source_line(
        "dirty"@,
        if identity.dirty {
            "true"@
        } else {
            "false"@
        },
    ) + source_line("ci_run_id"@, text_source(identity.ci_run_id)) + source_line(
        "ci_run_number"@,
        number_source(identity.ci_run_number),
    ) + source_line("ci_run_attempt"@, number_source(identity.ci_run_attempt)) + source_line(
        "ci_run_url"@,
        text_source(identity.ci_run_url),
    ) + source_line("target"@, debug_text(identity.target@)) + source_line(
        "profile"@,
        debug_text(identity.profile@),
    ) + "};\n"@
}

/// A text in source form, where there is one.
fn write_text(text: &Option<String>) -> (source: String)
    ensures
        source@ == text_source(*text),
{
    match text {
        Some(text) => {
            let mut source = "Some(".to_owned();
            source.append(quoted(text.as_str()).as_str());
            source.append(")");
            source
        },
        None => "None".to_owned(),
    }
}

/// A number in source form, where there is one.
fn write_number(number: Option<u64>) -> (source: String)
    ensures
        source@ == number_source(number),
{
    match number {
        Some(number) => {
            let mut source = "Some(".to_owned();
            source.append(decimal_text(number).as_str());
            source.append(")");
            source
        },
        None => "None".to_owned(),
    }
}

/// Adds one line to the source.
fn write_line(source: &mut String, name: &str, value: &str)
    ensures
        final(source)@ == old(source)@ + source_line(name@, value@),
{
    source.append("    ");
    source.append(name);
    source.append(": ");
    source.append(value);
    source.append(",\n");
}

/// The source of a constant that holds an identity.
pub fn write_build_info(identity: &BuildIdentity) -> (source: String)
    ensures
        source@ == source_of(*identity),
{
    let mut source = "pub const BUILD_INFO: BuildInfo = BuildInfo {\n".to_owned();
    write_line(&mut source, "release_version", quoted(identity.release_version.as_str()).as_str());
    write_line(&mut source, "version", quoted(identity.version.as_str()).as_str());
    write_line(&mut source, "channel", quoted(identity.channel.as_str()).as_str());
    write_line(&mut source, "git_commit", write_text(&identity.git_commit).as_str());
    write_line(&mut source, "git_short_commit", write_text(&identity.git_short_commit).as_str());
    write_line(&mut source, "revision_count", write_number(identity.revision_count).as_str());
    write_line(&mut source, "source_tag", write_text(&identity.source_tag).as_str());
    write_line(
        &mut source,
        "dirty",
        if identity.dirty {
            "true"
        } else {
            "false"
        },
    );
    write_line(&mut source, "ci_run_id", write_text(&identity.ci_run_id).as_str());
    write_line(&mut source, "ci_run_number", write_number(identity.ci_run_number).as_str());
    write_line(&mut source, "ci_run_attempt", write_number(identity.ci_run_attempt).as_str());
    write_line(&mut source, "ci_run_url", write_text(&identity.ci_run_url).as_str());
    write_line(&mut source, "target", quoted(identity.target.as_str()).as_str());
    write_line(&mut source, "profile", quoted(identity.profile.as_str()).as_str());
    source.append("};\n");
    source
}

/// A setting counts where it says something, as what it says between its white space.
pub proof fn law_settings_count_where_they_say_something(text: String)
    ensures
        is_blank(text@) ==> set_to(Some(text)) is None,
        !is_blank(text@) ==> set_to(Some(text)) == Some(trimmed(text@)),
        set_to(None) is None,
        text_of(Some(text)) == Some(text@),
        text_of(None) is None,
{
}

/// A text says yes or no in one of four ways each, and otherwise neither.
pub proof fn law_yes_and_no_are_said_in_four_ways(text: Seq<char>)
    ensures
        truth_in(text) == Some(true) <==> text == "1"@ || text == "true"@ || text == "True"@ || text
            == "TRUE"@,
        truth_in(text) == Some(false) <==> text == "0"@ || text == "false"@ || text == "False"@
            || text == "FALSE"@,
{
    reveal_strlit("1");
    reveal_strlit("true");
    reveal_strlit("True");
    reveal_strlit("TRUE");
    reveal_strlit("0");
    reveal_strlit("false");
    reveal_strlit("False");
    reveal_strlit("FALSE");
    assert("1"@.len() == 1 && "true"@.len() == 4 && "True"@.len() == 4 && "TRUE"@.len() == 4 && "0"@.len() == 1 && "false"@.len() == 5 && "False"@.len() == 5 && "FALSE"@.len() == 5);
    assert("1"@[0] == '1');
    assert("0"@[0] == '0');
    assert("true"@[0] == 't' && "true"@[1] == 'r');
    assert("True"@[0] == 'T' && "True"@[1] == 'r');
    assert("TRUE"@[0] == 'T' && "TRUE"@[1] == 'R');
    assert("false"@[0] == 'f' && "false"@[1] == 'a');
    assert("False"@[0] == 'F' && "False"@[1] == 'a');
    assert("FALSE"@[0] == 'F' && "FALSE"@[1] == 'A');
}

/// A number is read as it is written, with or without a plus sign before it.
pub proof fn law_numbers_are_read_as_written(n: u64)
    ensures
        number_in(decimal(n as nat)) == Some(n),
        number_in(seq!['+'] + decimal(n as nat)) == Some(n),
{
    let digits = decimal(n as nat);
    law_decimals_read_back(n as nat);
    lemma_digits_value(digits);
    assert((seq!['+'] + digits).skip(1) =~= digits);
    assert(!(digits[0] == '+'));
}

/// What is read as a number is digits behind at most one plus sign, and the number that they write.
pub proof fn law_only_digits_are_numbers(text: Seq<char>)
    ensures
        number_in(text) matches Some(n) ==> {
            let digits = if text[0] == '+' {
                text.skip(1)
            } else {
                text
            };
            &&& digits.len() > 0
            &&& forall|i: int| 0 <= i < digits.len() ==> '0' <= #[trigger] digits[i] <= '9'
            &&& crate::text::number_in(digits) == n
        },
{
    let digits = if text.len() > 0 && text[0] == '+' {
        text.skip(1)
    } else {
        text
    };
    lemma_digits_value(digits);
}

/// The value of digits is the number that they write.
proof fn lemma_digits_value(digits: Seq<char>)
    ensures
        digits_value(digits) == crate::text::number_in(digits),
        all_digits(digits) ==> digits_value(digits) >= 0,
    decreases digits.len(),
{
    if digits.len() > 0 {
        lemma_digits_value(digits.drop_last());
        if all_digits(digits) {
            assert('0' <= digits[digits.len() - 1]);
            assert(all_digits(digits.drop_last()));
        }
    }
}

/// A build is of the commit that was named for it, else of the one that the service builds, else of the
/// one that is checked out.
pub proof fn law_a_build_is_of_the_commit_named_first(inputs: BuildInputs)
    ensures
        set_to(inputs.named_commit) is Some ==> inputs.commit() == set_to(inputs.named_commit),
        set_to(inputs.named_commit) is None && set_to(inputs.ci_commit) is Some ==> inputs.commit()
            == set_to(inputs.ci_commit),
        set_to(inputs.named_commit) is None && set_to(inputs.ci_commit) is None ==> inputs.commit() == (
        match inputs.head_commit {
            Some(commit) => Some(commit@),
            None => None,
        }),
{
}

/// A commit is shortened to its first nine characters.
pub proof fn law_a_short_commit_is_the_start_of_it(commit: Seq<char>, i: int)
    ensures
        BuildInputs::short(commit).len() == if commit.len() < 9 {
            commit.len()
        } else {
            9
        },
        0 <= i < BuildInputs::short(commit).len() ==> BuildInputs::short(commit)[i] == commit[i],
{
}

/// A build is dirty where it was said to be, and where nothing was said, where its worktree has
/// changes.
pub proof fn law_a_build_is_dirty_where_its_sources_changed(inputs: BuildInputs)
    ensures
        set_to(inputs.named_dirty) matches Some(text) ==> (inputs.is_dirty() <==> text == "1"@ || text
            == "true"@ || text == "True"@ || text == "TRUE"@),
        set_to(inputs.named_dirty) is None ==> (inputs.is_dirty() <==> (
        inputs.worktree_status matches Some(status) && status@.len() > 0)),
{
    if let Some(text) = set_to(inputs.named_dirty) {
        law_yes_and_no_are_said_in_four_ways(text);
    }
}

/// A release has the tag of its version, on its commit or from the service that builds it; the service
/// names a tag only where it builds one.
pub proof fn law_a_release_has_the_tag_of_its_version(inputs: BuildInputs)
    ensures
        inputs.expected_tag() == seq!['v'] + inputs.release_version@,
        inputs.is_tagged() ==> inputs.tag() == Some(seq!['v'] + inputs.release_version@),
        !inputs.is_tagged() && set_to(inputs.ci_ref_type) == Some("tag"@) ==> inputs.tag() == set_to(
            inputs.ci_ref_name,
        ),
        !inputs.is_tagged() && set_to(inputs.ci_ref_type) != Some("tag"@) ==> inputs.tag() is None,
        inputs.head_tags is None ==> !inputs.is_tagged(),
        inputs.head_tags matches Some(tags) ==> (inputs.is_tagged() <==> exists|i: int|
            0 <= i < split(tags@, '\n').len() && is_line_of(
                #[trigger] split(tags@, '\n')[i],
                seq!['v'] + inputs.release_version@,
            )),
{
    reveal_strlit("v");
    assert("v"@ =~= seq!['v']);
    let expected = seq!['v'] + inputs.release_version@;
    if let Some(tags) = inputs.head_tags {
        let lines = split(tags@, '\n');
        assert forall|i: int| 0 <= i < lines.len() implies (BuildInputs::line(#[trigger] lines[i])
            == expected <==> is_line_of(lines[i], expected)) by {
            let line = lines[i];
            assert(expected.push('\r').drop_last() =~= expected);
            if line.len() > 0 && line.last() == '\r' {
                assert(line.drop_last().push('\r') =~= line);
            }
        }
    }
}

/// Whether a line holds a text alone, with or without a carriage return behind it.
pub open spec fn is_line_of(line: Seq<char>, text: Seq<char>) -> bool {
    line == text.push('\r') || line == text && !(text.len() > 0 && text.last() == '\r')
}

/// A build goes ahead exactly where what was set for it can be read, a tag that it was given is the one
/// of its version, and a release is of a commit and clean.
pub proof fn law_a_build_goes_ahead_where_its_inputs_agree(inputs: BuildInputs)
    ensures
        inputs.fault() is None <==> {
            &&& set_to(inputs.named_dirty) matches Some(text) ==> truth_in(text) is Some
            &&& set_to(inputs.ci_ref_type) == Some("tag"@) && set_to(inputs.ci_ref_name) is Some
                ==> set_to(inputs.ci_ref_name) == Some(inputs.expected_tag())
            &&& inputs.tag() is Some ==> !inputs.is_dirty() && inputs.commit() is Some
            &&& set_to(inputs.ci_run_number) matches Some(text) ==> number_in(text) is Some
            &&& set_to(inputs.ci_run_attempt) matches Some(text) ==> number_in(text) is Some
        },
{
}

/// A build is a release where it has a tag, else one of the service where that made it, else one of a
/// developer.
pub proof fn law_a_build_is_called_after_where_it_was_made(inputs: BuildInputs)
    ensures
        inputs.channel() == "release"@ <==> inputs.tag() is Some,
        inputs.channel() == "ci"@ <==> inputs.tag() is None && set_to(inputs.ci) is Some,
        inputs.channel() == "development"@ <==> inputs.tag() is None && set_to(inputs.ci) is None,
{
    reveal_strlit("release");
    reveal_strlit("ci");
    reveal_strlit("development");
    assert("release"@.len() == 7 && "ci"@.len() == 2 && "development"@.len() == 11);
}

/// A version is the one that was named, else that of a release, else that of a release with what tells
/// the build apart: the run and the attempt of the service, or the changes since the last release and
/// whether there are more; and the start of the commit.
pub proof fn law_a_version_tells_builds_apart(
    inputs: BuildInputs,
    first: nat,
    second: nat,
    commit: Seq<char>,
)
    requires
        commit == match inputs.commit() {
            Some(commit) => BuildInputs::short(commit),
            None => "unknown"@,
        },
        set_to(inputs.ci) is Some ==> first == match number_set(inputs.ci_run_number) {
            Some(number) => number as nat,
            None => 0,
        },
        set_to(inputs.ci) is Some ==> second == match number_set(inputs.ci_run_attempt) {
            Some(number) => number as nat,
            None => 1,
        },
        set_to(inputs.ci) is None ==> first == match inputs.revision_count() {
            Some(number) => number as nat,
            None => 0,
        },
    ensures
        set_to(inputs.named_version) matches Some(version) ==> inputs.version() == version,
        set_to(inputs.named_version) is None && inputs.tag() is Some ==> inputs.version()
            == inputs.release_version@,
        set_to(inputs.named_version) is None && inputs.tag() is None ==> inputs.version()
            == inputs.release_version@ + (if set_to(inputs.ci) is Some {
            "-ci."@ + decimal(first) + "."@ + decimal(second) + ".g"@ + commit
        } else if inputs.is_dirty() {
            "-dev."@ + decimal(first) + ".g"@ + commit + ".dirty"@
        } else {
            "-dev."@ + decimal(first) + ".g"@ + commit
        }),
{
}

/// Changes are counted where they are a number, and settings that are numbers are taken as that.
pub proof fn law_counts_are_taken_as_they_are(inputs: BuildInputs, value: Option<String>)
    ensures
        inputs.revision_count() == (match inputs.revisions {
            Some(text) => number_in(text@),
            None => None,
        }),
        number_set(value) == (match set_to(value) {
            Some(text) => number_in(text),
            None => None,
        }),
        is_misnumbered(value) <==> set_to(value) is Some && number_set(value) is None,
{
}

/// A run is found on its server, in its repository, under its number, and only where all three are
/// known.
pub proof fn law_a_run_is_found_where_it_was_made(inputs: BuildInputs)
    ensures
        ({
            let (server, repository, run) = (
                set_to(inputs.ci_server_url),
                set_to(inputs.ci_repository),
                set_to(inputs.ci_run_id),
            );
            &&& inputs.run_url() is Some <==> server is Some && repository is Some && run is Some
            &&& inputs.run_url() matches Some(url) ==> url == server->Some_0 + seq!['/']
                + repository->Some_0 + "/actions/runs/"@ + run->Some_0
        }),
{
    reveal_strlit("/");
    assert("/"@ =~= seq!['/']);
}

/// What is generated for a build holds every part of its identity under its own name.
pub proof fn law_the_generated_source_names_every_part(identity: BuildIdentity)
    ensures
        holds(source_of(identity), "    release_version: "@ + debug_text(identity.release_version@) + ",\n"@),
        holds(source_of(identity), "    version: "@ + debug_text(identity.version@) + ",\n"@),
        holds(source_of(identity), "    channel: "@ + debug_text(identity.channel@) + ",\n"@),
        holds(source_of(identity), "    git_commit: "@ + text_source(identity.git_commit) + ",\n"@),
        holds(source_of(identity), "    git_short_commit: "@ + text_source(identity.git_short_commit) + ",\n"@),
        holds(source_of(identity), "    revision_count: "@ + number_source(identity.revision_count) + ",\n"@),
        holds(source_of(identity), "    source_tag: "@ + text_source(identity.source_tag) + ",\n"@),
        holds(source_of(identity), "    dirty: "@ + (if identity.dirty { "true"@ } else { "false"@ }) + ",\n"@),
        holds(source_of(identity), "    ci_run_id: "@ + text_source(identity.ci_run_id) + ",\n"@),
        holds(source_of(identity), "    ci_run_number: "@ + number_source(identity.ci_run_number) + ",\n"@),
        holds(source_of(identity), "    ci_run_attempt: "@ + number_source(identity.ci_run_attempt) + ",\n"@),
        holds(source_of(identity), "    ci_run_url: "@ + text_source(identity.ci_run_url) + ",\n"@),
        holds(source_of(identity), "    target: "@ + debug_text(identity.target@) + ",\n"@),
        holds(source_of(identity), "    profile: "@ + debug_text(identity.profile@) + ",\n"@),
{
    reveal_strlit("    ");
    reveal_strlit(": ");
    reveal_strlit("release_version");
    reveal_strlit("    release_version: ");
    assert("    release_version: "@ =~= "    "@ + "release_version"@ + ": "@);
    reveal_strlit("version");
    reveal_strlit("    version: ");
    assert("    version: "@ =~= "    "@ + "version"@ + ": "@);
    reveal_strlit("channel");
    reveal_strlit("    channel: ");
    assert("    channel: "@ =~= "    "@ + "channel"@ + ": "@);
    reveal_strlit("git_commit");
    reveal_strlit("    git_commit: ");
    assert("    git_commit: "@ =~= "    "@ + "git_commit"@ + ": "@);
    reveal_strlit("git_short_commit");
    reveal_strlit("    git_short_commit: ");
    assert("    git_short_commit: "@ =~= "    "@ + "git_short_commit"@ + ": "@);
    reveal_strlit("revision_count");
    reveal_strlit("    revision_count: ");
    assert("    revision_count: "@ =~= "    "@ + "revision_count"@ + ": "@);
    reveal_strlit("source_tag");
    reveal_strlit("    source_tag: ");
    assert("    source_tag: "@ =~= "    "@ + "source_tag"@ + ": "@);
    reveal_strlit("dirty");
    reveal_strlit("    dirty: ");
    assert("    dirty: "@ =~= "    "@ + "dirty"@ + ": "@);
    reveal_strlit("ci_run_id");
    reveal_strlit("    ci_run_id: ");
    assert("    ci_run_id: "@ =~= "    "@ + "ci_run_id"@ + ": "@);
    reveal_strlit("ci_run_number");
    reveal_strlit("    ci_run_number: ");
    assert("    ci_run_number: "@ =~= "    "@ + "ci_run_number"@ + ": "@);
    reveal_strlit("ci_run_attempt");
    reveal_strlit("    ci_run_attempt: ");
    assert("    ci_run_attempt: "@ =~= "    "@ + "ci_run_attempt"@ + ": "@);
    reveal_strlit("ci_run_url");
    reveal_strlit("    ci_run_url: ");
    assert("    ci_run_url: "@ =~= "    "@ + "ci_run_url"@ + ": "@);
    reveal_strlit("target");
    reveal_strlit("    target: ");
    assert("    target: "@ =~= "    "@ + "target"@ + ": "@);
    reveal_strlit("profile");
    reveal_strlit("    profile: ");
    assert("    profile: "@ =~= "    "@ + "profile"@ + ": "@);
    let s0 = "pub const BUILD_INFO: BuildInfo = BuildInfo {\n"@;
    let l1 = source_line("release_version"@, debug_text(identity.release_version@));
    let s1 = s0 + l1;
    lemma_holds_on(s0, l1);
    assert(l1 == "    release_version: "@ + debug_text(identity.release_version@) + ",\n"@);
    let l2 = source_line("version"@, debug_text(identity.version@));
    let s2 = s1 + l2;
    lemma_holds_on(s1, l2);
    assert(l2 == "    version: "@ + debug_text(identity.version@) + ",\n"@);
    let l3 = source_line("channel"@, debug_text(identity.channel@));
    let s3 = s2 + l3;
    lemma_holds_on(s2, l3);
    assert(l3 == "    channel: "@ + debug_text(identity.channel@) + ",\n"@);
    let l4 = source_line("git_commit"@, text_source(identity.git_commit));
    let s4 = s3 + l4;
    lemma_holds_on(s3, l4);
    assert(l4 == "    git_commit: "@ + text_source(identity.git_commit) + ",\n"@);
    let l5 = source_line("git_short_commit"@, text_source(identity.git_short_commit));
    let s5 = s4 + l5;
    lemma_holds_on(s4, l5);
    assert(l5 == "    git_short_commit: "@ + text_source(identity.git_short_commit) + ",\n"@);
    let l6 = source_line("revision_count"@, number_source(identity.revision_count));
    let s6 = s5 + l6;
    lemma_holds_on(s5, l6);
    assert(l6 == "    revision_count: "@ + number_source(identity.revision_count) + ",\n"@);
    let l7 = source_line("source_tag"@, text_source(identity.source_tag));
    let s7 = s6 + l7;
    lemma_holds_on(s6, l7);
    assert(l7 == "    source_tag: "@ + text_source(identity.source_tag) + ",\n"@);
    let l8 = source_line("dirty"@, (if identity.dirty { "true"@ } else { "false"@ }));
    let s8 = s7 + l8;
    lemma_holds_on(s7, l8);
    assert(l8 == "    dirty: "@ + (if identity.dirty { "true"@ } else { "false"@ }) + ",\n"@);
    let l9 = source_line("ci_run_id"@, text_source(identity.ci_run_id));
    let s9 = s8 + l9;
    lemma_holds_on(s8, l9);
    assert(l9 == "    ci_run_id: "@ + text_source(identity.ci_run_id) + ",\n"@);
    let l10 = source_line("ci_run_number"@, number_source(identity.ci_run_number));
    let s10 = s9 + l10;
    lemma_holds_on(s9, l10);
    assert(l10 == "    ci_run_number: "@ + number_source(identity.ci_run_number) + ",\n"@);
    let l11 = source_line("ci_run_attempt"@, number_source(identity.ci_run_attempt));
    let s11 = s10 + l11;
    lemma_holds_on(s10, l11);
    assert(l11 == "    ci_run_attempt: "@ + number_source(identity.ci_run_attempt) + ",\n"@);
    let l12 = source_line("ci_run_url"@, text_source(identity.ci_run_url));
    let s12 = s11 + l12;
    lemma_holds_on(s11, l12);
    assert(l12 == "    ci_run_url: "@ + text_source(identity.ci_run_url) + ",\n"@);
    let l13 = source_line("target"@, debug_text(identity.target@));
    let s13 = s12 + l13;
    lemma_holds_on(s12, l13);
    assert(l13 == "    target: "@ + debug_text(identity.target@) + ",\n"@);
    let l14 = source_line("profile"@, debug_text(identity.profile@));
    let s14 = s13 + l14;
    lemma_holds_on(s13, l14);
    assert(l14 == "    profile: "@ + debug_text(identity.profile@) + ",\n"@);
    lemma_holds_on(s14, "};\n"@);
    assert(source_of(identity) == s14 + "};\n"@);
}

/// A value that is there is generated as one that is there, and one that is not as none.
pub proof fn law_values_are_generated_as_they_are(text: String, number: u64)
    ensures
        text_source(Some(text)) == "Some("@ + debug_text(text@) + ")"@,
        text_source(None) == "None"@,
        number_source(Some(number)) == "Some("@ + decimal(number as nat) + ")"@,
        number_source(None) == "None"@,
{
}

} // verus!
