//! Putting captures on disk: the name a capture gets, how a taken name is stepped over, and what is
//! remembered and reported of it.
use vstd::prelude::*;
use vstd::string::*;

use crate::capture::CpuFrame;
use crate::error::{after, AppError};
use crate::filename_template::{
    expand, expanded, is_resolution, lemma_plain_file_name, lemma_plain_step, resolve,
    template_fault, validate_template, Naming, TemplateContext,
};
use crate::fsio::FileOutcome;
use crate::history::{HistoryEntry, HistoryStore, RetentionPolicy};
use crate::hotkey::HotkeyAction;
use crate::json::{
    event_fields, insert_number, insert_text, json_text, new_event, render, JsonField,
};
use crate::output::OutputJob;
use crate::path::{FilePath, Part};
use crate::text::{
    decimal, decimal_text, law_decimals_read_back, lemma_decimal_digits, lemma_decimal_injective,
    number_in, starts_with,
};

verus! {

/// How many names are tried before a capture is given up.
pub const MAX_COLLISION_ATTEMPTS: u32 = 100;

/// What one successful write did.
#[derive(Debug)]
pub struct WriteReport {
    /// The file, as it is shown.
    pub path: String,
    pub bytes: usize,
    pub encode_ns: u64,
    pub write_ns: u64,
    /// How many names were already taken.
    pub collisions: u32,
}

/// Reports a template that captures cannot be named by, before anything else is done.
pub fn check_template(template: &str) -> (result: Result<(), AppError>)
    ensures
        match template_fault(template@) {
            Some(message) => result matches Err(AppError::InvalidArgument(text)) && text@ == message,
            None => result is Ok,
        },
{
    match validate_template(template) {
        Ok(()) => Ok(()),
        Err(message) => Err(AppError::InvalidArgument(message)),
    }
}

/// The error of an output directory that could not be created.
pub fn directory_error(directory: &str, error: &str) -> (result: AppError)
    ensures
        result matches AppError::InvalidArgument(text) && text@
            == "failed to create output directory "@ + directory@ + ": "@ + error@,
{
    let mut text = "failed to create output directory ".to_owned();
    text.append(directory);
    text.append(": ");
    text.append(error);
    AppError::InvalidArgument(text)
}

/// What is said of a capture that could not be encoded.
pub fn encode_failure(error: &str) -> (text: String)
    ensures
        text@ == "failed to encode capture: "@ + error@,
{
    after("failed to encode capture: ", error)
}

/// The stem tried at an attempt: the capture's own, then the same with a number from two on.
pub open spec fn stem_at(stem: Seq<char>, attempt: int) -> Seq<char> {
    if attempt == 0 {
        stem
    } else {
        stem + "-"@ + decimal((attempt + 1) as nat)
    }
}

/// The names tried for one capture.
#[derive(Clone, Copy, Debug, Eq, PartialEq, Structural)]
pub struct NameSearch {
    /// How many names were already taken.
    pub attempt: u32,
}

/// What follows an attempt to write a capture.
#[derive(Debug)]
pub enum NameStep {
    /// The capture is written; so many names were taken before.
    Written(u32),
    /// Try the next name.
    TryNext,
    /// The capture is given up.
    Fail(String),
}

impl NameSearch {
    /// Whether another name may be tried.
    pub open spec fn wf(self) -> bool {
        self.attempt < MAX_COLLISION_ATTEMPTS
    }

    /// A capture whose own name is tried first.
    pub fn begin() -> (search: Self)
        ensures
            search.wf(),
            search.attempt == 0,
    {
        NameSearch { attempt: 0 }
    }

    /// The stem that is tried now.
    pub fn candidate(&self, stem: &str) -> (candidate: String)
        requires
            self.wf(),
        ensures
            candidate@ == stem_at(stem@, self.attempt as int),
    {
        let mut candidate = stem.to_owned();
        if self.attempt != 0 {
            candidate.append("-");
            candidate.append(decimal_text(self.attempt as u64 + 1).as_str());
        }
        candidate
    }

    /// The file that is tried now. A name that would lead out of the directory is refused; one that
    /// is a name on every system, in a directory that is written without steps upwards, never is.
    pub fn next_path(&self, directory: &FilePath, shown_directory: &str, stem: &str) -> (result:
        Result<FilePath, String>)
        requires
            self.wf(),
        ensures
            ({
                let candidate = stem_at(stem@, self.attempt as int);
                let name = candidate + "."@ + "png"@;
                match result {
                    Ok(path) => is_resolution(directory@, name, Some(path@)),
                    Err(text) => is_resolution(directory@, name, None) && text@
                        == "refusing to write "@ + candidate + ".png: it would land outside "@
                        + shown_directory@,
                }
            }),
    {
        let candidate = self.candidate(stem);
        match resolve(directory, candidate.as_str(), "png") {
            Some(path) => Ok(path),
            None => {
                let mut text = "refusing to write ".to_owned();
                text.append(candidate.as_str());
                text.append(".png: it would land outside ");
                text.append(shown_directory);
                Err(text)
            },
        }
    }

    /// Takes what came of writing the file without replacing one. Only a taken name leads to the next
    /// one.
    pub fn write_without_clobbering(
        &mut self,
        outcome: FileOutcome,
        shown_path: &str,
        error: &str,
        shown_directory: &str,
    ) -> (step: NameStep)
        requires
            old(self).wf(),
        ensures
            match outcome {
                FileOutcome::Done => step == NameStep::Written(old(self).attempt),
                FileOutcome::AlreadyExists => if old(self).attempt + 1 < MAX_COLLISION_ATTEMPTS {
                    step is TryNext
                } else {
                    step matches NameStep::Fail(text) && text@
                        == "failed to find an unused name in "@ + shown_directory@ + " after "@
                        + decimal(100) + " attempts"@
                },
                FileOutcome::NotFound | FileOutcome::Failed => step matches NameStep::Fail(text)
                    && text@ == "failed to write "@ + shown_path@ + ": "@ + error@,
            },
            final(self).attempt == if step is TryNext {
                old(self).attempt + 1
            } else {
                old(self).attempt as int
            },
            final(self).wf(),
    {
        match outcome {
            FileOutcome::Done => NameStep::Written(self.attempt),
            FileOutcome::AlreadyExists => {
                if self.attempt + 1 < MAX_COLLISION_ATTEMPTS {
                    self.attempt = self.attempt + 1;
                    NameStep::TryNext
                } else {
                    let mut text = "failed to find an unused name in ".to_owned();
                    text.append(shown_directory);
                    text.append(" after ");
                    text.append(decimal_text(100).as_str());
                    text.append(" attempts");
                    NameStep::Fail(text)
                }
            },
            FileOutcome::NotFound | FileOutcome::Failed => {
                let mut text = "failed to write ".to_owned();
                text.append(shown_path);
                text.append(": ");
                text.append(error);
                NameStep::Fail(text)
            },
        }
    }
}

/// No name is tried twice for one capture.
pub proof fn law_every_attempt_has_its_own_name(stem: Seq<char>, i: int, j: int)
    requires
        0 <= i,
        0 <= j,
        i != j,
    ensures
        stem_at(stem, i) != stem_at(stem, j),
{
    if stem_at(stem, i) == stem_at(stem, j) {
        reveal_strlit("-");
        let start = stem + "-"@;
        if i == 0 {
            assert(stem_at(stem, j).len() > stem.len());
        } else if j == 0 {
            assert(stem_at(stem, i).len() > stem.len());
        } else {
            assert(stem_at(stem, i).skip(start.len() as int) =~= decimal((i + 1) as nat));
            assert(stem_at(stem, j).skip(start.len() as int) =~= decimal((j + 1) as nat));
            lemma_decimal_injective((i + 1) as nat, (j + 1) as nat);
        }
    }
}

/// Whatever a title or an application is called, a capture that a valid template without a colon
/// names is never refused a file: each attempt leads to the file of its own name, in any directory
/// that is written without steps upwards.
pub proof fn law_named_captures_are_never_refused(
    template: Seq<char>,
    context: Naming,
    attempt: int,
    directory: Seq<Part>,
    path: Option<Seq<Part>>,
)
    requires
        template_fault(template) is None,
        !template.contains(':'),
        0 <= attempt,
        !directory.contains(Part::Parent),
        is_resolution(
            directory,
            stem_at(expanded(template, context), attempt) + "."@ + "png"@,
            path,
        ),
    ensures
        path == Some(
            directory.push(
                Part::Normal(stem_at(expanded(template, context), attempt) + "."@ + "png"@),
            ),
        ),
{
    let stem = expanded(template, context);
    let name = stem_at(stem, attempt) + "."@ + "png"@;
    let number = if attempt == 0 {
        Seq::<char>::empty()
    } else {
        "-"@ + decimal((attempt + 1) as nat)
    };
    let suffix = number + "."@ + "png"@;
    reveal_strlit("-");
    reveal_strlit(".");
    reveal_strlit("..");
    reveal_strlit("png");
    lemma_decimal_digits((attempt + 1) as nat);
    let digits = decimal((attempt + 1) as nat);
    assert forall|i: int| 0 <= i < suffix.len() implies suffix[i] != '/' && suffix[i] != '\\'
        && suffix[i] != ':' by {
        if 0 < i < number.len() {
            assert(suffix[i] == digits[i - 1]);
        }
    }
    lemma_plain_file_name(template, context, suffix);
    assert(stem + suffix =~= name);
    lemma_plain_step(name);
}

/// What a text says, where there is one.
pub open spec fn text_or_nothing(text: Option<String>) -> Seq<char> {
    match text {
        Some(text) => text@,
        None => Seq::empty(),
    }
}

/// What a frame is named by, for a moment and an action.
pub open spec fn naming(
    frame: CpuFrame,
    action: HotkeyAction,
    timestamp_micros: u128,
    application: Seq<char>,
    title: Seq<char>,
) -> Naming {
    Naming {
        timestamp_micros,
        display: frame.metadata.display_id@,
        mode: action.name(),
        width: frame.width,
        height: frame.height,
        application,
        title,
    }
}

/// Names a capture from the user's template and what the capture knows about itself.
pub fn capture_stem(template: &str, job: &OutputJob, timestamp_micros: u128) -> (stem: String)
    ensures
        stem@ == expanded(
            template@,
            naming(
                job.frame,
                job.action,
                timestamp_micros,
                text_or_nothing(job.window_application),
                text_or_nothing(job.window_title),
            ),
        ),
{
    let context = TemplateContext {
        timestamp_micros,
        display: job.frame.metadata.display_id.0.as_str(),
        mode: job.action.as_str(),
        width: job.frame.width,
        height: job.frame.height,
        application: match &job.window_application {
            Some(text) => Some(text.as_str()),
            None => None,
        },
        title: match &job.window_title {
            Some(text) => Some(text.as_str()),
            None => None,
        },
    };
    expand(template, &context)
}

/// Names a capture that no window is known of.
pub fn one_shot_stem(
    template: &str,
    frame: &CpuFrame,
    action: HotkeyAction,
    timestamp_micros: u128,
) -> (stem: String)
    ensures
        stem@ == expanded(
            template@,
            naming(*frame, action, timestamp_micros, Seq::empty(), Seq::empty()),
        ),
{
    let context = TemplateContext {
        timestamp_micros,
        display: frame.metadata.display_id.0.as_str(),
        mode: action.as_str(),
        width: frame.width,
        height: frame.height,
        application: None,
        title: None,
    };
    expand(template, &context)
}

/// Remembers where captures went.
#[derive(Debug)]
pub struct HistoryRecorder {
    pub store: HistoryStore,
    pub policy: RetentionPolicy,
}

impl HistoryRecorder {
    pub fn new(store: HistoryStore, policy: RetentionPolicy) -> (recorder: Self)
        ensures
            recorder.store == store,
            recorder.policy == policy,
    {
        HistoryRecorder { store, policy }
    }

    /// Whether an entry is what is remembered of a frame that was written.
    pub open spec fn remembers(
        self,
        entry: Option<HistoryEntry>,
        frame: CpuFrame,
        action: HotkeyAction,
        report: WriteReport,
        captured_at_micros: i64,
    ) -> bool {
        match entry {
            Some(entry) => self.policy.max_items != 0 && entry == (HistoryEntry {
                path: report.path,
                captured_at_micros,
                bytes: report.bytes as u64,
                width: frame.width,
                height: frame.height,
                display: frame.metadata.display_id.0,
                mode: entry.mode,
            }) && entry.mode@ == action.name(),
            None => self.policy.max_items == 0,
        }
    }

    /// What is remembered of a frame that was written, where anything is remembered at all.
    pub fn frame_entry(
        &self,
        frame: &CpuFrame,
        action: HotkeyAction,
        report: &WriteReport,
        captured_at_micros: i64,
    ) -> (entry: Option<HistoryEntry>)
        ensures
            self.remembers(entry, *frame, action, *report, captured_at_micros),
    {
        if self.policy.max_items == 0 {
            return None;
        }
        Some(
            HistoryEntry {
                path: report.path.clone(),
                captured_at_micros,
                bytes: report.bytes as u64,
                width: frame.width,
                height: frame.height,
                display: frame.metadata.display_id.0.clone(),
                mode: action.as_str().to_owned(),
            },
        )
    }

    /// What is remembered of a capture that was written, where anything is remembered at all.
    pub fn entry(&self, job: &OutputJob, report: &WriteReport, captured_at_micros: i64) -> (entry:
        Option<HistoryEntry>)
        ensures
            self.remembers(entry, job.frame, job.action, *report, captured_at_micros),
    {
        self.frame_entry(&job.frame, job.action, report, captured_at_micros)
    }
}

/// The JSON event of a capture that was written.
pub fn written_event(job: &OutputJob, report: &WriteReport) -> (text: String)
    ensures
        text@ == json_text(
            event_fields("file_output_written"@, job.capture_id).insert(
                "source"@,
                JsonField::Text(job.source@),
            ).insert("action"@, JsonField::Text(job.action.name())).insert(
                "path"@,
                JsonField::Text(report.path@),
            ).insert("bytes"@, JsonField::Number(report.bytes as int)).insert(
                "encode_ns"@,
                JsonField::Number(report.encode_ns as int),
            ).insert("write_ns"@, JsonField::Number(report.write_ns as int)).insert(
                "collisions"@,
                JsonField::Number(report.collisions as int),
            ),
        ),
{
    let mut object = new_event("file_output_written", job.capture_id);
    insert_text(&mut object, "source", job.source);
    insert_text(&mut object, "action", job.action.as_str());
    insert_text(&mut object, "path", report.path.as_str());
    insert_number(&mut object, "bytes", report.bytes as u64);
    insert_number(&mut object, "encode_ns", report.encode_ns);
    insert_number(&mut object, "write_ns", report.write_ns);
    insert_number(&mut object, "collisions", report.collisions as u64);
    render(object)
}

/// The JSON event of a capture that was not written.
pub fn failed_event(job: &OutputJob, error: &str) -> (text: String)
    ensures
        text@ == json_text(
            event_fields("file_output_failed"@, job.capture_id).insert(
                "source"@,
                JsonField::Text(job.source@),
            ).insert("action"@, JsonField::Text(job.action.name())).insert(
                "error"@,
                JsonField::Text(error@),
            ),
        ),
{
    let mut object = new_event("file_output_failed", job.capture_id);
    insert_text(&mut object, "source", job.source);
    insert_text(&mut object, "action", job.action.as_str());
    insert_text(&mut object, "error", error);
    render(object)
}

/// The first attempt at a name is the name itself, and each later one is followed by its number, from
/// two on. A hundred are made.
pub proof fn law_attempts_are_numbered_from_two(stem: Seq<char>, attempt: int)
    requires
        0 <= attempt,
    ensures
        attempt == 0 ==> stem_at(stem, attempt) == stem,
        attempt > 0 ==> {
            let text = stem_at(stem, attempt);
            &&& starts_with(text, stem.push('-'))
            &&& number_in(text.skip(stem.len() as int + 1)) == attempt + 1
            &&& text.len() > stem.len() + 1
        },
        MAX_COLLISION_ATTEMPTS == 100,
{
    reveal_strlit("-");
    if attempt > 0 {
        let text = stem_at(stem, attempt);
        law_decimals_read_back((attempt + 1) as nat);
        assert(text.take(stem.len() as int + 1) =~= stem.push('-'));
        assert(text.skip(stem.len() as int + 1) =~= decimal((attempt + 1) as nat));
    }
}

/// A capture is named after what it shows: its own moment, display, action and size, and the window
/// where there is one.
pub proof fn law_a_capture_is_named_after_what_it_shows(
    frame: CpuFrame,
    action: HotkeyAction,
    timestamp_micros: u128,
    application: Seq<char>,
    title: Seq<char>,
)
    ensures
        ({
            let context = naming(frame, action, timestamp_micros, application, title);
            &&& context.timestamp_micros == timestamp_micros
            &&& context.display == frame.metadata.display_id@
            &&& context.mode == action.name()
            &&& context.width == frame.width && context.height == frame.height
            &&& context.application == application && context.title == title
        }),
{
}

/// A written capture is remembered unless nothing is to be: as the file that was written, with its own
/// size, moment, display and action.
pub proof fn law_a_written_capture_is_remembered(
    recorder: HistoryRecorder,
    entry: Option<HistoryEntry>,
    frame: CpuFrame,
    action: HotkeyAction,
    report: WriteReport,
    captured_at_micros: i64,
)
    requires
        recorder.remembers(entry, frame, action, report, captured_at_micros),
    ensures
        entry is Some <==> recorder.policy.max_items > 0,
        entry matches Some(entry) ==> entry.path == report.path && entry.bytes == report.bytes
            && entry.captured_at_micros == captured_at_micros && entry.width == frame.width
            && entry.height == frame.height && entry.display@ == frame.metadata.display_id@
            && entry.mode@ == action.name(),
{
}

} // verus!
