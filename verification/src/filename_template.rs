//! Turning a capture into a file name the user chose the shape of.
//!
//! A template mixes text that the user wrote with text that any application can put into its own
//! title bar. Substituted values are sanitized on the way in, the assembled name is checked again on
//! the way out, and the path it leads to has to be a direct child of the output directory.
use vstd::prelude::*;
use vstd::string::*;

use crate::clock::{
    earlier_parts, law_every_moment_has_parts, law_later_moments_have_later_parts,
    lemma_four_digit_year, parts_at, utc_parts,
};
use crate::path::{parts_of, FilePath, Part, PathPart};
use crate::text::{
    ascii_lower, chars_of, contains_char, control, debug_text, decimal, decimal_text, find_from,
    is_blank, is_control, is_one_of, is_whitespace, law_decimals_read_back,
    law_padded_numbers_read_back, law_trimming_takes_white_space_off, lemma_padded,
    lemma_padded_precedes, lemma_position, lemma_precedes_behind, lemma_precedes_whatever_follows,
    lemma_split_append, lemma_split_single, lower, lowered, number_in, padded, padded_text, position, precedes, quoted,
    same, split, ten_to, text_between, trim, trimmed, whitespace,
};

verus! {

/// How much of one substituted value survives.
pub const MAX_FIELD_CHARS: usize = 64;

/// How long the assembled stem may be, before the extension.
pub const MAX_STEM_CHARS: usize = 120;

/// The name of a capture whose template expands to nothing usable.
pub const FALLBACK_STEM: &'static str = "capture";

/// What a template can refer to.
#[derive(Clone, Copy, Debug)]
pub struct TemplateContext<'a> {
    pub timestamp_micros: u128,
    pub display: &'a str,
    pub mode: &'a str,
    pub width: u32,
    pub height: u32,
    /// The owning application of a captured window, where the capture had one.
    pub application: Option<&'a str>,
    /// The captured window's title, which its application chose.
    pub title: Option<&'a str>,
}

/// What a capture is named by.
pub struct Naming {
    pub timestamp_micros: u128,
    pub display: Seq<char>,
    pub mode: Seq<char>,
    pub width: u32,
    pub height: u32,
    /// Empty where there is none.
    pub application: Seq<char>,
    /// Empty where there is none.
    pub title: Seq<char>,
}

impl<'a> View for TemplateContext<'a> {
    type V = Naming;

    open spec fn view(&self) -> Naming {
        Naming {
            timestamp_micros: self.timestamp_micros,
            display: self.display@,
            mode: self.mode@,
            width: self.width,
            height: self.height,
            application: match self.application {
                Some(text) => text@,
                None => Seq::empty(),
            },
            title: match self.title {
                Some(text) => text@,
                None => Seq::empty(),
            },
        }
    }
}

/// Whether a template may use a token.
pub open spec fn is_token(token: Seq<char>) -> bool {
    ||| token == "timestamp"@
    ||| token == "date"@
    ||| token == "time"@
    ||| token == "display"@
    ||| token == "mode"@
    ||| token == "width"@
    ||| token == "height"@
    ||| token == "application"@
    ||| token == "title"@
}

/// Whether a template may use a token.
fn known_token(token: &str) -> (yes: bool)
    ensures
        yes == is_token(token@),
{
    same(token, "timestamp") || same(token, "date") || same(token, "time") || same(
        token,
        "display",
    ) || same(token, "mode") || same(token, "width") || same(token, "height") || same(
        token,
        "application",
    ) || same(token, "title")
}

/// What is wrong with the tokens of a template from some place on. `has_token` says whether a token
/// stands before it.
pub open spec fn token_fault(template: Seq<char>, rest: Seq<char>, has_token: bool) -> Option<
    Seq<char>,
>
    decreases rest.len(),
{
    let open = position(rest, '{');
    if open >= rest.len() || open < 0 {
        if rest.contains('}') {
            Some("output.filename_template has an unmatched '}' in "@ + debug_text(template))
        } else if !has_token {
            Some(
                "output.filename_template must use at least one token, or every capture would compete for one name"@,
            )
        } else {
            None
        }
    } else {
        let after = rest.skip(open + 1);
        let close = position(after, '}');
        let token = after.take(close);
        if close >= after.len() || close < 0 {
            Some("output.filename_template has an unclosed '{' in "@ + debug_text(template))
        } else if !is_token(token) {
            Some(
                "output.filename_template uses unknown token {"@ + token
                    + "}; known tokens are {timestamp}, {date}, {time}, {display}, {mode}, {width}, {height}, {application}, {title}"@,
            )
        } else {
            token_fault(template, after.skip(close + 1), true)
        }
    }
}

/// What is wrong with a template.
pub open spec fn template_fault(template: Seq<char>) -> Option<Seq<char>> {
    if is_blank(template) {
        Some("output.filename_template must not be empty"@)
    } else if template.contains('/') || template.contains('\\') {
        Some(
            "output.filename_template must not contain path separators; it names a file, not a path"@,
        )
    } else {
        token_fault(template, template, false)
    }
}

/// Reports what is wrong with a template.
pub fn validate_template(template: &str) -> (result: Result<(), String>)
    ensures
        match template_fault(template@) {
            Some(message) => result matches Err(text) && text@ == message,
            None => result is Ok,
        },
{
    if trim(template).as_str().is_empty() {
        return Err("output.filename_template must not be empty".to_owned());
    }
    if contains_char(template, '/') || contains_char(template, '\\') {
        return Err(
            "output.filename_template must not contain path separators; it names a file, not a path".to_owned(),
        );
    }
    let chars = chars_of(template);
    let mut from: usize = 0;
    let mut has_token = false;
    proof {
        assert(chars@.skip(0) =~= template@);
    }
    let mut open: usize = find_from(&chars, 0, '{');
    while open < chars.len()
        invariant
            from <= open <= chars@.len(),
            chars@ == template@,
            open == from + position(chars@.skip(from as int), '{'),
            template_fault(template@) == token_fault(
                template@,
                chars@.skip(from as int),
                has_token,
            ),
        decreases chars@.len() - from,
    {
        let close: usize = find_from(&chars, open + 1, '}');
        let ghost rest = chars@.skip(from as int);
        let ghost after = rest.skip(open - from + 1);
        proof {
            assert(after =~= chars@.skip(open + 1));
            lemma_position(after, '}');
        }
        if close >= chars.len() {
            let mut text = "output.filename_template has an unclosed '{' in ".to_owned();
            text.append(quoted(template).as_str());
            return Err(text);
        }
        let token = text_between(&chars, open + 1, close);
        proof {
            assert(token@ =~= after.take(close - open - 1));
            assert(after.skip(close - open) =~= chars@.skip(close + 1));
        }
        if !known_token(token.as_str()) {
            let mut text = "output.filename_template uses unknown token {".to_owned();
            text.append(token.as_str());
            text.append(
                "}; known tokens are {timestamp}, {date}, {time}, {display}, {mode}, {width}, {height}, {application}, {title}",
            );
            return Err(text);
        }
        has_token = true;
        from = close + 1;
        open = find_from(&chars, from, '{');
    }
    let ghost rest = chars@.skip(from as int);
    proof {
        lemma_position(rest, '}');
    }
    if find_from(&chars, from, '}') < chars.len() {
        let mut text = "output.filename_template has an unmatched '}' in ".to_owned();
        text.append(quoted(template).as_str());
        return Err(text);
    }
    if !has_token {
        return Err(
            "output.filename_template must use at least one token, or every capture would compete for one name".to_owned(),
        );
    }
    Ok(())
}

/// Whether a filesystem forbids a character in names, or takes it for a separator.
pub open spec fn is_forbidden(c: char) -> bool {
    c == '<' || c == '>' || c == ':' || c == '"' || c == '/' || c == '\\' || c == '|' || c == '?'
        || c == '*'
}

/// Whether a character of a substituted value stays as it is.
pub open spec fn is_usable(c: char) -> bool {
    !is_control(c) && !is_forbidden(c) && c != '{' && c != '}' && !is_whitespace(c) && c != '.'
}

/// Whether a character of a substituted value stays as it is.
fn usable(c: char) -> (yes: bool)
    ensures
        yes == is_usable(c),
{
    let forbidden = c == '<' || c == '>' || c == ':' || c == '"' || c == '/' || c == '\\' || c
        == '|' || c == '?' || c == '*';
    !control(c) && !forbidden && c != '{' && c != '}' && !whitespace(c) && c != '.'
}

/// What a substituted value comes to so far, and whether unusable characters follow it.
pub open spec fn swept(value: Seq<char>) -> (Seq<char>, bool)
    decreases value.len(),
{
    if value.len() == 0 {
        (Seq::empty(), false)
    } else {
        let (out, pending) = swept(value.drop_last());
        let c = value.last();
        if out.len() >= MAX_FIELD_CHARS {
            (out, pending)
        } else if !is_usable(c) {
            (out, true)
        } else if !pending || out.len() == 0 {
            (out.push(c), false)
        } else if out.len() + 2 <= MAX_FIELD_CHARS {
            (out.push('-').push(c), false)
        } else {
            (out, true)
        }
    }
}

/// A substituted value, reduced to what is safe in a name: runs of unusable characters become one
/// separator between what they separate, and the length is bounded. A separator for which nothing
/// would follow is left out.
pub open spec fn sanitized(value: Seq<char>) -> Seq<char> {
    swept(value).0
}

/// Once a value has reached its length, the rest of it changes nothing.
proof fn lemma_swept_full(value: Seq<char>, i: int)
    requires
        0 <= i <= value.len(),
        swept(value.take(i)).0.len() >= MAX_FIELD_CHARS,
    ensures
        swept(value) == swept(value.take(i)),
    decreases value.len() - i,
{
    if i < value.len() {
        assert(value.take(i + 1).drop_last() =~= value.take(i));
        lemma_swept_full(value, i + 1);
    } else {
        assert(value.take(i) =~= value);
    }
}

/// Reduces a substituted value to what is safe in a name.
pub fn sanitize_field(value: &str) -> (out: String)
    ensures
        out@ == sanitized(value@),
        out@.len() <= MAX_FIELD_CHARS,
{
    let chars = chars_of(value);
    let mut out = String::new();
    let mut length: usize = 0;
    let mut pending = false;
    let mut i: usize = 0;
    while i < chars.len()
        invariant
            i <= chars@.len(),
            chars@ == value@,
            length == out@.len(),
            length <= MAX_FIELD_CHARS,
            (out@, pending) == swept(value@.take(i as int)),
        decreases chars@.len() - i,
    {
        if length >= MAX_FIELD_CHARS {
            proof {
                lemma_swept_full(value@, i as int);
            }
            return out;
        }
        let c = chars[i];
        proof {
            assert(value@.take(i + 1).drop_last() =~= value@.take(i as int));
        }
        if !usable(c) {
            pending = true;
        } else if !pending || length == 0 {
            pending = false;
            out.push(c);
            length += 1;
        } else if length + 2 <= MAX_FIELD_CHARS {
            pending = false;
            out.push('-');
            out.push(c);
            length += 2;
        }
        i += 1;
    }
    proof {
        assert(value@.take(i as int) =~= value@);
    }
    out
}

/// What a token stands for.
pub open spec fn value_of(token: Seq<char>, context: Naming) -> Seq<char> {
    let (year, month, day, hour, minute, second, millis) = parts_at(context.timestamp_micros);
    let date = padded(year as nat, 4) + padded(month as nat, 2) + padded(day as nat, 2);
    let time = padded(hour as nat, 2) + padded(minute as nat, 2) + padded(second as nat, 2)
        + seq!['-'] + padded(millis as nat, 3);
    if token == "timestamp"@ {
        date + seq!['-'] + time
    } else if token == "date"@ {
        date
    } else if token == "time"@ {
        time
    } else if token == "display"@ {
        context.display
    } else if token == "mode"@ {
        context.mode
    } else if token == "width"@ {
        decimal(context.width as nat)
    } else if token == "height"@ {
        decimal(context.height as nat)
    } else if token == "application"@ {
        context.application
    } else if token == "title"@ {
        context.title
    } else {
        Seq::empty()
    }
}

/// What a token stands for.
fn token_value(token: &str, context: &TemplateContext<'_>) -> (value: String)
    ensures
        value@ == value_of(token@, context@),
{
    let (year, month, day, hour, minute, second, millis) = utc_parts(context.timestamp_micros);
    let mut date = padded_text(year as u64, 4);
    date.append(padded_text(month as u64, 2).as_str());
    date.append(padded_text(day as u64, 2).as_str());
    let mut time = padded_text(hour as u64, 2);
    time.append(padded_text(minute as u64, 2).as_str());
    time.append(padded_text(second as u64, 2).as_str());
    time.push('-');
    time.append(padded_text(millis as u64, 3).as_str());
    if same(token, "timestamp") {
        date.push('-');
        date.append(time.as_str());
        date
    } else if same(token, "date") {
        date
    } else if same(token, "time") {
        time
    } else if same(token, "display") {
        context.display.to_owned()
    } else if same(token, "mode") {
        context.mode.to_owned()
    } else if same(token, "width") {
        decimal_text(context.width as u64)
    } else if same(token, "height") {
        decimal_text(context.height as u64)
    } else if same(token, "application") {
        match context.application {
            Some(text) => text.to_owned(),
            None => String::new(),
        }
    } else if same(token, "title") {
        match context.title {
            Some(text) => text.to_owned(),
            None => String::new(),
        }
    } else {
        String::new()
    }
}

/// A template from some place on, with its tokens replaced by their sanitized values. A brace that
/// is never closed is left out, and the text behind it is taken as it stands.
pub open spec fn assembled(rest: Seq<char>, context: Naming) -> Seq<char>
    decreases rest.len(),
{
    let open = position(rest, '{');
    if open >= rest.len() || open < 0 {
        rest
    } else {
        let after = rest.skip(open + 1);
        let close = position(after, '}');
        if close >= after.len() || close < 0 {
            rest.take(open) + after
        } else {
            rest.take(open) + sanitized(value_of(after.take(close), context)) + assembled(
                after.skip(close + 1),
                context,
            )
        }
    }
}

/// Whether a character is cut from the ends of a stem.
pub open spec fn is_padding(c: char) -> bool {
    c == '-' || is_whitespace(c)
}

/// `s` without the padding at its start.
pub open spec fn unpadded_start(s: Seq<char>) -> Seq<char>
    decreases s.len(),
{
    if s.len() > 0 && is_padding(s[0]) {
        unpadded_start(s.drop_first())
    } else {
        s
    }
}

/// `s` without the padding at its end.
pub open spec fn unpadded_end(s: Seq<char>) -> Seq<char>
    decreases s.len(),
{
    if s.len() > 0 && is_padding(s.last()) {
        unpadded_end(s.drop_last())
    } else {
        s
    }
}

/// `s` without the dots and spaces at its end, which some systems drop when they look a name up.
pub open spec fn undotted(s: Seq<char>) -> Seq<char>
    decreases s.len(),
{
    if s.len() > 0 && (s.last() == '.' || s.last() == ' ') {
        undotted(s.drop_last())
    } else {
        s
    }
}

/// The first characters of `s`, up to the longest stem.
pub open spec fn bounded(s: Seq<char>) -> Seq<char> {
    if s.len() > MAX_STEM_CHARS {
        s.take(MAX_STEM_CHARS as int)
    } else {
        s
    }
}

/// The names that devices reserve, with or without an extension and in any case.
pub open spec fn reserved_stems() -> Seq<Seq<char>> {
    seq![
        "con"@,
        "prn"@,
        "aux"@,
        "nul"@,
        "com1"@,
        "com2"@,
        "com3"@,
        "com4"@,
        "com5"@,
        "com6"@,
        "com7"@,
        "com8"@,
        "com9"@,
        "lpt1"@,
        "lpt2"@,
        "lpt3"@,
        "lpt4"@,
        "lpt5"@,
        "lpt6"@,
        "lpt7"@,
        "lpt8"@,
        "lpt9"@,
    ]
}

/// Whether a device reserves the part of a name before its first dot.
pub open spec fn is_reserved(stem: Seq<char>) -> bool {
    reserved_stems().contains(lowered(stem.take(position(stem, '.'))))
}

/// Whether a device reserves the part of a name before its first dot.
fn reserved(stem: &str) -> (yes: bool)
    ensures
        yes == is_reserved(stem@),
{
    let chars = chars_of(stem);
    let dot: usize = find_from(&chars, 0, '.');
    proof {
        assert(chars@.skip(0) =~= stem@);
    }
    let leading = lower(text_between(&chars, 0, dot).as_str());
    let names: Vec<&str> = vec![
        "con", "prn", "aux", "nul", "com1", "com2", "com3", "com4", "com5", "com6", "com7", "com8",
        "com9", "lpt1", "lpt2", "lpt3", "lpt4", "lpt5", "lpt6", "lpt7", "lpt8", "lpt9",
    ];
    is_one_of(leading.as_str(), &names)
}

/// The part of a stem that a device could reserve, marked so that none does, and the rest behind it.
pub open spec fn marked(stem: Seq<char>) -> Seq<char> {
    let dot = position(stem, '.');
    stem.take(dot) + "-capture"@ + stem.skip(dot)
}

/// A stem cut to its length, without the dots and spaces that then stand at its end.
pub open spec fn clipped(s: Seq<char>) -> Seq<char> {
    undotted(bounded(s))
}

/// The stem that an assembled text comes to: without padding, bounded, without dots and spaces at
/// its end, never empty, and marked where a device reserves it.
pub open spec fn finalized(stem: Seq<char>) -> Seq<char> {
    let cut = clipped(unpadded_end(unpadded_start(stem)));
    if cut.len() == 0 {
        "capture"@
    } else if is_reserved(cut) {
        clipped(marked(cut))
    } else {
        cut
    }
}

/// Cuts a stretch of text to its length, and the dots and spaces at its end off.
fn clip(chars: &Vec<char>, start: usize, end: usize) -> (out: String)
    requires
        start <= end <= chars@.len(),
    ensures
        out@ == clipped(chars@.subrange(start as int, end as int)),
{
    let ghost whole = chars@.subrange(start as int, end as int);
    let mut end: usize = end;
    if end - start > MAX_STEM_CHARS {
        end = start + MAX_STEM_CHARS;
    }
    proof {
        assert(bounded(whole) =~= chars@.subrange(start as int, end as int));
    }
    while end > start && (chars[end - 1] == '.' || chars[end - 1] == ' ')
        invariant
            start <= end <= chars@.len(),
            clipped(whole) == undotted(chars@.subrange(start as int, end as int)),
        decreases end,
    {
        proof {
            let cut = chars@.subrange(start as int, end as int);
            assert(cut.drop_last() =~= chars@.subrange(start as int, end - 1));
        }
        end -= 1;
    }
    text_between(chars, start, end)
}

/// Marks the part of a stem that a device could reserve.
fn mark(stem: &str) -> (out: String)
    ensures
        out@ == marked(stem@),
{
    let chars = chars_of(stem);
    let dot: usize = find_from(&chars, 0, '.');
    proof {
        assert(chars@.skip(0) =~= stem@);
        assert(chars@.subrange(dot as int, chars@.len() as int) =~= stem@.skip(dot as int));
    }
    let mut out = text_between(&chars, 0, dot);
    out.append("-capture");
    out.append(text_between(&chars, dot, chars.len()).as_str());
    out
}

/// Applies the rules that are about the name as a whole.
pub fn finalize_stem(stem: &str) -> (out: String)
    ensures
        out@ == finalized(stem@),
        0 < out@.len() <= MAX_STEM_CHARS,
        !is_reserved(out@),
{
    let chars = chars_of(stem);
    let mut start: usize = 0;
    proof {
        assert(stem@.skip(0) =~= stem@);
    }
    while start < chars.len() && (chars[start] == '-' || whitespace(chars[start]))
        invariant
            start <= chars@.len(),
            chars@ == stem@,
            unpadded_start(stem@) == unpadded_start(stem@.skip(start as int)),
        decreases chars@.len() - start,
    {
        proof {
            assert(stem@.skip(start as int).drop_first() =~= stem@.skip(start + 1));
        }
        start += 1;
    }
    let mut end: usize = chars.len();
    let ghost front = unpadded_start(stem@);
    while end > start && (chars[end - 1] == '-' || whitespace(chars[end - 1]))
        invariant
            start <= end <= chars@.len(),
            chars@ == stem@,
            unpadded_end(front) == unpadded_end(stem@.subrange(start as int, end as int)),
        decreases end,
    {
        proof {
            let middle = stem@.subrange(start as int, end as int);
            assert(middle.drop_last() =~= stem@.subrange(start as int, end - 1));
        }
        end -= 1;
    }
    let out = clip(&chars, start, end);
    proof {
        lemma_finalized(stem@);
    }
    if out.as_str().is_empty() {
        return "capture".to_owned();
    }
    if !reserved(out.as_str()) {
        return out;
    }
    let longer = chars_of(mark(out.as_str()).as_str());
    proof {
        assert(longer@.subrange(0, longer@.len() as int) =~= longer@);
    }
    clip(&longer, 0, longer.len())
}

/// The stem that a template expands to.
pub open spec fn expanded(template: Seq<char>, context: Naming) -> Seq<char> {
    finalized(assembled(template, context))
}

/// Expands a template into the stem of a file name.
pub fn expand(template: &str, context: &TemplateContext<'_>) -> (stem: String)
    ensures
        stem@ == expanded(template@, context@),
        0 < stem@.len() <= MAX_STEM_CHARS,
        !is_reserved(stem@),
{
    let chars = chars_of(template);
    let mut stem = String::new();
    let mut from: usize = 0;
    let mut open: usize = find_from(&chars, 0, '{');
    proof {
        assert(chars@.skip(0) =~= template@);
    }
    while open < chars.len()
        invariant
            from <= open <= chars@.len(),
            chars@ == template@,
            open == from + position(chars@.skip(from as int), '{'),
            stem@ + assembled(chars@.skip(from as int), context@) == assembled(
                template@,
                context@,
            ),
        decreases chars@.len() - from,
    {
        let ghost rest = chars@.skip(from as int);
        let ghost after = rest.skip(open - from + 1);
        let ghost before = stem@;
        stem.append(text_between(&chars, from, open).as_str());
        let close: usize = find_from(&chars, open + 1, '}');
        proof {
            assert(after =~= chars@.skip(open + 1));
        }
        if close >= chars.len() {
            stem.append(text_between(&chars, open + 1, chars.len()).as_str());
            proof {
                assert(stem@ =~= before + assembled(rest, context@));
            }
            return finalize_stem(stem.as_str());
        }
        let token = text_between(&chars, open + 1, close);
        proof {
            assert(token@ =~= after.take(close - open - 1));
            assert(after.skip(close - open) =~= chars@.skip(close + 1));
        }
        let value = token_value(token.as_str(), context);
        stem.append(sanitize_field(value.as_str()).as_str());
        proof {
            let tail = assembled(chars@.skip(close + 1), context@);
            let field = sanitized(value_of(token@, context@));
            assert(assembled(rest, context@) == rest.take(open - from) + field + tail);
            assert(stem@ + tail =~= before + assembled(rest, context@));
        }
        from = close + 1;
        open = find_from(&chars, from, '{');
    }
    stem.append(text_between(&chars, from, chars.len()).as_str());
    finalize_stem(stem.as_str())
}

/// What a sanitized value is made of, and how long it can be.
proof fn lemma_sanitized(value: Seq<char>)
    ensures
        forall|i: int|
            0 <= i < sanitized(value).len() ==> is_usable(#[trigger] sanitized(value)[i])
                || sanitized(value)[i] == '-',
        sanitized(value).len() <= MAX_FIELD_CHARS,
    decreases value.len(),
{
    if value.len() > 0 {
        lemma_sanitized(value.drop_last());
    }
}

/// An unusable character that does not stand in the template does not come into the stem.
proof fn lemma_assembled_lacks(rest: Seq<char>, context: Naming, c: char)
    requires
        !rest.contains(c),
        !is_usable(c),
        c != '-',
    ensures
        !assembled(rest, context).contains(c),
    decreases rest.len(),
{
    let open = position(rest, '{');
    lemma_position(rest, '{');
    if open < rest.len() {
        let after = rest.skip(open + 1);
        let close = position(after, '}');
        lemma_position(after, '}');
        let whole = assembled(rest, context);
        if close < after.len() {
            let field = sanitized(value_of(after.take(close), context));
            let tail = after.skip(close + 1);
            lemma_sanitized(value_of(after.take(close), context));
            assert(!tail.contains(c));
            lemma_assembled_lacks(tail, context, c);
            if whole.contains(c) {
                let i = choose|i: int| 0 <= i < whole.len() && whole[i] == c;
                if i < open {
                    assert(rest[i] == c);
                } else if i < open + field.len() {
                    assert(field[i - open] == c);
                } else {
                    assert(assembled(tail, context)[i - open - field.len()] == c);
                }
            }
        } else {
            if whole.contains(c) {
                let i = choose|i: int| 0 <= i < whole.len() && whole[i] == c;
                if i < open {
                    assert(rest[i] == c);
                } else {
                    assert(rest[i + 1] == c);
                }
            }
        }
    }
}

/// An unusable character that does not stand in the template does not stand in the expanded name.
proof fn lemma_expanded_lacks(template: Seq<char>, context: Naming, c: char)
    requires
        !template.contains(c),
        !is_usable(c),
        c != '-',
    ensures
        !expanded(template, context).contains(c),
{
    lemma_assembled_lacks(template, context, c);
    let stem = assembled(template, context);
    lemma_cut(stem);
    let cut = clipped(unpadded_end(unpadded_start(stem)));
    reveal_strlit("capture");
    reveal_strlit("-capture");
    let out = expanded(template, context);
    if out.contains(c) {
        let i = choose|i: int| 0 <= i < out.len() && out[i] == c;
        if cut.len() == 0 {
            assert(is_usable("capture"@[i]));
        } else if !is_reserved(cut) {
            assert(cut[i] == c);
        } else {
            let dot = position(cut, '.');
            lemma_position(cut, '.');
            lemma_clipped(marked(cut));
            if i < dot {
                assert(cut[i] == c);
            } else if i < dot + 8 {
                assert(is_usable("-capture"@[i - dot]) || "-capture"@[i - dot] == '-');
            } else {
                assert(cut[i - 8] == c);
            }
        }
    }
}

/// The cut stem is a stretch of the assembled one, and does not end in a dot or a space.
proof fn lemma_cut(stem: Seq<char>)
    ensures
        ({
            let cut = clipped(unpadded_end(unpadded_start(stem)));
            &&& exists|from: int|
                0 <= from && from + cut.len() <= stem.len() && cut == #[trigger] stem.subrange(
                    from,
                    from + cut.len(),
                )
            &&& cut.len() <= MAX_STEM_CHARS
            &&& cut.len() > 0 ==> cut.last() != '.' && cut.last() != ' '
        }),
{
    lemma_unpadded_start(stem);
    let front = unpadded_start(stem);
    lemma_unpadded_end(front);
    let middle = unpadded_end(front);
    lemma_clipped(middle);
    let cut = clipped(middle);
    let from = stem.len() - front.len();
    assert(cut =~= stem.subrange(from, from + cut.len()));
}

/// What is clipped is the start of what it was, and ends neither in a dot nor in a space.
proof fn lemma_clipped(s: Seq<char>)
    ensures
        clipped(s).len() <= s.len(),
        clipped(s).len() <= MAX_STEM_CHARS,
        clipped(s) == s.take(clipped(s).len() as int),
        clipped(s).len() > 0 ==> clipped(s).last() != '.' && clipped(s).last() != ' ',
        forall|i: int|
            0 <= i < s.len() && i < MAX_STEM_CHARS && #[trigger] s[i] != '.' && s[i] != ' '
                ==> i < clipped(s).len(),
{
    lemma_undotted(bounded(s));
    assert(clipped(s) =~= s.take(clipped(s).len() as int));
    assert forall|i: int|
        0 <= i < s.len() && i < MAX_STEM_CHARS && #[trigger] s[i] != '.' && s[i] != ' ' implies i
        < clipped(s).len() by {
        assert(bounded(s)[i] == s[i]);
    }
}

proof fn lemma_unpadded_start(s: Seq<char>)
    ensures
        unpadded_start(s).len() <= s.len(),
        unpadded_start(s) == s.subrange(s.len() - unpadded_start(s).len(), s.len() as int),
    decreases s.len(),
{
    if s.len() > 0 && is_padding(s[0]) {
        lemma_unpadded_start(s.drop_first());
    } else {
        assert(s =~= s.subrange(0, s.len() as int));
    }
}

proof fn lemma_unpadded_end(s: Seq<char>)
    ensures
        unpadded_end(s).len() <= s.len(),
        unpadded_end(s) == s.take(unpadded_end(s).len() as int),
    decreases s.len(),
{
    if s.len() > 0 && is_padding(s.last()) {
        lemma_unpadded_end(s.drop_last());
    } else {
        assert(s =~= s.take(s.len() as int));
    }
}

proof fn lemma_undotted(s: Seq<char>)
    ensures
        undotted(s).len() <= s.len(),
        undotted(s) == s.take(undotted(s).len() as int),
        undotted(s).len() > 0 ==> undotted(s).last() != '.' && undotted(s).last() != ' ',
        forall|i: int|
            undotted(s).len() <= i < s.len() ==> #[trigger] s[i] == '.' || s[i] == ' ',
    decreases s.len(),
{
    if s.len() > 0 && (s.last() == '.' || s.last() == ' ') {
        lemma_undotted(s.drop_last());
        assert forall|i: int| undotted(s).len() <= i < s.len() implies #[trigger] s[i] == '.' || s[i]
            == ' ' by {
            if i < s.len() - 1 {
                assert(s.drop_last()[i] == s[i]);
            }
        }
    } else {
        assert(s =~= s.take(s.len() as int));
    }
}

/// Whatever a title or an application is called, the stem of a valid template holds no path
/// separator, is never empty, is bounded in length, and does not end in a dot or a space.
pub proof fn law_valid_templates_expand_safely(template: Seq<char>, context: Naming)
    requires
        template_fault(template) is None,
    ensures
        !expanded(template, context).contains('/'),
        !expanded(template, context).contains('\\'),
        0 < expanded(template, context).len() <= MAX_STEM_CHARS,
        expanded(template, context).last() != '.',
        expanded(template, context).last() != ' ',
{
    lemma_expanded_lacks(template, context, '/');
    lemma_expanded_lacks(template, context, '\\');
    lemma_finalized(assembled(template, context));
}

/// Behind a stem that a valid template without a colon gave, a suffix that holds neither a separator
/// nor a colon makes one name on every system.
pub proof fn lemma_plain_file_name(template: Seq<char>, context: Naming, suffix: Seq<char>)
    requires
        template_fault(template) is None,
        !template.contains(':'),
        !suffix.contains('/'),
        !suffix.contains('\\'),
        !suffix.contains(':'),
    ensures
        is_plain_name(expanded(template, context) + suffix),
{
    law_valid_templates_expand_safely(template, context);
    lemma_expanded_lacks(template, context, ':');
    let stem = expanded(template, context);
    let name = stem + suffix;
    reveal_strlit(".");
    reveal_strlit("..");
    assert forall|c: char| (c == '/' || c == '\\' || c == ':') implies !name.contains(c) by {
        if name.contains(c) {
            let i = choose|i: int| 0 <= i < name.len() && name[i] == c;
            if i < stem.len() {
                assert(stem[i] == c);
            } else {
                assert(suffix[i - stem.len()] == c);
            }
        }
    }
    assert(name[stem.len() - 1] == stem.last());
    if name == ".."@ || name == "."@ {
        assert(name.len() == stem.len() + suffix.len());
        assert(name[stem.len() - 1] == '.');
    }
}

/// A valid template without a colon names a file inside the output directory on every system:
/// whatever a title or an application is called, and whichever the directory is, as long as no step
/// upwards is written in it, the stem resolves to the file of that name there.
pub proof fn law_valid_templates_name_a_file(
    template: Seq<char>,
    context: Naming,
    extension: Seq<char>,
    directory: Seq<Part>,
    path: Option<Seq<Part>>,
)
    requires
        template_fault(template) is None,
        !template.contains(':'),
        !extension.contains('/'),
        !extension.contains('\\'),
        !extension.contains(':'),
        !directory.contains(Part::Parent),
        is_resolution(directory, expanded(template, context) + "."@ + extension, path),
    ensures
        path == Some(
            directory.push(Part::Normal(expanded(template, context) + "."@ + extension)),
        ),
{
    let suffix = "."@ + extension;
    reveal_strlit(".");
    assert forall|c: char| (c == '/' || c == '\\' || c == ':') implies !suffix.contains(c) by {
        if suffix.contains(c) {
            let i = choose|i: int| 0 <= i < suffix.len() && suffix[i] == c;
            if i > 0 {
                assert(extension[i - 1] == c);
            }
        }
    }
    lemma_plain_file_name(template, context, suffix);
    let name = expanded(template, context) + "."@ + extension;
    assert(expanded(template, context) + suffix =~= name);
    lemma_plain_step(name);
    reveal_strlit("..");
}

/// No reserved name is longer than four characters.
proof fn lemma_reserved_are_short(name: Seq<char>)
    requires
        reserved_stems().contains(name),
    ensures
        name.len() <= 4,
{
    reveal_strlit("con");
    reveal_strlit("prn");
    reveal_strlit("aux");
    reveal_strlit("nul");
    reveal_strlit("com1");
    reveal_strlit("com2");
    reveal_strlit("com3");
    reveal_strlit("com4");
    reveal_strlit("com5");
    reveal_strlit("com6");
    reveal_strlit("com7");
    reveal_strlit("com8");
    reveal_strlit("com9");
    reveal_strlit("lpt1");
    reveal_strlit("lpt2");
    reveal_strlit("lpt3");
    reveal_strlit("lpt4");
    reveal_strlit("lpt5");
    reveal_strlit("lpt6");
    reveal_strlit("lpt7");
    reveal_strlit("lpt8");
    reveal_strlit("lpt9");
}

/// What a final stem is like, whatever it was made from.
proof fn lemma_finalized(stem: Seq<char>)
    ensures
        0 < finalized(stem).len() <= MAX_STEM_CHARS,
        finalized(stem).last() != '.',
        finalized(stem).last() != ' ',
        !is_reserved(finalized(stem)),
{
    lemma_cut(stem);
    let cut = clipped(unpadded_end(unpadded_start(stem)));
    let out = finalized(stem);
    reveal_strlit("capture");
    reveal_strlit("-capture");
    lemma_position(out, '.');
    let leading = lowered(out.take(position(out, '.')));
    if is_reserved(out) {
        lemma_reserved_are_short(leading);
    }
    if cut.len() > 0 && is_reserved(cut) {
        let dot = position(cut, '.');
        lemma_position(cut, '.');
        lemma_reserved_are_short(lowered(cut.take(dot)));
        let longer = marked(cut);
        lemma_clipped(longer);
        assert(longer[dot + 7] == 'e');
        assert forall|i: int| 0 <= i < dot + 8 implies out[i] != '.' by {
            if i < dot {
                assert(out[i] == cut[i]);
            }
        }
    }
}

/// Whatever a stem was made from, a device does not reserve it.
pub proof fn law_reserved_names_are_defused(stem: Seq<char>)
    ensures
        !is_reserved(finalized(stem)),
{
    lemma_finalized(stem);
}

/// Pieces, one behind the other.
spec fn run_together(pieces: Seq<Seq<char>>) -> Seq<char>
    decreases pieces.len(),
{
    if pieces.len() == 0 {
        Seq::empty()
    } else {
        pieces[0] + run_together(pieces.drop_first())
    }
}

/// Whether a character can stand in a timestamp.
spec fn is_stamp_char(c: char) -> bool {
    '0' <= c <= '9' || c == '-'
}

/// Pieces of the same lengths are in the order of the first two that differ.
proof fn lemma_run_together_precedes(a: Seq<Seq<char>>, b: Seq<Seq<char>>, at: int)
    requires
        a.len() == b.len(),
        0 <= at < a.len(),
        forall|i: int| 0 <= i < at ==> a[i] == b[i],
        a[at].len() == b[at].len(),
        precedes(a[at], b[at]),
    ensures
        precedes(run_together(a), run_together(b)),
    decreases a.len(),
{
    if at == 0 {
        lemma_precedes_whatever_follows(
            a[0],
            b[0],
            run_together(a.drop_first()),
            run_together(b.drop_first()),
        );
    } else {
        lemma_run_together_precedes(a.drop_first(), b.drop_first(), at - 1);
        lemma_precedes_behind(a[0], run_together(a.drop_first()), run_together(b.drop_first()));
    }
}

/// What holds of every character of the pieces holds of those of the whole.
proof fn lemma_run_together_chars(pieces: Seq<Seq<char>>)
    requires
        forall|i: int, j: int|
            0 <= i < pieces.len() && 0 <= j < pieces[i].len() ==> is_stamp_char(
                #[trigger] pieces[i][j],
            ),
    ensures
        forall|i: int|
            0 <= i < run_together(pieces).len() ==> is_stamp_char(
                #[trigger] run_together(pieces)[i],
            ),
    decreases pieces.len(),
{
    if pieces.len() > 0 {
        let rest = pieces.drop_first();
        assert forall|i: int, j: int| 0 <= i < rest.len() && 0 <= j < rest[i].len() implies is_stamp_char(
            #[trigger] rest[i][j],
        ) by {
            assert(rest[i][j] == pieces[i + 1][j]);
        }
        lemma_run_together_chars(rest);
        assert forall|i: int| 0 <= i < run_together(pieces).len() implies is_stamp_char(
            #[trigger] run_together(pieces)[i],
        ) by {
            if i < pieces[0].len() {
                assert(run_together(pieces)[i] == pieces[0][i]);
            } else {
                assert(run_together(pieces)[i] == run_together(rest)[i - pieces[0].len()]);
            }
        }
    }
}

/// The pieces of a timestamp.
spec fn stamp_pieces(timestamp_micros: u128) -> Seq<Seq<char>> {
    let parts = parts_at(timestamp_micros);
    seq![
        padded(parts.0 as nat, 4),
        padded(parts.1 as nat, 2),
        padded(parts.2 as nat, 2),
        seq!['-'],
        padded(parts.3 as nat, 2),
        padded(parts.4 as nat, 2),
        padded(parts.5 as nat, 2),
        seq!['-'],
        padded(parts.6 as nat, 3),
    ]
}

/// The timestamp of a moment before the year 10000: its pieces, each of its own length.
proof fn lemma_stamp(context: Naming)
    requires
        context.timestamp_micros < 253_402_300_800_000_000,
    ensures
        ({
            let pieces = stamp_pieces(context.timestamp_micros);
            let value = value_of("timestamp"@, context);
            &&& value == run_together(pieces)
            &&& value.len() == 19
            &&& '0' <= value.last() <= '9'
            &&& forall|i: int| 0 <= i < value.len() ==> is_stamp_char(#[trigger] value[i])
            &&& pieces[0].len() == 4
            &&& pieces[1].len() == 2
            &&& pieces[2].len() == 2
            &&& pieces[4].len() == 2
            &&& pieces[5].len() == 2
            &&& pieces[6].len() == 2
            &&& pieces[8].len() == 3
        }),
{
    let moment = context.timestamp_micros;
    lemma_four_digit_year(moment);
    law_every_moment_has_parts(moment);
    let parts = parts_at(moment);
    assert(ten_to(2) == 100 && ten_to(3) == 1_000 && ten_to(4) == 10_000) by {
        reveal_with_fuel(ten_to, 5);
    }
    lemma_padded(parts.0 as nat, 4);
    lemma_padded(parts.1 as nat, 2);
    lemma_padded(parts.2 as nat, 2);
    lemma_padded(parts.3 as nat, 2);
    lemma_padded(parts.4 as nat, 2);
    lemma_padded(parts.5 as nat, 2);
    lemma_padded(parts.6 as nat, 3);
    let pieces = stamp_pieces(moment);
    let value = value_of("timestamp"@, context);
    assert(run_together(pieces) =~= value) by {
        let p1 = pieces.drop_first();
        let p2 = p1.drop_first();
        let p3 = p2.drop_first();
        let p4 = p3.drop_first();
        let p5 = p4.drop_first();
        let p6 = p5.drop_first();
        let p7 = p6.drop_first();
        let p8 = p7.drop_first();
        assert(run_together(p8.drop_first()).len() == 0);
        assert(run_together(p8) =~= pieces[8]);
        assert(run_together(p7) =~= pieces[7] + pieces[8]);
        assert(run_together(p6) =~= pieces[6] + pieces[7] + pieces[8]);
        assert(run_together(p5) =~= pieces[5] + pieces[6] + pieces[7] + pieces[8]);
        assert(run_together(p4) =~= pieces[4] + pieces[5] + pieces[6] + pieces[7] + pieces[8]);
        assert(run_together(p3) =~= pieces[3] + run_together(p4));
        assert(run_together(p2) =~= pieces[2] + run_together(p3));
        assert(run_together(p1) =~= pieces[1] + run_together(p2));
    }
    assert forall|i: int, j: int|
        0 <= i < pieces.len() && 0 <= j < pieces[i].len() implies is_stamp_char(
        #[trigger] pieces[i][j],
    ) by {}
    lemma_run_together_chars(pieces);
    assert(value.last() == pieces[8].last());
}

/// A value that needs no change is kept.
proof fn lemma_sanitized_clean(value: Seq<char>)
    requires
        value.len() <= MAX_FIELD_CHARS,
        forall|i: int| 0 <= i < value.len() ==> is_usable(#[trigger] value[i]),
    ensures
        swept(value) == (value, false),
    decreases value.len(),
{
    if value.len() > 0 {
        lemma_sanitized_clean(value.drop_last());
        assert(value.drop_last().push(value.last()) =~= value);
    } else {
        assert(value =~= Seq::empty());
    }
}

/// The default template is valid, and stands for a fixed text and a timestamp.
pub proof fn lemma_default_template(context: Naming)
    ensures
        template_fault("captastic-{timestamp}"@) is None,
        assembled("captastic-{timestamp}"@, context) == "captastic-"@ + sanitized(
            value_of("timestamp"@, context),
        ),
{
    let template = "captastic-{timestamp}"@;
    reveal_strlit("captastic-{timestamp}");
    reveal_strlit("captastic-");
    reveal_strlit("timestamp");
    lemma_position(template, '{');
    assert(template[10] == '{');
    assert(forall|i: int| 0 <= i < 10 ==> template[i] != '{');
    let after = template.skip(11);
    lemma_position(after, '}');
    assert(after[9] == '}');
    assert(forall|i: int| 0 <= i < 9 ==> after[i] != '}');
    assert(after.take(9) =~= "timestamp"@);
    assert(after.skip(10) =~= Seq::<char>::empty());
    assert(template.take(10) =~= "captastic-"@);
    assert(!template.contains('/'));
    assert(!template.contains('\\'));
    let rest = Seq::<char>::empty();
    assert(assembled(rest, context) == rest);
    assert(token_fault(template, rest, true) is None);
    assert(template_fault(template) == token_fault(template, template, false));
    let whole = assembled(template, context);
    assert(whole =~= "captastic-"@ + sanitized(value_of("timestamp"@, context)));
}

/// The name that the default template gives a capture before the year 10000.
proof fn lemma_default_name(context: Naming)
    requires
        context.timestamp_micros < 253_402_300_800_000_000,
    ensures
        expanded("captastic-{timestamp}"@, context) == "captastic-"@ + run_together(
            stamp_pieces(context.timestamp_micros),
        ),
{
    lemma_default_template(context);
    lemma_stamp(context);
    let value = value_of("timestamp"@, context);
    lemma_sanitized_clean(value);
    reveal_strlit("captastic-");
    let stem = "captastic-"@ + value;
    assert(stem[0] == 'c');
    assert(stem.last() == value.last());
    assert(unpadded_end(unpadded_start(stem)) == stem);
    assert(clipped(stem) == stem);
    assert(!stem.contains('.'));
    lemma_position(stem, '.');
    assert(stem.take(stem.len() as int) =~= stem);
    if is_reserved(stem) {
        lemma_reserved_are_short(lowered(stem));
    }
}

/// The stamps of moments with earlier and later parts, one after the other.
#[verifier::rlimit(40)]
proof fn lemma_stamps_precede(earlier: Naming, later: Naming)
    requires
        earlier.timestamp_micros < 253_402_300_800_000_000,
        later.timestamp_micros < 253_402_300_800_000_000,
        earlier_parts(parts_at(earlier.timestamp_micros), parts_at(later.timestamp_micros)),
    ensures
        precedes(
            run_together(stamp_pieces(earlier.timestamp_micros)),
            run_together(stamp_pieces(later.timestamp_micros)),
        ),
{
    let (s, t) = (earlier.timestamp_micros, later.timestamp_micros);
    lemma_stamp(earlier);
    lemma_stamp(later);
    assert(parts_at(t).0 < ten_to(4) && parts_at(t).6 < ten_to(3)) by {
        lemma_four_digit_year(t);
        law_every_moment_has_parts(t);
        reveal_with_fuel(ten_to, 5);
    }
    assert(parts_at(t).1 < ten_to(2) && parts_at(t).2 < ten_to(2) && parts_at(t).3 < ten_to(2)
        && parts_at(t).4 < ten_to(2) && parts_at(t).5 < ten_to(2)) by {
        law_every_moment_has_parts(t);
        reveal_with_fuel(ten_to, 5);
    }
    assert(parts_at(s).0 >= 0 && parts_at(s).1 >= 0 && parts_at(s).2 >= 0 && parts_at(s).3 >= 0
        && parts_at(s).4 >= 0 && parts_at(s).5 >= 0) by {
        law_every_moment_has_parts(s);
        lemma_four_digit_year(s);
    }
    let (a, b) = (parts_at(s), parts_at(t));
    let (p, q) = (stamp_pieces(s), stamp_pieces(t));
    let at: int = if a.0 < b.0 {
        lemma_padded_precedes(a.0 as nat, b.0 as nat, 4);
        0
    } else if a.1 < b.1 {
        lemma_padded_precedes(a.1 as nat, b.1 as nat, 2);
        1
    } else if a.2 < b.2 {
        lemma_padded_precedes(a.2 as nat, b.2 as nat, 2);
        2
    } else if a.3 < b.3 {
        lemma_padded_precedes(a.3 as nat, b.3 as nat, 2);
        4
    } else if a.4 < b.4 {
        lemma_padded_precedes(a.4 as nat, b.4 as nat, 2);
        5
    } else if a.5 < b.5 {
        lemma_padded_precedes(a.5 as nat, b.5 as nat, 2);
        6
    } else {
        lemma_padded_precedes(a.6 as nat, b.6 as nat, 3);
        8
    };
    lemma_run_together_precedes(p, q, at);
}

/// The names that the default template gives sort by the moment of capture, to the millisecond and
/// up to the year 10000.
pub proof fn law_default_names_sort_by_moment(earlier: Naming, later: Naming)
    requires
        earlier.timestamp_micros / 1_000 < later.timestamp_micros / 1_000,
        later.timestamp_micros < 253_402_300_800_000_000,
    ensures
        precedes(
            expanded("captastic-{timestamp}"@, earlier),
            expanded("captastic-{timestamp}"@, later),
        ),
{
    let (s, t) = (earlier.timestamp_micros, later.timestamp_micros);
    lemma_default_name(earlier);
    lemma_default_name(later);
    law_later_moments_have_later_parts(s, t);
    lemma_stamps_precede(earlier, later);
    lemma_precedes_behind(
        "captastic-"@,
        run_together(stamp_pieces(s)),
        run_together(stamp_pieces(t)),
    );
}

/// Whether a path is a direct child of a directory, without a step upwards on the way.
pub open spec fn inside(directory: Seq<Part>, path: Seq<Part>) -> bool {
    !path.contains(Part::Parent) && FilePath::parent_parts(path) == Some(directory)
}

/// Whether a path is a direct child of a directory. Components are compared, so that a directory
/// whose name merely begins with the other's is not mistaken for it.
pub fn is_inside(directory: &FilePath, path: &FilePath) -> (yes: bool)
    ensures
        yes == inside(directory@, path@),
{
    let mut i: usize = 0;
    while i < path.parts.len()
        invariant
            i <= path.parts@.len(),
            forall|j: int| 0 <= j < i ==> path@[j] != Part::Parent,
        decreases path.parts@.len() - i,
    {
        if let PathPart::Parent = &path.parts[i] {
            proof {
                assert(path@[i as int] == Part::Parent);
            }
            return false;
        }
        i += 1;
    }
    match path.parent() {
        Some(parent) => parent.same(directory),
        None => false,
    }
}

/// Whether a text is one name on every system: not empty, without a separator or a colon, and not
/// one of the two that stand for a directory.
pub open spec fn is_plain_name(name: Seq<char>) -> bool {
    &&& name.len() > 0
    &&& !name.contains('/')
    &&& !name.contains('\\')
    &&& !name.contains(':')
    &&& name != "."@
    &&& name != ".."@
}

/// Whether components are those of a path without a drive: a root or a start first if there is one,
/// then names and steps upwards.
pub open spec fn is_driveless_path(parts: Seq<Part>) -> bool {
    forall|i: int|
        0 <= i < parts.len() ==> match #[trigger] parts[i] {
            Part::Prefix(_) => false,
            Part::Root | Part::Current => i == 0,
            Part::Parent => true,
            Part::Normal(name) => is_plain_name(name),
        }
}

/// Whether a text names a share as a system that has them writes it: two separators, a server, a
/// separator and the share.
pub open spec fn is_share(text: Seq<char>) -> bool {
    &&& text.len() > 2
    &&& is_separator(text[0])
    &&& is_separator(text[1])
    &&& text[2] != '?'
    &&& text[2] != '.'
    &&& exists|at: int|
        #![trigger text[at]]
        2 < at < text.len() - 1 && is_separator(text[at]) && forall|i: int|
            2 <= i < text.len() && i != at ==> !is_separator(#[trigger] text[i])
}

/// Whether a character separates components on some system.
pub open spec fn is_separator(c: char) -> bool {
    c == '/' || c == '\\'
}

/// Whether components are names, steps and at most drives or shares, so that what is joined to them
/// is a further component on every system: a path that is to be taken as it is would resolve a step
/// upwards.
pub open spec fn is_ordinary_path(parts: Seq<Part>) -> bool {
    forall|i: int|
        0 <= i < parts.len() ==> match #[trigger] parts[i] {
            Part::Prefix(text) => is_drive(text) || is_share(text),
            Part::Root | Part::Current | Part::Parent => true,
            Part::Normal(name) => !name.contains('/') && !name.contains('\\'),
        }
}

/// Whether a text names a drive.
pub open spec fn is_drive(text: Seq<char>) -> bool {
    text.len() == 2 && is_ascii_letter(text[0]) && text[1] == ':'
}

/// Whether a character is a letter that a drive can have.
pub open spec fn is_ascii_letter(c: char) -> bool {
    'a' <= c <= 'z' || 'A' <= c <= 'Z'
}

/// Whether a text is a relative path on every system: it starts with no separator, and no drive is
/// named.
pub open spec fn is_relative_text(text: Seq<char>) -> bool {
    &&& text.len() > 0
    &&& text[0] != '/'
    &&& text[0] != '\\'
    &&& !text.contains(':')
}

/// The pieces of a text between the separator that every system has, without those that say nothing.
pub open spec fn steps_of(text: Seq<char>) -> Seq<Seq<char>> {
    split(text, '/').filter(|piece: Seq<char>| piece.len() > 0 && piece != "."@)
}

/// Whether a name is that of a direct child on every system: one step, and not one upwards.
pub open spec fn names_a_child(name: Seq<char>) -> bool {
    &&& is_relative_text(name)
    &&& !name.contains('\\')
    &&& steps_of(name).len() == 1
    &&& steps_of(name)[0] != ".."@
}

/// A piece of a text as a component.
pub open spec fn step_part(piece: Seq<char>) -> Part {
    if piece == ".."@ {
        Part::Parent
    } else {
        Part::Normal(piece)
    }
}

/// A component as text.
fn part_text(part: &PathPart) -> (text: String)
    ensures
        text@ == match part@ {
            Part::Prefix(text) => text,
            Part::Root => "/"@,
            Part::Current => "."@,
            Part::Parent => ".."@,
            Part::Normal(name) => name,
        },
{
    match part {
        PathPart::Prefix(text) => text.clone(),
        PathPart::Root => "/".to_owned(),
        PathPart::Current => ".".to_owned(),
        PathPart::Parent => "..".to_owned(),
        PathPart::Normal(name) => name.clone(),
    }
}

/// `std::path::Path::join`, between the components of its arguments and those of its result. The
/// slash separates components on every host, a component `.` is dropped behind the first, and `..`
/// is kept. So a relative text adds a component for each of its pieces behind the directory, as far
/// as the directory is one component behind the other. Of any ordinary directory, a single piece is
/// the last component, a piece `..` leads to such a component, and two pieces or more lead deeper
/// than one name. What a text with a colon, or a separator at its start, means depends on the host,
/// as what a backslash separates; nothing is claimed of it.
#[verifier::external_body]
fn host_join(directory: &FilePath, name: &str) -> (path: FilePath)
    ensures
        is_driveless_path(directory@) && directory@.len() > 0 && is_relative_text(name@)
            && !name@.contains('\\') ==> path@ == directory@ + steps_of(name@).map_values(
            |piece: Seq<char>| step_part(piece),
        ),
        is_ordinary_path(directory@) && names_a_child(name@) ==> path@.len() > 0 && path@.last()
            == Part::Normal(steps_of(name@)[0]),
        is_ordinary_path(directory@) && is_relative_text(name@) && steps_of(name@).contains(".."@)
            ==> path@.contains(Part::Parent),
        is_ordinary_path(directory@) && is_relative_text(name@) && !name@.contains('\\')
            && steps_of(name@).len() >= 2 && !steps_of(name@).contains(".."@)
            ==> FilePath::parent_parts(path@) != Some(directory@),
{
    let base: std::path::PathBuf = directory.parts.iter().map(part_text).collect();
    let convert = |part: std::path::Component<'_>| match part {
        std::path::Component::Prefix(text) => PathPart::Prefix(text.as_os_str().to_string_lossy().into_owned()),
        std::path::Component::RootDir => PathPart::Root,
        std::path::Component::CurDir => PathPart::Current,
        std::path::Component::ParentDir => PathPart::Parent,
        std::path::Component::Normal(name) => PathPart::Normal(name.to_string_lossy().into_owned()),
    };
    FilePath { parts: base.join(name).components().map(convert).collect() }
}

/// Lets a candidate through if it is a direct child of the directory it was meant for.
pub fn resolve_candidate(directory: &FilePath, candidate: FilePath) -> (path: Option<FilePath>)
    ensures
        path == if inside(directory@, candidate@) {
            Some(candidate)
        } else {
            None
        },
{
    if is_inside(directory, &candidate) {
        Some(candidate)
    } else {
        None
    }
}

/// Whether a name surely leads elsewhere than into its directory: it steps upwards, or through
/// another directory.
pub open spec fn leads_elsewhere(name: Seq<char>) -> bool {
    &&& is_relative_text(name)
    &&& {
        ||| steps_of(name).contains(".."@)
        ||| !name.contains('\\') && steps_of(name).len() >= 2
    }
}

/// What a name is resolved to in a directory, where it means the same on every system: the file of
/// its only step, unless a step upwards is written somewhere.
pub open spec fn resolved_in(directory: Seq<Part>, name: Seq<char>) -> Option<Seq<Part>> {
    let steps = steps_of(name);
    if !directory.contains(Part::Parent) && steps.len() == 1 && steps[0] != ".."@ {
        Some(directory.push(Part::Normal(steps[0])))
    } else {
        None
    }
}

/// Whether a name means the same on every system: it is one name, or a relative path in a directory
/// that is one component behind the other.
pub open spec fn is_portable(directory: Seq<Part>, name: Seq<char>) -> bool {
    ||| is_plain_name(name)
    ||| is_driveless_path(directory) && directory.len() > 0 && is_relative_text(name)
        && !name.contains('\\')
}

/// Whether `path` is what a name may be resolved to in a directory: a direct child of it, and that
/// of the name wherever the name means the same on every system. A name that surely leads elsewhere
/// is resolved to nothing.
pub open spec fn is_resolution(
    directory: Seq<Part>,
    name: Seq<char>,
    path: Option<Seq<Part>>,
) -> bool {
    &&& path matches Some(parts) ==> inside(directory, parts)
    &&& is_portable(directory, name) ==> path == resolved_in(directory, name)
    &&& is_ordinary_path(directory) && names_a_child(name) ==> (path matches Some(parts) ==> parts
        == directory.push(Part::Normal(steps_of(name)[0])))
    &&& is_ordinary_path(directory) && leads_elsewhere(name) ==> path is None
}

/// A plain name is its own only step.
pub proof fn lemma_plain_step(name: Seq<char>)
    requires
        is_plain_name(name),
    ensures
        steps_of(name) == seq![name],
{
    lemma_split_single(name, '/');
    let says = |piece: Seq<char>| piece.len() > 0 && piece != "."@;
    let pieces = seq![name];
    reveal_with_fuel(Seq::filter, 2);
    assert(pieces.drop_last() =~= Seq::<Seq<char>>::empty());
    assert(pieces.filter(says) =~= seq![name]);
}

/// Whether a text is one name on every system.
fn plain_name(name: &str) -> (plain: bool)
    ensures
        plain == is_plain_name(name@),
{
    proof {
        reveal_strlit("");
        assert(name@.len() == 0 ==> name@ =~= ""@);
    }
    !same(name, "") && !contains_char(name, '/') && !contains_char(name, '\\') && !contains_char(
        name,
        ':',
    ) && !same(name, ".") && !same(name, "..")
}

/// The path of a capture in its directory, or nothing where it would be looked for elsewhere. One
/// name is joined to the directory as it is; what anything else means, the host says.
pub fn resolve(directory: &FilePath, stem: &str, extension: &str) -> (path: Option<FilePath>)
    ensures
        is_resolution(directory@, stem@ + "."@ + extension@, parts_of(path)),
{
    let mut name = stem.to_owned();
    name.append(".");
    name.append(extension);
    let plain = plain_name(name.as_str());
    let candidate = if plain {
        directory.join(name.as_str())
    } else {
        host_join(directory, name.as_str())
    };
    proof {
        let text = name@;
        let steps = steps_of(text);
        reveal_strlit("..");
        if plain {
            lemma_plain_step(text);
            assert(steps[0] == text);
            assert(candidate@.drop_last() =~= directory@);
            assert(candidate@.contains(Part::Parent) == directory@.contains(Part::Parent)) by {
                if directory@.contains(Part::Parent) {
                    let i = choose|i: int| 0 <= i < directory@.len() && directory@[i] == Part::Parent;
                    assert(candidate@[i] == Part::Parent);
                }
            }
        } else if is_portable(directory@, text) {
            let added = steps.map_values(|piece: Seq<char>| step_part(piece));
            assert(candidate@ =~= directory@ + added);
            assert forall|i: int| 0 <= i < directory@.len() implies candidate@[i] == directory@[i] by {}
            assert(directory@.contains(Part::Parent) ==> candidate@.contains(Part::Parent));
            if steps.len() == 1 && steps[0] != ".."@ {
                let child = directory@.push(Part::Normal(steps[0]));
                assert(candidate@ =~= child);
                assert(child.drop_last() =~= directory@);
            } else if added.len() == 1 {
                assert(candidate@[directory@.len() as int] == Part::Parent);
            } else {
                assert(candidate@.drop_last().len() != directory@.len());
            }
        }
        if inside(directory@, candidate@) {
            assert(candidate@ =~= directory@.push(candidate@.last()));
        }
    }
    resolve_candidate(directory, candidate)
}

/// Whether a character is one of those that a name must not hold: a control character, white space,
/// a dot, a brace, or one that a filesystem forbids or takes for a separator.
pub open spec fn is_unfit(c: char) -> bool {
    ||| c < ' '
    ||| '\u{7f}' <= c <= '\u{9f}'
    ||| c == ' '
    ||| c == '\u{a0}'
    ||| c == '\u{1680}'
    ||| '\u{2000}' <= c <= '\u{200a}'
    ||| c == '\u{2028}'
    ||| c == '\u{2029}'
    ||| c == '\u{202f}'
    ||| c == '\u{205f}'
    ||| c == '\u{3000}'
    ||| c == '.'
    ||| c == '{'
    ||| c == '}'
    ||| c == '<'
    ||| c == '>'
    ||| c == ':'
    ||| c == '"'
    ||| c == '/'
    ||| c == '\\'
    ||| c == '|'
    ||| c == '?'
    ||| c == '*'
}

/// Whether a text holds nothing that a name must not hold, whatever alphabet it is written in.
pub open spec fn is_fit(value: Seq<char>) -> bool {
    forall|i: int| 0 <= i < value.len() ==> !is_unfit(#[trigger] value[i])
}

/// Whether a text holds nothing but what a name must not hold.
pub open spec fn is_all_unfit(value: Seq<char>) -> bool {
    forall|i: int| 0 <= i < value.len() ==> is_unfit(#[trigger] value[i])
}

/// What sweeping a value that goes on with fit characters comes to, where nothing waits for a
/// separator.
proof fn lemma_swept_fit(before: Seq<char>, value: Seq<char>)
    requires
        is_fit(value),
        !swept(before).1 || swept(before).0.len() == 0,
    ensures
        swept(before + value).0 == swept(before).0 + value.take(
            if swept(before).0.len() + value.len() <= MAX_FIELD_CHARS {
                value.len() as int
            } else if swept(before).0.len() >= MAX_FIELD_CHARS {
                0
            } else {
                MAX_FIELD_CHARS - swept(before).0.len()
            },
        ),
        value.len() > 0 ==> !swept(before + value).1,
    decreases value.len(),
{
    lemma_sanitized(before);
    if value.len() > 0 {
        let front = value.drop_last();
        lemma_swept_fit(before, front);
        assert((before + value).drop_last() =~= before + front);
        assert(!is_unfit(value[value.len() - 1]));
        assert(is_usable(value.last()));
        lemma_sanitized(before + value);
        assert(swept(before + value).0 =~= swept(before).0 + value.take(
            if swept(before).0.len() + value.len() <= MAX_FIELD_CHARS {
                value.len() as int
            } else {
                MAX_FIELD_CHARS - swept(before).0.len()
            },
        ));
    } else {
        assert(before + value =~= before);
        assert(swept(before).0 + value.take(0) =~= swept(before).0);
    }
}

/// What sweeping a value that goes on with unfit characters comes to.
proof fn lemma_swept_unfit(before: Seq<char>, value: Seq<char>)
    requires
        is_all_unfit(value),
    ensures
        swept(before + value).0 == swept(before).0,
        value.len() > 0 && swept(before).0.len() < MAX_FIELD_CHARS ==> swept(before + value).1,
    decreases value.len(),
{
    if value.len() > 0 {
        let front = value.drop_last();
        lemma_swept_unfit(before, front);
        assert((before + value).drop_last() =~= before + front);
        assert(is_unfit(value[value.len() - 1]));
        assert(!is_usable(value.last()));
    } else {
        assert(before + value =~= before);
    }
}

/// A value that holds nothing that a name must not hold is substituted unchanged, in whatever
/// alphabet it is written, up to the length of a field.
pub proof fn law_fit_values_are_kept(value: Seq<char>)
    requires
        is_fit(value),
    ensures
        value.len() <= 64 ==> sanitized(value) == value,
        value.len() > 64 ==> sanitized(value) == value.take(64),
{
    let nothing = Seq::<char>::empty();
    lemma_swept_fit(nothing, value);
    assert(nothing + value =~= value);
    assert(value.take(value.len() as int) =~= value);
    assert(swept(nothing).0 + value.take(
        if value.len() <= 64 {
            value.len() as int
        } else {
            64
        },
    ) =~= value.take(
        if value.len() <= 64 {
            value.len() as int
        } else {
            64
        },
    ));
}

/// What a name must not hold separates what it may: a run of it between two stretches becomes one
/// hyphen, and at either end of a value it becomes nothing.
pub proof fn law_unfit_characters_become_one_hyphen(
    lead: Seq<char>,
    first: Seq<char>,
    run: Seq<char>,
    second: Seq<char>,
    end: Seq<char>,
)
    requires
        is_all_unfit(lead),
        is_fit(first),
        is_all_unfit(run),
        is_fit(second),
        is_all_unfit(end),
        first.len() > 0,
        run.len() > 0,
        second.len() > 0,
        first.len() + 1 + second.len() <= 64,
    ensures
        sanitized(lead + first + run + second + end) == first + seq!['-'] + second,
        sanitized(lead + first + end) == first,
        sanitized(lead) == Seq::<char>::empty(),
{
    let nothing = Seq::<char>::empty();
    lemma_swept_unfit(nothing, lead);
    assert(nothing + lead =~= lead);
    lemma_swept_fit(lead, first);
    assert(first.take(first.len() as int) =~= first);
    assert(swept(lead).0 + first =~= first);
    assert(swept(lead + first).0 == first);
    lemma_swept_unfit(lead + first, end);
    lemma_swept_unfit(lead + first, run);
    let start = lead + first + run;
    assert(swept(start).0 == first && swept(start).1);
    let one = second.take(1);
    assert(start + one =~= start.push(second[0]));
    assert((start + one).drop_last() =~= start);
    assert(!is_unfit(second[0]));
    assert(is_usable(second[0]));
    assert(swept(start + one) == (first.push('-').push(second[0]), false));
    let rest = second.skip(1);
    assert(is_fit(rest)) by {
        assert forall|i: int| 0 <= i < rest.len() implies !is_unfit(#[trigger] rest[i]) by {
            assert(rest[i] == second[i + 1]);
        }
    }
    lemma_swept_fit(start + one, rest);
    assert(start + one + rest =~= start + second);
    assert(rest.take(rest.len() as int) =~= rest);
    assert(first.push('-').push(second[0]) + rest =~= first + seq!['-'] + second);
    lemma_swept_unfit(start + second, end);
}

/// A template up to its first token, the token, and the rest.
pub open spec fn with_token(before: Seq<char>, token: Seq<char>, rest: Seq<char>) -> Seq<char> {
    before + seq!['{'] + token + seq!['}'] + rest
}

/// Where the first token of a template stands.
proof fn lemma_first_token(before: Seq<char>, token: Seq<char>, rest: Seq<char>)
    requires
        !before.contains('{'),
        !token.contains('}'),
    ensures
        ({
            let template = with_token(before, token, rest);
            let open = position(template, '{');
            let after = template.skip(open + 1);
            let close = position(after, '}');
            &&& open == before.len()
            &&& template.take(open) == before
            &&& close == token.len()
            &&& after.take(close) == token
            &&& after.skip(close + 1) == rest
            &&& open < template.len()
            &&& close < after.len()
        }),
{
    let template = with_token(before, token, rest);
    let open = position(template, '{');
    lemma_position(template, '{');
    assert(template[before.len() as int] == '{');
    assert forall|i: int| 0 <= i < before.len() implies template[i] != '{' by {
        assert(template[i] == before[i]);
    }
    assert(template.contains('{'));
    assert(open == before.len());
    assert(template.take(open) =~= before);
    let after = template.skip(open + 1);
    assert(after =~= token + seq!['}'] + rest);
    lemma_position(after, '}');
    assert(after[token.len() as int] == '}');
    assert forall|i: int| 0 <= i < token.len() implies after[i] != '}' by {
        assert(after[i] == token[i]);
    }
    assert(after.contains('}'));
    let close = position(after, '}');
    assert(close == token.len());
    assert(after.take(close) =~= token);
    assert(after.skip(close + 1) =~= rest);
}

/// The tokens of a template are replaced one after the other by what the capture is named by, and
/// the text between them stays: the display, the mode, the application and the title as they are
/// called, and the width and the height by the digits that say them.
#[verifier::rlimit(40)]
pub proof fn law_tokens_stand_for_what_they_name(before: Seq<char>, rest: Seq<char>, context: Naming)
    requires
        !before.contains('{'),
    ensures
        assembled(before, context) == before,
        assembled(with_token(before, "display"@, rest), context) == before + sanitized(
            context.display,
        ) + assembled(rest, context),
        assembled(with_token(before, "mode"@, rest), context) == before + sanitized(context.mode)
            + assembled(rest, context),
        assembled(with_token(before, "application"@, rest), context) == before + sanitized(
            context.application,
        ) + assembled(rest, context),
        assembled(with_token(before, "title"@, rest), context) == before + sanitized(context.title)
            + assembled(rest, context),
        exists|digits: Seq<char>|
            number_in(digits) == context.width && assembled(
                with_token(before, "width"@, rest),
                context,
            ) == #[trigger] (before + digits + assembled(rest, context)),
        exists|digits: Seq<char>|
            number_in(digits) == context.height && assembled(
                with_token(before, "height"@, rest),
                context,
            ) == #[trigger] (before + digits + assembled(rest, context)),
{
    reveal_strlit("timestamp");
    reveal_strlit("date");
    reveal_strlit("time");
    reveal_strlit("display");
    reveal_strlit("mode");
    reveal_strlit("width");
    reveal_strlit("height");
    reveal_strlit("application");
    reveal_strlit("title");
    lemma_position(before, '{');
    lemma_first_token(before, "display"@, rest);
    lemma_first_token(before, "mode"@, rest);
    lemma_first_token(before, "application"@, rest);
    lemma_first_token(before, "title"@, rest);
    lemma_first_token(before, "width"@, rest);
    lemma_first_token(before, "height"@, rest);
    assert("display"@[0] == 'd' && "date"@[1] == 'a' && "display"@[1] == 'i');
    assert("time"@[1] == 'i' && "title"@.len() == 5 && "time"@.len() == 4 && "mode"@[0] == 'm');
    assert("width"@[0] == 'w' && "height"@[0] == 'h' && "application"@[0] == 'a');
    assert("timestamp"@.len() == 9 && "title"@[2] == 't');
    lemma_number_is_kept(context.width as nat);
    lemma_number_is_kept(context.height as nat);
    let (w, h) = (decimal(context.width as nat), decimal(context.height as nat));
    assert(assembled(with_token(before, "width"@, rest), context) == before + w + assembled(
        rest,
        context,
    ));
    assert(assembled(with_token(before, "height"@, rest), context) == before + h + assembled(
        rest,
        context,
    ));
}

/// The digits of a number are substituted as they are.
proof fn lemma_number_is_kept(n: nat)
    requires
        n <= u32::MAX,
    ensures
        sanitized(decimal(n)) == decimal(n),
        number_in(decimal(n)) == n,
{
    law_decimals_read_back(n);
    assert(ten_to(10) == 10_000_000_000) by {
        reveal_with_fuel(ten_to, 11);
    }
    lemma_decimal_length(n, 10);
    assert(is_fit(decimal(n)));
    law_fit_values_are_kept(decimal(n));
}

/// A number below a power of ten has no more digits than that power has zeros.
proof fn lemma_decimal_length(n: nat, width: nat)
    requires
        width > 0,
        n < ten_to(width),
    ensures
        decimal(n).len() <= width,
    decreases width,
{
    reveal_with_fuel(ten_to, 2);
    if n >= 10 {
        if width > 1 {
            assert(ten_to(width) == 10 * ten_to((width - 1) as nat));
            lemma_decimal_length(n / 10, (width - 1) as nat);
        }
    }
}

/// A date in a template is the year, the month and the day of the capture in eight digits, a time
/// its hour, minute and second in six and behind a hyphen its milliseconds in three, and a timestamp
/// both with a hyphen between them.
pub proof fn law_dates_and_times_are_those_of_the_capture(
    before: Seq<char>,
    rest: Seq<char>,
    context: Naming,
)
    requires
        !before.contains('{'),
        context.timestamp_micros < 253_402_300_800_000_000,
    ensures
        exists|date: Seq<char>, time: Seq<char>, millis: Seq<char>|
            {
                let (year, month, day, hour, minute, second, ms) = parts_at(
                    context.timestamp_micros,
                );
                &&& date.len() == 8
                &&& number_in(date) == year * 10_000 + month * 100 + day
                &&& time.len() == 6
                &&& number_in(time) == hour * 10_000 + minute * 100 + second
                &&& millis.len() == 3
                &&& number_in(millis) == ms
                &&& assembled(with_token(before, "date"@, rest), context) == before + date
                    + assembled(rest, context)
                &&& assembled(with_token(before, "time"@, rest), context) == before + (time
                    + seq!['-'] + millis) + assembled(rest, context)
                &&& assembled(with_token(before, "timestamp"@, rest), context) == #[trigger] (before
                    + (date + seq!['-'] + time + seq!['-'] + millis) + assembled(rest, context))
            },
{
    reveal_strlit("timestamp");
    reveal_strlit("date");
    reveal_strlit("time");
    lemma_first_token(before, "date"@, rest);
    lemma_first_token(before, "time"@, rest);
    lemma_first_token(before, "timestamp"@, rest);
    let moment = context.timestamp_micros;
    let (year, month, day, hour, minute, second, ms) = parts_at(moment);
    law_every_moment_has_parts(moment);
    lemma_four_digit_year(moment);
    assert(ten_to(2) == 100 && ten_to(3) == 1_000 && ten_to(4) == 10_000) by {
        reveal_with_fuel(ten_to, 5);
    }
    lemma_padded_reads(year as nat, 4);
    lemma_padded_reads(month as nat, 2);
    lemma_padded_reads(day as nat, 2);
    lemma_padded_reads(hour as nat, 2);
    lemma_padded_reads(minute as nat, 2);
    lemma_padded_reads(second as nat, 2);
    lemma_padded_reads(ms as nat, 3);
    let (y, m, d) = (padded(year as nat, 4), padded(month as nat, 2), padded(day as nat, 2));
    let (h, n, s) = (padded(hour as nat, 2), padded(minute as nat, 2), padded(second as nat, 2));
    let millis = padded(ms as nat, 3);
    let date = y + m + d;
    let time = h + n + s;
    lemma_numbers_run_together(y, m);
    lemma_numbers_run_together(y + m, d);
    lemma_numbers_run_together(h, n);
    lemma_numbers_run_together(h + n, s);
    let hyphen = seq!['-'];
    let whole = date + hyphen + time + hyphen + millis;
    assert(value_of("date"@, context) == date);
    assert(value_of("time"@, context) =~= time + hyphen + millis);
    assert(value_of("timestamp"@, context) =~= whole);
    assert(is_fit(date));
    assert(is_fit(time + hyphen + millis));
    assert(is_fit(whole));
    law_fit_values_are_kept(date);
    law_fit_values_are_kept(time + hyphen + millis);
    law_fit_values_are_kept(whole);
    assert(assembled(with_token(before, "timestamp"@, rest), context) == before + (date + seq!['-']
        + time + seq!['-'] + millis) + assembled(rest, context));
}

/// A short number led by zeros is of its width and says itself.
proof fn lemma_padded_reads(n: nat, width: nat)
    requires
        width > 0,
        n < ten_to(width),
    ensures
        padded(n, width).len() == width,
        number_in(padded(n, width)) == n,
        forall|i: int|
            0 <= i < padded(n, width).len() ==> '0' <= #[trigger] padded(n, width)[i] <= '9',
{
    law_padded_numbers_read_back(n, width);
    lemma_decimal_length(n, width);
}

/// Two digits behind others say a hundred times the others and themselves.
proof fn lemma_numbers_run_together(a: Seq<char>, b: Seq<char>)
    requires
        b.len() == 2,
    ensures
        number_in(a + b) == 100 * number_in(a) + number_in(b),
{
    let c = a + b;
    reveal_with_fuel(number_in, 3);
    assert(c.drop_last().drop_last() =~= a);
    assert(b.drop_last().drop_last() =~= Seq::<char>::empty());
    assert(c.drop_last().last() == b.drop_last().last());
    assert(number_in(c) == number_in(c.drop_last()) * 10 + (c.last() as int - '0' as int));
}

/// Whether a stem is reserved for a device, in whatever case: its part before the first dot, of
/// which `lead` are the characters in small letters.
pub open spec fn names_a_device(lead: Seq<char>) -> bool {
    ||| lead == seq!['c', 'o', 'n']
    ||| lead == seq!['p', 'r', 'n']
    ||| lead == seq!['a', 'u', 'x']
    ||| lead == seq!['n', 'u', 'l']
    ||| lead.len() == 4 && lead[0] == 'c' && lead[1] == 'o' && lead[2] == 'm' && '1' <= lead[3] <= '9'
    ||| lead.len() == 4 && lead[0] == 'l' && lead[1] == 'p' && lead[2] == 't' && '1' <= lead[3] <= '9'
}

/// The reserved names are those of devices.
proof fn lemma_reserved_names(name: Seq<char>)
    ensures
        reserved_stems().contains(name) <==> names_a_device(name),
{
    reveal_strlit("con");
    reveal_strlit("prn");
    reveal_strlit("aux");
    reveal_strlit("nul");
    reveal_strlit("com1");
    reveal_strlit("com2");
    reveal_strlit("com3");
    reveal_strlit("com4");
    reveal_strlit("com5");
    reveal_strlit("com6");
    reveal_strlit("com7");
    reveal_strlit("com8");
    reveal_strlit("com9");
    reveal_strlit("lpt1");
    reveal_strlit("lpt2");
    reveal_strlit("lpt3");
    reveal_strlit("lpt4");
    reveal_strlit("lpt5");
    reveal_strlit("lpt6");
    reveal_strlit("lpt7");
    reveal_strlit("lpt8");
    reveal_strlit("lpt9");
    let all = reserved_stems();
    assert(all[0] =~= seq!['c', 'o', 'n'] && all[1] =~= seq!['p', 'r', 'n']);
    assert(all[2] =~= seq!['a', 'u', 'x'] && all[3] =~= seq!['n', 'u', 'l']);
    if names_a_device(name) {
        if name.len() == 4 {
            let n = name[3] as int - '0' as int;
            let i = if name[0] == 'c' {
                3 + n
            } else {
                12 + n
            };
            assert(1 <= n <= 9);
            assert(all[i].len() == 4);
            assert(all[i] =~= name);
        } else if name.len() == 3 {
            let i = if name[0] == 'c' {
                0
            } else if name[0] == 'p' {
                1
            } else if name[0] == 'a' {
                2int
            } else {
                3
            };
            assert(all[i] =~= name);
        }
    }
}

/// A stem that can be a name as it is stays as it is: no longer than a stem may be, with a hyphen or
/// white space at neither end, with no dot at its end, and not reserved for a device.
pub proof fn law_usable_stems_are_kept(stem: Seq<char>, dot: int)
    requires
        0 < stem.len() <= 120,
        stem[0] != '-' && !is_whitespace(stem[0]),
        stem.last() != '-' && !is_whitespace(stem.last()) && stem.last() != '.',
        0 <= dot <= stem.len(),
        dot < stem.len() ==> stem[dot] == '.',
        forall|i: int| 0 <= i < dot ==> stem[i] != '.',
        !names_a_device(lowered(stem.take(dot))),
    ensures
        finalized(stem) == stem,
{
    lemma_position(stem, '.');
    if position(stem, '.') < dot {
        assert(stem[position(stem, '.')] != '.');
    }
    assert(position(stem, '.') == dot) by {
        if dot < stem.len() {
            assert(stem.contains('.'));
        } else if stem.contains('.') {
            let i = choose|i: int| 0 <= i < stem.len() && stem[i] == '.';
            assert(stem[i] != '.');
        }
    }
    lemma_reserved_names(lowered(stem.take(dot)));
    assert(unpadded_start(stem) == stem);
    assert(unpadded_end(stem) == stem);
    assert(bounded(stem) == stem);
    assert(undotted(stem) == stem);
}

/// A stem that is reserved for a device is marked behind the reserved part; whatever a stem holds, no
/// device's name is given to a file.
pub proof fn law_devices_are_never_named(stem: Seq<char>, dot: int)
    requires
        0 <= dot <= finalized(stem).len(),
        dot < finalized(stem).len() ==> finalized(stem)[dot] == '.',
        forall|i: int| 0 <= i < dot ==> finalized(stem)[i] != '.',
    ensures
        !names_a_device(lowered(finalized(stem).take(dot))),
        names_a_device(lowered(stem)) ==> finalized(stem) == stem + "-capture"@,
{
    let out = finalized(stem);
    law_reserved_names_are_defused(stem);
    lemma_position(out, '.');
    assert(position(out, '.') == dot) by {
        if position(out, '.') < dot {
            assert(out[position(out, '.')] != '.');
        }
        if dot < out.len() {
            assert(out.contains('.'));
        }
    }
    lemma_reserved_names(lowered(out.take(dot)));
    if names_a_device(lowered(stem)) {
        let low = lowered(stem);
        assert(low.len() == stem.len());
        assert forall|i: int| 0 <= i < stem.len() implies stem[i] != '.' && stem[i] != '-' && stem[i]
            != ' ' && !is_whitespace(stem[i]) by {
            assert(low[i] == ascii_lower(stem[i]));
        }
        lemma_position(stem, '.');
        if stem.contains('.') {
            let i = choose|i: int| 0 <= i < stem.len() && stem[i] == '.';
            assert(stem[i] != '.');
        }
        assert(unpadded_start(stem) == stem);
        assert(unpadded_end(stem) == stem);
        assert(bounded(stem) == stem);
        assert(undotted(stem) == stem);
        assert(stem.take(stem.len() as int) =~= stem);
        lemma_reserved_names(low);
        reveal_strlit("-capture");
        let longer = marked(stem);
        assert(longer =~= stem + "-capture"@);
        assert(longer.last() == "-capture"@[7]);
        assert(bounded(longer) == longer);
        assert(undotted(longer) == longer);
    }
}

/// A name that expands to nothing but what is cut off is `capture`.
pub proof fn law_nothing_usable_is_called_capture(stem: Seq<char>)
    requires
        forall|i: int| 0 <= i < stem.len() ==> #[trigger] stem[i] == '-' || is_whitespace(stem[i]),
    ensures
        finalized(stem) == "capture"@,
    decreases stem.len(),
{
    if stem.len() > 0 {
        let rest = stem.drop_first();
        assert forall|i: int| 0 <= i < rest.len() implies #[trigger] rest[i] == '-' || is_whitespace(
            rest[i],
        ) by {
            assert(rest[i] == stem[i + 1]);
        }
        law_nothing_usable_is_called_capture(rest);
        assert(unpadded_start(stem) == unpadded_start(rest));
    }
}

/// A template is accepted with a known token in it and refused with any other, and refused without a
/// token.
pub proof fn law_templates_are_accepted_for_their_tokens(
    before: Seq<char>,
    token: Seq<char>,
    rest: Seq<char>,
)
    requires
        is_plain_text(before),
        is_plain_text(rest),
        !token.contains('}'),
        !token.contains('/'),
        !token.contains('\\'),
    ensures
        template_fault(before) is Some,
        template_fault(with_token(before, token, rest)) is None <==> token == "timestamp"@ || token
            == "date"@ || token == "time"@ || token == "display"@ || token == "mode"@ || token
            == "width"@ || token == "height"@ || token == "application"@ || token == "title"@,
{
    lemma_first_token(before, token, rest);
    let template = with_token(before, token, rest);
    lemma_position(before, '{');
    lemma_position(rest, '{');
    assert(template[before.len() as int] == '{');
    let from = law_trimming_takes_white_space_off(template);
    assert(!is_whitespace('{'));
    assert(trimmed(template).len() > 0);
    assert forall|c: char| c == '/' || c == '\\' implies !template.contains(c) by {
        if template.contains(c) {
            let i = choose|i: int| 0 <= i < template.len() && template[i] == c;
            let (b, k) = (before.len() as int, token.len() as int);
            if i < b {
                assert(before[i] == c);
            } else if b < i < b + 1 + k {
                assert(token[i - b - 1] == c);
            } else if i > b + 1 + k {
                assert(rest[i - b - k - 2] == c);
            }
        }
    }
    assert(token_fault(template, rest, true) is None);
}

/// Whether a text holds neither a brace nor a path separator.
pub open spec fn is_plain_text(s: Seq<char>) -> bool {
    !s.contains('{') && !s.contains('}') && !s.contains('/') && !s.contains('\\')
}

/// A template with a path separator is refused.
pub proof fn law_templates_name_no_path(template: Seq<char>)
    requires
        template.contains('/') || template.contains('\\'),
    ensures
        template_fault(template) is Some,
{
}

/// What a name is resolved to is its directory and one component behind it, and no step upwards is in
/// it. A name without a separator or a colon that stands for no directory is resolved to the file of that
/// name, wherever no step upwards is written in the directory.
pub proof fn law_captures_stay_in_their_directory(
    directory: Seq<Part>,
    name: Seq<char>,
    path: Option<Seq<Part>>,
)
    requires
        is_resolution(directory, name, path),
    ensures
        path matches Some(parts) ==> parts.len() == directory.len() + 1 && parts.take(
            directory.len() as int,
        ) == directory && !parts.contains(Part::Parent),
        name.len() > 0 && !name.contains('/') && !name.contains('\\') && !name.contains(':') && name
            != "."@ && name != ".."@ && !directory.contains(Part::Parent) ==> path == Some(
            directory.push(Part::Normal(name)),
        ),
{
    if let Some(parts) = path {
        assert(parts.take(directory.len() as int) =~= parts.drop_last());
    }
    if is_plain_name(name) {
        lemma_plain_step(name);
    }
}

/// Whether components are a drive or a root, names without separators, and steps.
pub open spec fn is_written_out(directory: Seq<Part>) -> bool {
    forall|i: int|
        0 <= i < directory.len() ==> match #[trigger] directory[i] {
            Part::Prefix(text) => text.len() == 2 && ('a' <= text[0] <= 'z' || 'A' <= text[0] <= 'Z')
                && text[1] == ':',
            Part::Root | Part::Current | Part::Parent => true,
            Part::Normal(name) => forall|k: int|
                0 <= k < name.len() ==> #[trigger] name[k] != '/' && name[k] != '\\',
        }
}

/// A name that leads through another directory, or upwards, is resolved to nothing.
pub proof fn law_names_that_lead_elsewhere_are_refused(
    directory: Seq<Part>,
    first: Seq<char>,
    second: Seq<char>,
    path: Option<Seq<Part>>,
)
    requires
        is_written_out(directory),
        is_plain_name(first) || first == ".."@,
        is_plain_name(second),
        is_resolution(directory, first.push('/') + second, path),
    ensures
        path is None,
{
    reveal_strlit("..");
    reveal_strlit(".");
    let name = first.push('/') + second;
    lemma_two_steps(first, second);
    assert(steps_of(name)[0] == first);
    assert forall|c: char| c == '\\' || c == ':' implies !#[trigger] name.contains(c) by {
        if name.contains(c) {
            let i = choose|i: int| 0 <= i < name.len() && name[i] == c;
            if i < first.len() {
                assert(first[i] == c);
                assert(first.contains(c));
            } else if i > first.len() {
                assert(second[i - first.len() - 1] == c);
                assert(second.contains(c));
            }
        }
    }
    assert(name[0] == first[0]);
    assert(first[0] != '/' && first[0] != '\\') by {
        if is_plain_name(first) {
            assert(first.contains(first[0]));
        }
    }
    assert(is_ordinary_path(directory)) by {
        assert forall|i: int| 0 <= i < directory.len() implies match #[trigger] directory[i] {
            Part::Prefix(text) => is_drive(text) || is_share(text),
            Part::Root | Part::Current | Part::Parent => true,
            Part::Normal(name) => !name.contains('/') && !name.contains('\\'),
        } by {}
    }
}

/// Two pieces with a slash between them are two steps.
proof fn lemma_two_steps(first: Seq<char>, second: Seq<char>)
    requires
        is_plain_name(first) || first == ".."@,
        is_plain_name(second),
    ensures
        steps_of(first.push('/') + second) == seq![first, second],
{
    reveal_strlit("..");
    reveal_strlit(".");
    assert(".."@.len() == 2 && "."@.len() == 1);
    assert(!first.contains('/'));
    lemma_split_single(first, '/');
    lemma_split_append(first, '/', second);
    let says = |piece: Seq<char>| piece.len() > 0 && piece != "."@;
    let pieces = seq![first].push(second);
    reveal_with_fuel(Seq::filter, 3);
    assert(pieces.drop_last() =~= seq![first]);
    assert(seq![first].drop_last() =~= Seq::<Seq<char>>::empty());
    assert(pieces.filter(says) =~= seq![first, second]);
}

/// A step that says nothing leads nowhere: behind a directory of names, the name behind it is found
/// there.
pub proof fn law_a_step_in_place_leads_nowhere(
    directory: Seq<Part>,
    name: Seq<char>,
    path: Option<Seq<Part>>,
)
    requires
        directory.len() > 0,
        forall|i: int|
            0 <= i < directory.len() ==> (#[trigger] directory[i] matches Part::Normal(part)
                && is_plain_name(part)) || i == 0 && directory[i] is Root,
        is_plain_name(name),
        is_resolution(directory, "."@.push('/') + name, path),
    ensures
        path == Some(directory.push(Part::Normal(name))),
{
    reveal_strlit("..");
    reveal_strlit(".");
    let text = "."@.push('/') + name;
    assert(!"."@.contains('/'));
    lemma_split_single("."@, '/');
    lemma_split_append("."@, '/', name);
    let says = |piece: Seq<char>| piece.len() > 0 && piece != "."@;
    let pieces = seq!["."@].push(name);
    reveal_with_fuel(Seq::filter, 3);
    assert(pieces.drop_last() =~= seq!["."@]);
    assert(seq!["."@].drop_last() =~= Seq::<Seq<char>>::empty());
    assert(pieces.filter(says) =~= seq![name]);
    assert(steps_of(text) == seq![name]);
    assert forall|c: char| c == '\\' || c == ':' implies !#[trigger] text.contains(c) by {
        if text.contains(c) {
            let i = choose|i: int| 0 <= i < text.len() && text[i] == c;
            if i > 1 {
                assert(name[i - 2] == c);
                assert(name.contains(c));
            }
        }
    }
    assert(text[0] == '.');
    assert(is_driveless_path(directory)) by {
        assert forall|i: int| 0 <= i < directory.len() implies match #[trigger] directory[i] {
            Part::Prefix(_) => false,
            Part::Root | Part::Current => i == 0,
            Part::Parent => true,
            Part::Normal(name) => is_plain_name(name),
        } by {}
    }
    assert(!directory.contains(Part::Parent)) by {
        if directory.contains(Part::Parent) {
            let i = choose|i: int| 0 <= i < directory.len() && directory[i] == Part::Parent;
            assert(directory[i] is Normal || directory[i] is Root);
        }
    }
}

/// A share is two separators, a server, a separator and a name; a server that starts with a question
/// mark or a dot is none.
pub proof fn law_shares_name_a_server_and_a_name(server: Seq<char>, share: Seq<char>)
    requires
        server.len() > 0,
        share.len() > 0,
        forall|i: int| 0 <= i < server.len() ==> #[trigger] server[i] != '/' && server[i] != '\\',
        forall|i: int| 0 <= i < share.len() ==> #[trigger] share[i] != '/' && share[i] != '\\',
    ensures
        is_share(seq!['\\', '\\'] + server + seq!['\\'] + share) <==> server[0] != '?' && server[0]
            != '.',
{
    let text = seq!['\\', '\\'] + server + seq!['\\'] + share;
    let at = 2 + server.len() as int;
    assert(text[at] == '\\');
    assert(text[2] == server[0]);
    assert forall|i: int| 2 <= i < text.len() && i != at implies !is_separator(#[trigger] text[i]) by {
        if i < at {
            assert(text[i] == server[i - 2]);
        } else {
            assert(text[i] == share[i - at - 1]);
        }
    }
}

/// A name is made of what its context says: each part of the context as it is, and nothing for a window
/// that is not there.
pub proof fn law_a_context_says_what_it_holds(context: TemplateContext)
    ensures
        context@.timestamp_micros == context.timestamp_micros,
        context@.display == context.display@,
        context@.mode == context.mode@,
        context@.width == context.width,
        context@.height == context.height,
        context.application matches Some(text) ==> context@.application == text@,
        context.application is None ==> context@.application.len() == 0,
        context.title matches Some(text) ==> context@.title == text@,
        context.title is None ==> context@.title.len() == 0,
{
}

/// Braces around a name that is none of a token's say nothing. A brace that is never closed is left out,
/// and what is behind it stays.
pub proof fn law_braces_without_a_token_say_nothing(
    before: Seq<char>,
    token: Seq<char>,
    rest: Seq<char>,
    context: Naming,
)
    requires
        !before.contains('{'),
        !token.contains('}'),
        token != "timestamp"@,
        token != "date"@,
        token != "time"@,
        token != "display"@,
        token != "mode"@,
        token != "width"@,
        token != "height"@,
        token != "application"@,
        token != "title"@,
    ensures
        assembled(with_token(before, token, rest), context) == before + assembled(rest, context),
        !rest.contains('}') ==> assembled(before + seq!['{'] + rest, context) == before + rest,
        assembled(before, context) == before,
{
    lemma_first_token(before, token, rest);
    law_fit_values_are_kept(Seq::empty());
    let template = with_token(before, token, rest);
    assert(value_of(token, context) == Seq::<char>::empty());
    assert(before + Seq::<char>::empty() + assembled(rest, context) =~= before + assembled(
        rest,
        context,
    ));
    lemma_position(before, '{');
    let open_ended = before + seq!['{'] + rest;
    lemma_position(open_ended, '{');
    let n = before.len() as int;
    assert(open_ended[n] == '{');
    assert(open_ended.contains('{'));
    assert forall|i: int| 0 <= i < n implies open_ended[i] != '{' by {
        assert(open_ended[i] == before[i]);
    }
    assert(position(open_ended, '{') == n);
    assert(open_ended.take(n) =~= before);
    assert(open_ended.skip(n + 1) =~= rest);
    lemma_position(rest, '}');
}

} // verus!
