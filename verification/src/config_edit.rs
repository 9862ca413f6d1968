//! Surgical edits to the user's own configuration file.
//!
//! The file has comments, an order and hand edits in it, so a setting is changed inside the parsed
//! document and everything else is left as the user wrote it.
use toml_edit::{Item, Value};
use vstd::prelude::*;
use vstd::string::*;

use crate::error::ConfigError;
use crate::text::ends_with;

verus! {

/// What a document says about `enabled` inside `output`.
#[derive(Clone, Copy, Debug, Eq, PartialEq, Structural)]
pub enum EnabledKey {
    Absent,
    Flag(bool),
    /// A value, but not a truth value.
    OtherValue,
    /// A table of its own, under a header or under a dotted key, or several.
    Nested,
}

impl EnabledKey {
    /// Whether the key has a value, of whatever kind, that can be replaced in its place.
    pub open spec fn is_value(self) -> bool {
        self is Flag || self is OtherValue
    }
}

/// The kinds of value that cannot hold a setting.
#[derive(Clone, Copy, Debug, Eq, PartialEq, Structural)]
pub enum ValueKind {
    Text,
    Integer,
    Float,
    Boolean,
    Datetime,
    Array,
    ArrayOfTables,
}

impl ValueKind {
    /// What the kind is called in messages.
    pub open spec fn name(self) -> Seq<char> {
        match self {
            ValueKind::Text => "string"@,
            ValueKind::Integer => "integer"@,
            ValueKind::Float => "float"@,
            ValueKind::Boolean => "boolean"@,
            ValueKind::Datetime => "datetime"@,
            ValueKind::Array => "array"@,
            ValueKind::ArrayOfTables => "array of tables"@,
        }
    }

    /// What the kind is called in messages.
    pub fn as_str(self) -> (name: &'static str)
        ensures
            name@ == self.name(),
    {
        match self {
            ValueKind::Text => "string",
            ValueKind::Integer => "integer",
            ValueKind::Float => "float",
            ValueKind::Boolean => "boolean",
            ValueKind::Datetime => "datetime",
            ValueKind::Array => "array",
            ValueKind::ArrayOfTables => "array of tables",
        }
    }
}

/// What a document says about `output`.
#[derive(Clone, Copy, Debug, Eq, PartialEq, Structural)]
pub enum OutputEntry {
    Missing,
    Table(EnabledKey),
    InlineTable(EnabledKey),
    Other(ValueKind),
}

/// What a document holds: its `output` entry, and everything else as it is written out again, with
/// the comments and the white space in it. Carriage returns are left out when a document is written,
/// and dotted keys with the same start are all written behind what preceded the first of them.
pub struct DocumentContents {
    pub output: OutputEntry,
    /// What is written before and behind the header of `output`, or its key and its value, where it
    /// has one: keys can be put into it without.
    pub around_output: Option<Seq<Seq<char>>>,
    /// The other keys of `output`, as they are written.
    pub output_others: Map<Seq<char>, Seq<char>>,
    /// What is written before and behind the key `enabled` of `output`, and before and behind its
    /// value.
    pub around_enabled: Seq<Seq<char>>,
    /// The other top-level keys, as they are written.
    pub others: Map<Seq<char>, Seq<char>>,
    /// What is written behind the last key of all.
    pub trailing: Seq<char>,
}

/// A parsed configuration file.
#[verifier::external_type_specification]
#[verifier::external_body]
pub struct ExDocument(toml_edit::Document);

/// What a parsed document holds.
pub uninterp spec fn document_contents(document: toml_edit::Document) -> DocumentContents;

/// The text that a document is written out as.
pub uninterp spec fn document_text(document: toml_edit::Document) -> Seq<char>;

/// What a text holds as a document, or how the parser explains that it is none.
pub uninterp spec fn toml_document(text: Seq<char>) -> Result<DocumentContents, Seq<char>>;

/// Whether a document that is written out and parsed again holds what it held.
pub open spec fn reads_back(document: toml_edit::Document) -> bool {
    toml_document(document_text(document)) == Ok::<DocumentContents, Seq<char>>(
        document_contents(document),
    )
}

/// `toml_edit::Document::from_str`: the document that a text spells, or the parser's message. The
/// crate keeps what is written around a key and a value with them, but for carriage returns and what
/// precedes the later ones of several dotted keys with the same start; what it kept reads back.
#[verifier::external_body]
pub(crate) fn parse_document(text: &str) -> (result: Result<toml_edit::Document, String>)
    ensures
        match toml_document(text@) {
            Ok(contents) => result matches Ok(document) && document_contents(document) == contents
                && reads_back(document),
            Err(fault) => result matches Err(message) && message@ == fault,
        },
{
    text.parse::<toml_edit::Document>().map_err(|error| error.to_string())
}

/// `toml_edit::Table::get` on `output`, told apart by the variants of `toml_edit::Item` and
/// `toml_edit::Value`. A key of a parsed document never holds `toml_edit::Item::None`: `get` leaves
/// such a key out.
#[verifier::external_body]
fn output_kind(document: &toml_edit::Document) -> (entry: OutputEntry)
    ensures
        match document_contents(*document).output {
            OutputEntry::Table(_) => entry is Table,
            OutputEntry::InlineTable(_) => entry is InlineTable,
            other => entry == other,
        },
{
    match document.get("output") {
        None | Some(Item::None) => OutputEntry::Missing,
        Some(Item::Table(_)) => OutputEntry::Table(EnabledKey::Absent),
        Some(Item::ArrayOfTables(_)) => OutputEntry::Other(ValueKind::ArrayOfTables),
        Some(Item::Value(value)) => match value {
            Value::String(_) => OutputEntry::Other(ValueKind::Text),
            Value::Integer(_) => OutputEntry::Other(ValueKind::Integer),
            Value::Float(_) => OutputEntry::Other(ValueKind::Float),
            Value::Boolean(_) => OutputEntry::Other(ValueKind::Boolean),
            Value::Datetime(_) => OutputEntry::Other(ValueKind::Datetime),
            Value::Array(_) => OutputEntry::Other(ValueKind::Array),
            Value::InlineTable(_) => OutputEntry::InlineTable(EnabledKey::Absent),
        },
    }
}

/// What `enabled` is inside an `output` that is a table of either form.
pub open spec fn enabled_key(entry: OutputEntry) -> EnabledKey {
    match entry {
        OutputEntry::Table(key) => key,
        OutputEntry::InlineTable(key) => key,
        _ => EnabledKey::Absent,
    }
}

/// The entry with `enabled` set in it.
pub open spec fn with_enabled(entry: OutputEntry, enabled: bool) -> OutputEntry {
    match entry {
        OutputEntry::InlineTable(_) => OutputEntry::InlineTable(EnabledKey::Flag(enabled)),
        _ => OutputEntry::Table(EnabledKey::Flag(enabled)),
    }
}

/// No keys at all.
pub open spec fn no_keys() -> Map<Seq<char>, Seq<char>> {
    Map::empty()
}

/// What a document holds once `enabled` is set in its `output`, whatever is then written around it.
pub open spec fn is_edit_of(after: DocumentContents, before: DocumentContents, enabled: bool) -> bool {
    &&& after.output == with_enabled(before.output, enabled)
    &&& before.around_output is Some ==> after.around_output == before.around_output
    &&& after.output_others == before.output_others
    &&& after.others == before.others
    &&& after.trailing == before.trailing
}

/// `toml_edit::Table::insert` of a new table under `output`, which leaves every other key as it
/// was. A document that reads back still does.
#[verifier::external_body]
fn add_output_table(document: &mut toml_edit::Document)
    requires
        document_contents(*old(document)).output is Missing,
    ensures
        document_contents(*final(document)).output == OutputEntry::Table(EnabledKey::Absent),
        document_contents(*final(document)).output_others == no_keys(),
        document_contents(*final(document)).others == document_contents(*old(document)).others,
        document_contents(*final(document)).trailing == document_contents(*old(document)).trailing,
        reads_back(*old(document)) ==> reads_back(*final(document)),
{
    document.insert("output", toml_edit::Item::Table(toml_edit::Table::new()));
}

/// `toml_edit::Table::set_implicit(false)` on `output`: the header of the table is written out if it
/// was not before, and what it and every other key holds stays as it was. A document that reads back
/// still does.
#[verifier::external_body]
fn keep_output_header(document: &mut toml_edit::Document)
    requires
        document_contents(*old(document)).output is Table,
    ensures
        document_contents(*final(document)) == (DocumentContents {
            around_output: document_contents(*final(document)).around_output,
            ..document_contents(*old(document))
        }),
        document_contents(*old(document)).around_output is Some ==> document_contents(
            *final(document),
        ).around_output == document_contents(*old(document)).around_output,
        reads_back(*old(document)) ==> reads_back(*final(document)),
{
    let table = document.get_mut("output").and_then(toml_edit::Item::as_table_mut);
    let _ = table.map(|table| table.set_implicit(false));
}

/// `toml_edit::TableLike::contains_key` on `output`: whether it holds `enabled`.
#[verifier::external_body]
fn has_enabled(document: &toml_edit::Document) -> (present: bool)
    requires
        document_contents(*document).output is Table || document_contents(*document).output is InlineTable,
    ensures
        present == (enabled_key(document_contents(*document).output) != EnabledKey::Absent),
{
    let table = document.get("output").and_then(toml_edit::Item::as_table_like);
    table.map_or(false, |table| table.contains_key("enabled"))
}

/// `toml_edit::TableLike::get_mut` on `output`: the value of `enabled` is assigned in place, with
/// the decoration of the value that stood there. So what is written around the key and around its
/// value stays, and every other key keeps what it held. A document that reads back still does.
#[verifier::external_body]
fn replace_enabled(document: &mut toml_edit::Document, enabled: bool)
    requires
        enabled_key(document_contents(*old(document)).output) != EnabledKey::Absent,
    ensures
        is_edit_of(document_contents(*final(document)), document_contents(*old(document)), enabled),
        enabled_key(document_contents(*old(document)).output).is_value() ==> document_contents(
            *final(document),
        ).around_enabled == document_contents(*old(document)).around_enabled,
        reads_back(*old(document)) ==> reads_back(*final(document)),
{
    let table = document.get_mut("output").and_then(toml_edit::Item::as_table_like_mut);
    let existing = table.and_then(|table| table.get_mut("enabled"));
    let _ = existing.map(
        |existing|
            {
                let decor = existing.as_value().map(|value| value.decor().clone());
                *existing = toml_edit::value(enabled);
                let value = existing.as_value_mut();
                value.zip(decor).map(|(value, decor)| *value.decor_mut() = decor)
            },
    );
}

/// `toml_edit::TableLike::insert` on `output`: adds `enabled` behind its other keys, each of which
/// keeps what it held. A document that reads back still does.
#[verifier::external_body]
fn insert_enabled(document: &mut toml_edit::Document, enabled: bool)
    requires
        document_contents(*old(document)).output is Table || document_contents(
            *old(document),
        ).output is InlineTable,
        enabled_key(document_contents(*old(document)).output) == EnabledKey::Absent,
    ensures
        is_edit_of(document_contents(*final(document)), document_contents(*old(document)), enabled),
        reads_back(*old(document)) ==> reads_back(*final(document)),
{
    let table = document.get_mut("output").and_then(toml_edit::Item::as_table_like_mut);
    let _ = table.map(|table| table.insert("enabled", toml_edit::value(enabled)));
}

/// `<toml_edit::Document as Display>::fmt`: the document as text.
#[verifier::external_body]
fn render(document: &toml_edit::Document) -> (text: String)
    ensures
        text@ == document_text(*document),
{
    document.to_string()
}

/// The text of a configuration that holds nothing but this setting.
pub open spec fn new_document_text(enabled: bool) -> Seq<char> {
    "# Created by Captastic when \"Save Captures to Disk\" was switched on from the\n# notification area. Every setting not named here keeps its default; see\n# captastic.example.toml for the full list.\nschema_version = 1\n\n[output]\nenabled = "@
        + (if enabled {
        "true"@
    } else {
        "false"@
    }) + "\n"@
}

/// The text of a configuration that holds nothing but this setting.
pub fn new_document(enabled: bool) -> (text: String)
    ensures
        text@ == new_document_text(enabled),
{
    let mut text = "# Created by Captastic when \"Save Captures to Disk\" was switched on from the\n# notification area. Every setting not named here keeps its default; see\n# captastic.example.toml for the full list.\nschema_version = 1\n\n[output]\nenabled = ".to_owned();
    if enabled {
        text.append("true");
    } else {
        text.append("false");
    }
    text.append("\n");
    text
}

/// What there is to edit: a document without an `output` starts with an empty one.
pub open spec fn editable(before: DocumentContents) -> DocumentContents {
    if before.output is Missing {
        DocumentContents { around_output: None, output_others: no_keys(), ..before }
    } else {
        before
    }
}

/// Whether `after` says `output.enabled = enabled` and is otherwise as `before`: every other key with
/// the comments on it, the header of `output`, and what is written around a value of `enabled` that
/// was there already.
pub open spec fn edited(before: DocumentContents, after: DocumentContents, enabled: bool) -> bool {
    &&& is_edit_of(after, editable(before), enabled)
    &&& enabled_key(before.output).is_value() ==> after.around_enabled == before.around_enabled
}

/// Of several edits the last one counts.
pub proof fn law_the_last_edit_counts(
    first: DocumentContents,
    second: DocumentContents,
    third: DocumentContents,
    earlier: bool,
    later: bool,
)
    requires
        edited(first, second, earlier),
        edited(second, third, later),
    ensures
        edited(first, third, later),
{
}

/// Writes the key into `[output]`, creating the table if the document has never mentioned it.
fn set_enabled(document: &mut toml_edit::Document, enabled: bool) -> (result: Result<
    (),
    ConfigError,
>)
    ensures
        match document_contents(*old(document)).output {
            OutputEntry::Other(kind) => result matches Err(ConfigError::InvalidValue(text)) && text@
                == "output must be a table to hold output.enabled, not "@ + kind.name()
                && *final(document) == *old(document),
            _ => result is Ok && edited(
                document_contents(*old(document)),
                document_contents(*final(document)),
                enabled,
            ) && (reads_back(*old(document)) ==> reads_back(*final(document))),
        },
{
    match output_kind(document) {
        OutputEntry::Missing => {
            add_output_table(document);
        },
        OutputEntry::Table(_) => {
            keep_output_header(document);
        },
        OutputEntry::InlineTable(_) => {},
        OutputEntry::Other(kind) => {
            let mut text = "output must be a table to hold output.enabled, not ".to_owned();
            text.append(kind.as_str());
            return Err(ConfigError::InvalidValue(text));
        },
    }
    if has_enabled(document) {
        replace_enabled(document, enabled);
    } else {
        insert_enabled(document, enabled);
    }
    Ok(())
}

/// The configuration text with `output.enabled` set, preserving everything else in it, or a new
/// configuration where there was none.
pub fn set_output_enabled(text: Option<&str>, enabled: bool) -> (result: Result<
    String,
    ConfigError,
>)
    ensures
        match text {
            None => result matches Ok(out) && out@ == new_document_text(enabled),
            Some(text) => match toml_document(text@) {
                Err(fault) => result matches Err(ConfigError::Edit(message)) && message@ == fault,
                Ok(contents) => match contents.output {
                    OutputEntry::Other(kind) => result matches Err(ConfigError::InvalidValue(message))
                        && message@ == "output must be a table to hold output.enabled, not "@
                        + kind.name(),
                    _ => result matches Ok(out) && (toml_document(out@) matches Ok(after) && edited(
                        contents,
                        after,
                        enabled,
                    )),
                },
            },
        },
{
    match text {
        None => Ok(new_document(enabled)),
        Some(text) => match parse_document(text) {
            Err(message) => Err(ConfigError::Edit(message)),
            Ok(parsed) => {
                let mut document = parsed;
                match set_enabled(&mut document, enabled) {
                    Err(error) => Err(error),
                    Ok(()) => {
                        let out = render(&document);
                        Ok(out)
                    },
                }
            },
        },
    }
}

/// An edit sets `enabled` to what was asked for, inside a table of the form that was there, and changes
/// nothing else: not the other keys, not what is written behind them, and not what is written around the
/// setting where it was there.
pub proof fn law_an_edit_changes_only_its_setting(
    before: DocumentContents,
    after: DocumentContents,
    enabled: bool,
)
    requires
        edited(before, after, enabled),
    ensures
        before.output is InlineTable ==> after.output == OutputEntry::InlineTable(
            EnabledKey::Flag(enabled),
        ),
        !(before.output is InlineTable) ==> after.output == OutputEntry::Table(
            EnabledKey::Flag(enabled),
        ),
        after.others == before.others,
        after.trailing == before.trailing,
        !(before.output is Missing) ==> after.output_others == before.output_others && (
        before.around_output is Some ==> after.around_output == before.around_output),
        before.output is Missing ==> after.output_others == Map::<Seq<char>, Seq<char>>::empty(),
        (match before.output {
            OutputEntry::Table(key) => key is Flag || key is OtherValue,
            OutputEntry::InlineTable(key) => key is Flag || key is OtherValue,
            _ => false,
        }) ==> after.around_enabled == before.around_enabled,
{
}

/// Kinds of values have names of their own.
pub proof fn law_kinds_have_their_own_names(a: ValueKind, b: ValueKind)
    ensures
        a.name() == b.name() ==> a == b,
{
    reveal_strlit("string");
    reveal_strlit("integer");
    reveal_strlit("float");
    reveal_strlit("boolean");
    reveal_strlit("datetime");
    reveal_strlit("array");
    reveal_strlit("array of tables");
    assert("string"@.len() == 6 && "integer"@.len() == 7 && "float"@.len() == 5 && "boolean"@.len() == 7 && "datetime"@.len() == 8 && "array"@.len() == 5 && "array of tables"@.len() == 15);
    assert("integer"@[0] == 'i');
    assert("boolean"@[0] == 'b');
    assert("float"@[0] == 'f');
    assert("array"@[0] == 'a');
}

/// A new document says its version and then the setting, and nothing behind it.
pub proof fn law_a_new_document_ends_with_its_setting(enabled: bool)
    ensures
        ends_with(
            new_document_text(enabled),
            "\nschema_version = 1\n\n[output]\nenabled = "@ + (if enabled {
                "true\n"@
            } else {
                "false\n"@
            }),
        ),
{
    reveal_strlit("# Created by Captastic when \"Save Captures to Disk\" was switched on from the\n# notification area. Every setting not named here keeps its default; see\n# captastic.example.toml for the full list.\nschema_version = 1\n\n[output]\nenabled = ");
    reveal_strlit("\nschema_version = 1\n\n[output]\nenabled = ");
    reveal_strlit("true");
    reveal_strlit("false");
    reveal_strlit("true\n");
    reveal_strlit("false\n");
    reveal_strlit("\n");
    let text = new_document_text(enabled);
    let end = "\nschema_version = 1\n\n[output]\nenabled = "@ + (if enabled {
        "true\n"@
    } else {
        "false\n"@
    });
    assert(text.skip(text.len() - end.len()) =~= end);
}

} // verus!
