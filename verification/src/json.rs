//! JSON objects, as they are written to logs and to standard output.
use vstd::prelude::*;

use crate::capture::{CaptureId, Rect};

verus! {

/// The value of one key.
pub enum JsonField {
    Null,
    Flag(bool),
    Text(Seq<char>),
    Number(int),
    Object(Map<Seq<char>, JsonField>),
    /// Objects, one after the other.
    List(Seq<Map<Seq<char>, JsonField>>),
}

/// An object under construction.
#[verifier::external_type_specification]
#[verifier::external_body]
#[verifier::reject_recursive_types(K)]
#[verifier::reject_recursive_types(V)]
pub struct ExJsonMap<K, V>(serde_json::Map<K, V>);

/// A JSON value.
#[verifier::external_type_specification]
#[verifier::external_body]
pub struct ExJsonValue(serde_json::Value);

/// An object whose keys are texts.
pub type JsonObject = serde_json::Map<String, serde_json::Value>;

/// What an object holds.
pub uninterp spec fn json_fields(object: JsonObject) -> Map<Seq<char>, JsonField>;

/// What objects hold, one after the other.
pub open spec fn fields_of(objects: Seq<JsonObject>) -> Seq<Map<Seq<char>, JsonField>> {
    objects.map_values(|object: JsonObject| json_fields(object))
}

/// The text of an object with these fields, on one line.
pub uninterp spec fn json_text(fields: Map<Seq<char>, JsonField>) -> Seq<char>;

/// The text of an object with these fields, on several lines.
pub uninterp spec fn pretty_json_text(fields: Map<Seq<char>, JsonField>) -> Seq<char>;

/// No fields at all.
pub open spec fn no_fields() -> Map<Seq<char>, JsonField> {
    Map::empty()
}

/// `serde_json::Map::new`: an object without keys.
#[verifier::external_body]
pub(crate) fn new_object() -> (object: JsonObject)
    ensures
        json_fields(object) == no_fields(),
{
    serde_json::Map::new()
}

/// `serde_json::Map::insert` of a text: the key holds the text, whatever it held before.
#[verifier::external_body]
pub(crate) fn insert_text(object: &mut JsonObject, key: &str, text: &str)
    ensures
        json_fields(*final(object)) == json_fields(*old(object)).insert(
            key@,
            JsonField::Text(text@),
        ),
{
    object.insert(key.to_owned(), serde_json::Value::from(text));
}

/// `serde_json::Map::insert` of an unsigned number: the key holds the number, whatever it held
/// before.
#[verifier::external_body]
pub(crate) fn insert_number(object: &mut JsonObject, key: &str, number: u64)
    ensures
        json_fields(*final(object)) == json_fields(*old(object)).insert(
            key@,
            JsonField::Number(number as int),
        ),
{
    object.insert(key.to_owned(), serde_json::Value::from(number));
}

/// `serde_json::Map::insert` of a signed number: the key holds the number, whatever it held before.
#[verifier::external_body]
pub(crate) fn insert_integer(object: &mut JsonObject, key: &str, number: i64)
    ensures
        json_fields(*final(object)) == json_fields(*old(object)).insert(
            key@,
            JsonField::Number(number as int),
        ),
{
    object.insert(key.to_owned(), serde_json::Value::from(number));
}

/// `serde_json::Map::insert` of a truth value: the key holds it, whatever it held before.
#[verifier::external_body]
pub(crate) fn insert_flag(object: &mut JsonObject, key: &str, flag: bool)
    ensures
        json_fields(*final(object)) == json_fields(*old(object)).insert(
            key@,
            JsonField::Flag(flag),
        ),
{
    object.insert(key.to_owned(), serde_json::Value::from(flag));
}

/// `serde_json::Map::insert` of nothing: the key holds null, whatever it held before.
#[verifier::external_body]
pub(crate) fn insert_null(object: &mut JsonObject, key: &str)
    ensures
        json_fields(*final(object)) == json_fields(*old(object)).insert(key@, JsonField::Null),
{
    object.insert(key.to_owned(), serde_json::Value::Null);
}

/// `serde_json::Map::insert` of an object: the key holds the object, whatever it held before.
#[verifier::external_body]
pub(crate) fn insert_object(object: &mut JsonObject, key: &str, inner: JsonObject)
    ensures
        json_fields(*final(object)) == json_fields(*old(object)).insert(
            key@,
            JsonField::Object(json_fields(inner)),
        ),
{
    object.insert(key.to_owned(), serde_json::Value::from(inner));
}

/// `serde_json::Map::insert` of a list of objects: the key holds them in their order, whatever it
/// held before.
#[verifier::external_body]
pub(crate) fn insert_list(object: &mut JsonObject, key: &str, list: Vec<JsonObject>)
    ensures
        json_fields(*final(object)) == json_fields(*old(object)).insert(
            key@,
            JsonField::List(fields_of(list@)),
        ),
{
    object.insert(key.to_owned(), serde_json::Value::from(list));
}

/// `<serde_json::Value as Display>::fmt` on an object: its text on one line, which its keys and
/// values determine.
#[verifier::external_body]
pub(crate) fn render(object: JsonObject) -> (text: String)
    ensures
        text@ == json_text(json_fields(object)),
{
    serde_json::Value::from(object).to_string()
}

/// `<serde_json::Value as Display>::fmt` in its alternate form on an object: its text on several
/// lines, indented, which its keys and values determine.
#[verifier::external_body]
pub(crate) fn render_pretty(object: JsonObject) -> (text: String)
    ensures
        text@ == pretty_json_text(json_fields(object)),
{
    format!("{:#}", serde_json::Value::from(object))
}

/// The keys of a value: those of an object, and none of anything else.
pub uninterp spec fn value_keys(value: serde_json::Value) -> Set<Seq<char>>;

/// The keys of the value that a text spells, or how the parser explains that it spells none.
pub uninterp spec fn json_document(text: Seq<char>) -> Result<Set<Seq<char>>, Seq<char>>;

/// `serde_json::from_str` into a value: the value that a text spells, or the parser's message.
#[verifier::external_body]
pub(crate) fn parse_value(text: &str) -> (result: Result<serde_json::Value, String>)
    ensures
        match json_document(text@) {
            Ok(keys) => result matches Ok(value) && value_keys(value) == keys,
            Err(fault) => result matches Err(message) && message@ == fault,
        },
{
    serde_json::from_str::<serde_json::Value>(text).map_err(|error| error.to_string())
}

/// `serde_json::Value::get` by a text: whether there is something under the key, which only an
/// object can have.
#[verifier::external_body]
pub(crate) fn has_key(value: &serde_json::Value, key: &str) -> (present: bool)
    ensures
        present == value_keys(*value).contains(key@),
{
    value.get(key).is_some()
}

/// A text, or null where there is none.
pub open spec fn text_or_null(text: Option<Seq<char>>) -> JsonField {
    match text {
        Some(text) => JsonField::Text(text),
        None => JsonField::Null,
    }
}

/// Adds a text, or null where there is none.
pub(crate) fn insert_text_or_null(object: &mut JsonObject, key: &str, text: Option<&str>)
    ensures
        json_fields(*final(object)) == json_fields(*old(object)).insert(
            key@,
            text_or_null(
                match text {
                    Some(text) => Some(text@),
                    None => None,
                },
            ),
        ),
{
    match text {
        Some(text) => insert_text(object, key, text),
        None => insert_null(object, key),
    }
}

/// A number, or null where there is none.
pub open spec fn number_or_null(number: Option<int>) -> JsonField {
    match number {
        Some(number) => JsonField::Number(number),
        None => JsonField::Null,
    }
}

/// Adds a number, or null where there is none.
pub(crate) fn insert_number_or_null(object: &mut JsonObject, key: &str, number: Option<u64>)
    ensures
        json_fields(*final(object)) == json_fields(*old(object)).insert(
            key@,
            number_or_null(
                match number {
                    Some(number) => Some(number as int),
                    None => None,
                },
            ),
        ),
{
    match number {
        Some(number) => insert_number(object, key, number),
        None => insert_null(object, key),
    }
}

/// The fields that every event of a capture starts with.
pub open spec fn event_fields(event: Seq<char>, id: CaptureId) -> Map<Seq<char>, JsonField> {
    no_fields().insert("schema_version"@, JsonField::Number(1)).insert(
        "event"@,
        JsonField::Text(event),
    ).insert("capture_id"@, JsonField::Number(id.0 as int))
}

/// An event of a capture.
pub(crate) fn new_event(event: &str, id: CaptureId) -> (object: JsonObject)
    ensures
        json_fields(object) == event_fields(event@, id),
{
    let mut object = new_object();
    insert_number(&mut object, "schema_version", 1);
    insert_text(&mut object, "event", event);
    insert_number(&mut object, "capture_id", id.0);
    object
}

/// The fields of a rectangle.
pub open spec fn rect_fields(rect: Rect) -> Map<Seq<char>, JsonField> {
    no_fields().insert("x"@, JsonField::Number(rect.x as int)).insert(
        "y"@,
        JsonField::Number(rect.y as int),
    ).insert("width"@, JsonField::Number(rect.width as int)).insert(
        "height"@,
        JsonField::Number(rect.height as int),
    )
}

/// A rectangle as an object.
pub(crate) fn rect_object(rect: Rect) -> (object: JsonObject)
    ensures
        json_fields(object) == rect_fields(rect),
{
    let mut object = new_object();
    insert_integer(&mut object, "x", rect.x as i64);
    insert_integer(&mut object, "y", rect.y as i64);
    insert_number(&mut object, "width", rect.width as u64);
    insert_number(&mut object, "height", rect.height as u64);
    object
}

/// An event names itself and its capture; a rectangle is written with every number under its own name;
/// a value that is not there is written as nothing; and a list holds the fields of its objects, in
/// their order.
pub proof fn law_values_are_written_under_their_names(
    event: Seq<char>,
    id: CaptureId,
    rect: Rect,
    text: Seq<char>,
    number: int,
    objects: Seq<JsonObject>,
)
    ensures
        event_fields(event, id)["schema_version"@] == JsonField::Number(1),
        event_fields(event, id)["event"@] == JsonField::Text(event),
        event_fields(event, id)["capture_id"@] == JsonField::Number(id.0 as int),
        rect_fields(rect)["x"@] == JsonField::Number(rect.x as int),
        rect_fields(rect)["y"@] == JsonField::Number(rect.y as int),
        rect_fields(rect)["width"@] == JsonField::Number(rect.width as int),
        rect_fields(rect)["height"@] == JsonField::Number(rect.height as int),
        text_or_null(Some(text)) == JsonField::Text(text),
        text_or_null(None) == JsonField::Null,
        number_or_null(Some(number)) == JsonField::Number(number),
        number_or_null(None) == JsonField::Null,
        fields_of(objects).len() == objects.len(),
        forall|i: int|
            0 <= i < objects.len() ==> #[trigger] fields_of(objects)[i] == json_fields(objects[i]),
        no_fields().dom() == Set::<Seq<char>>::empty(),
{
    reveal_strlit("schema_version");
    reveal_strlit("event");
    reveal_strlit("capture_id");
    reveal_strlit("x");
    reveal_strlit("y");
    reveal_strlit("width");
    reveal_strlit("height");
    assert("schema_version"@.len() == 14 && "event"@.len() == 5 && "capture_id"@.len() == 10 && "x"@.len() == 1 && "y"@.len() == 1 && "width"@.len() == 5 && "height"@.len() == 6);
    assert("event"@[0] == 'e');
    assert("width"@[0] == 'w');
    assert("x"@[0] == 'x');
    assert("y"@[0] == 'y');
}

} // verus!
