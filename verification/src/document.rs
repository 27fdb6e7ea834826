//! Configuration documents: the values of the `toml` crate as this crate
//! reads and builds them. What this file states of that crate is believed,
//! not proved.

use vstd::prelude::*;
use crate::decimal::decimal_units;

verus! {

/// A value of a document: `toml::Value`.
#[verifier::external_type_specification]
#[verifier::external_body]
pub struct ExValue(toml::Value);

/// The error type of the parser of the `toml` crate.
#[verifier::external_type_specification]
#[verifier::external_body]
pub struct ExParseError(toml::de::Error);

/// The error type of the writer of the `toml` crate.
#[verifier::external_type_specification]
#[verifier::external_body]
pub struct ExWriteError(toml::ser::Error);

/// The integer that `v` is, if it is one.
pub uninterp spec fn integer_in(v: toml::Value) -> Option<i64>;

/// The string that `v` is, if it is one.
pub uninterp spec fn text_in(v: toml::Value) -> Option<Seq<char>>;

/// The boolean that `v` is, if it is one.
pub uninterp spec fn flag_in(v: toml::Value) -> Option<bool>;

/// The float that `v` is, if it is one, as `Display` writes it.
pub uninterp spec fn number_in(v: toml::Value) -> Option<Seq<char>>;

/// The entries of the table that `v` is, if it is one.
pub uninterp spec fn entries_in(v: toml::Value) -> Option<Map<Seq<char>, toml::Value>>;

/// The items of the array that `v` is, if it is one.
pub uninterp spec fn items_in(v: toml::Value) -> Option<Seq<toml::Value>>;

/// What `Display` writes for the float that `text` is read as.
pub uninterp spec fn float_text(text: Seq<char>) -> Seq<char>;

/// The document that `text` is, if it is one.
pub uninterp spec fn parsed(text: Seq<char>) -> Option<toml::Value>;

/// The text of the document `doc`, if the writer gives one.
pub uninterp spec fn rendered(doc: toml::Value) -> Option<Seq<char>>;

/// The entry of the table `table` under `key`, if `table` is a table and
/// has one.
pub open spec fn entry_of(table: toml::Value, key: Seq<char>) -> Option<toml::Value> {
    match entries_in(table) {
        Some(entries) => if entries.contains_key(key) {
            Some(entries[key])
        } else {
            None
        },
        None => None,
    }
}

/// The view of an optional string.
pub open spec fn text_of(s: Option<String>) -> Option<Seq<char>> {
    match s {
        Some(s) => Some(s@),
        None => None,
    }
}

/// Reads a document with the `FromStr` impl of `toml::Value`. The contract
/// only gives the outcome its name: the document, or an error where
/// `text` is none.
#[verifier::external_body]
pub(crate) fn parse_document(text: &str) -> (r: Result<toml::Value, toml::de::Error>)
    ensures
        parsed(text@) == (match r {
            Ok(doc) => Some(doc),
            Err(_) => None,
        }),
{
    text.parse::<toml::Value>()
}

/// Writes a document with `toml::to_string_pretty`. The contract only
/// gives the outcome its name: the text, or an error where the writer
/// gives none.
#[verifier::external_body]
pub(crate) fn render_document(doc: &toml::Value) -> (r: Result<String, toml::ser::Error>)
    ensures
        rendered(*doc) == (match r {
            Ok(text) => Some(text@),
            Err(_) => None,
        }),
{
    toml::to_string_pretty(doc)
}

/// `Value::get` with a string index, and a clone of what it finds: the
/// entry under `key` where `table` is a table that has one.
#[verifier::external_body]
pub(crate) fn entry(table: &toml::Value, key: &str) -> (r: Option<toml::Value>)
    ensures
        r == (match entries_in(*table) {
            Some(entries) => if entries.contains_key(key@) {
                Some(entries[key@])
            } else {
                None
            },
            None => None,
        }),
{
    table.get(key).cloned()
}

/// `Value::is_table`: whether `v` is a table.
#[verifier::external_body]
pub(crate) fn is_table(v: &toml::Value) -> (r: bool)
    ensures
        r == (entries_in(*v) is Some),
{
    v.is_table()
}

/// `Value::as_array`, and a clone of what it finds: the items where `v` is
/// an array.
#[verifier::external_body]
pub(crate) fn items(v: &toml::Value) -> (r: Option<Vec<toml::Value>>)
    ensures
        items_in(*v) == (match r {
            Some(items) => Some(items@),
            None => None,
        }),
{
    v.as_array().cloned()
}

/// `Value::as_integer`: the integer where `v` is one.
#[verifier::external_body]
pub(crate) fn as_integer(v: &toml::Value) -> (r: Option<i64>)
    ensures
        r == integer_in(*v),
{
    v.as_integer()
}

/// `Value::as_str`, as an owned string: the string where `v` is one.
#[verifier::external_body]
pub(crate) fn as_text(v: &toml::Value) -> (r: Option<String>)
    ensures
        text_in(*v) == (match r {
            Some(text) => Some(text@),
            None => None,
        }),
{
    v.as_str().map(|s| s.to_owned())
}

/// `Value::as_bool`: the boolean where `v` is one.
#[verifier::external_body]
pub(crate) fn as_flag(v: &toml::Value) -> (r: Option<bool>)
    ensures
        r == flag_in(*v),
{
    v.as_bool()
}

/// `Value::as_float`, written by `to_string`: the float where `v` is one.
#[verifier::external_body]
pub(crate) fn as_number(v: &toml::Value) -> (r: Option<String>)
    ensures
        number_in(*v) == (match r {
            Some(text) => Some(text@),
            None => None,
        }),
{
    v.as_float().map(|f| f.to_string())
}

/// `Value::Integer`.
#[verifier::external_body]
pub(crate) fn integer_value(i: i64) -> (v: toml::Value)
    ensures
        integer_in(v) == Some(i),
{
    toml::Value::Integer(i)
}

/// `Value::String`.
#[verifier::external_body]
pub(crate) fn text_value(text: &str) -> (v: toml::Value)
    ensures
        text_in(v) == Some(text@),
{
    toml::Value::String(text.to_owned())
}

/// `Value::Boolean`.
#[verifier::external_body]
pub(crate) fn flag_value(flag: bool) -> (v: toml::Value)
    ensures
        flag_in(v) == Some(flag),
{
    toml::Value::Boolean(flag)
}

/// `Value::Float` of the float that `str::parse` reads `text` as. `text`
/// is digits, or digits, a point and digits, which `parse` takes.
#[verifier::external_body]
pub(crate) fn number_value(text: &str) -> (v: toml::Value)
    requires
        decimal_units(text@) is Some,
    ensures
        number_in(v) == Some(float_text(text@)),
{
    toml::Value::Float(text.parse().unwrap())
}

/// `Value::Array`.
#[verifier::external_body]
pub(crate) fn list_value(items: Vec<toml::Value>) -> (v: toml::Value)
    ensures
        items_in(v) == Some(items@),
{
    toml::Value::Array(items)
}

/// `Value::Table` of `Map::new`: a table without entries.
#[verifier::external_body]
pub(crate) fn table_value() -> (v: toml::Value)
    ensures
        entries_in(v) == Some(Map::<Seq<char>, toml::Value>::empty()),
{
    toml::Value::Table(toml::map::Map::new())
}

/// `Map::insert` on the table that `table` is: afterwards `key` leads to
/// `value`, and every other key to what it led to before.
#[verifier::external_body]
pub(crate) fn set_entry(table: &mut toml::Value, key: &str, value: toml::Value)
    requires
        entries_in(*old(table)) is Some,
    ensures
        entries_in(*final(table)) == Some(entries_in(*old(table))->0.insert(key@, value)),
{
    table.as_table_mut().unwrap().insert(key.to_owned(), value);
}

} // verus!
