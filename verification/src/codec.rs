//! The format codecs: every call into the serialization crates stands here,
//! behind small trusted wrappers. Each codec's result is a function of its
//! argument alone, so each carries a name — an uninterpreted spec function —
//! that the wrappers' contracts apply; callers then state their own results
//! exactly over those names.

use vstd::prelude::*;

use crate::error::Error;

verus! {

#[verifier::external_type_specification]
#[verifier::external_body]
pub struct ExJsonValue(serde_json::Value);

/// The pretty JSON text serde_json renders `value` as; nothing where the
/// rendering is refused.
pub uninterp spec fn spec_json_render(value: serde_json::Value) -> Option<Seq<char>>;

/// The value serde_json parses `text` as; nothing where the text is not
/// one JSON document.
pub uninterp spec fn spec_json_parse(text: Seq<char>) -> Option<serde_json::Value>;

/// The pretty TOML document toml renders `value` as; nothing where the
/// value cannot stand as a TOML document.
pub uninterp spec fn spec_toml_render(value: serde_json::Value) -> Option<Seq<char>>;

/// The value toml parses `text` as; nothing where the text is not one TOML
/// document.
pub uninterp spec fn spec_toml_parse(text: Seq<char>) -> Option<serde_json::Value>;

/// The pretty RON text ron renders `value` as; nothing where the rendering
/// is refused.
pub uninterp spec fn spec_ron_render(value: serde_json::Value) -> Option<Seq<char>>;

/// The value ron parses `text` as; nothing where the text is not one RON
/// document.
pub uninterp spec fn spec_ron_parse(text: Seq<char>) -> Option<serde_json::Value>;

/// The value under `key` in `value`, where `value` is an object holding
/// one.
pub uninterp spec fn spec_value_field(value: serde_json::Value, key: Seq<char>) -> Option<
    serde_json::Value,
>;

/// The characters of `value`, where `value` is a JSON string.
pub uninterp spec fn spec_value_str(value: serde_json::Value) -> Option<Seq<char>>;

/// The text under `key` in `value`: the field looked up and read as a
/// string.
pub open spec fn spec_field_text(value: serde_json::Value, key: Seq<char>) -> Option<Seq<char>> {
    match spec_value_field(value, key) {
        Some(f) => spec_value_str(f),
        None => None,
    }
}

/// Relies on serde_json::to_string_pretty: renders `value` as pretty JSON,
/// deterministically in the value.
#[verifier::external_body]
pub fn json_to_string_pretty(value: &serde_json::Value) -> (r: Result<String, Error>)
    ensures
        match r {
            Ok(s) => spec_json_render(*value) == Some(s@),
            Err(e) => spec_json_render(*value) is None && e matches Error::Json(_),
        },
{
    serde_json::to_string_pretty(value).map_err(|e| Error::Json(e.to_string()))
}

/// Relies on serde_json::from_str: parses `text` as one JSON document,
/// deterministically in the text.
#[verifier::external_body]
pub fn json_from_str(text: &str) -> (r: Result<serde_json::Value, Error>)
    ensures
        match r {
            Ok(v) => spec_json_parse(text@) == Some(v),
            Err(e) => spec_json_parse(text@) is None && e matches Error::Json(_),
        },
{
    serde_json::from_str(text).map_err(|e| Error::Json(e.to_string()))
}

/// Relies on toml::to_string_pretty: renders `value` as a TOML document,
/// deterministically in the value.
#[verifier::external_body]
pub fn toml_to_string_pretty(value: &serde_json::Value) -> (r: Result<String, Error>)
    ensures
        match r {
            Ok(s) => spec_toml_render(*value) == Some(s@),
            Err(e) => spec_toml_render(*value) is None && e matches Error::TomlSerialize(_),
        },
{
    toml::to_string_pretty(value).map_err(|e| Error::TomlSerialize(e.to_string()))
}

/// Relies on toml::from_str: parses `text` as one TOML document,
/// deterministically in the text.
#[verifier::external_body]
pub fn toml_from_str(text: &str) -> (r: Result<serde_json::Value, Error>)
    ensures
        match r {
            Ok(v) => spec_toml_parse(text@) == Some(v),
            Err(e) => spec_toml_parse(text@) is None && e matches Error::TomlDeserialize(_),
        },
{
    toml::from_str(text).map_err(|e| Error::TomlDeserialize(e.to_string()))
}

/// Relies on ron::ser::to_string_pretty: renders `value` as a RON
/// document with the default pretty configuration, deterministically in
/// the value.
#[verifier::external_body]
pub fn ron_to_string_pretty(value: &serde_json::Value) -> (r: Result<String, Error>)
    ensures
        match r {
            Ok(s) => spec_ron_render(*value) == Some(s@),
            Err(e) => spec_ron_render(*value) is None && e matches Error::Ron(_),
        },
{
    ron::ser::to_string_pretty(value, ron::ser::PrettyConfig::new()).map_err(
        |e| Error::Ron(e.to_string()),
    )
}

/// Relies on ron::from_str: parses `text` as one RON document,
/// deterministically in the text.
#[verifier::external_body]
pub fn ron_from_str(text: &str) -> (r: Result<serde_json::Value, Error>)
    ensures
        match r {
            Ok(v) => spec_ron_parse(text@) == Some(v),
            Err(e) => spec_ron_parse(text@) is None && e matches Error::Ron(_),
        },
{
    ron::from_str(text).map_err(|e| Error::Ron(e.to_string()))
}

/// Relies on serde_json::Value::get: the value under `key`, for an object
/// that holds one, deterministically in the value and the key.
#[verifier::external_body]
pub fn value_field<'a>(value: &'a serde_json::Value, key: &str) -> (r: Option<
    &'a serde_json::Value,
>)
    ensures
        match r {
            Some(f) => spec_value_field(*value, key@) == Some(*f),
            None => spec_value_field(*value, key@) is None,
        },
{
    value.get(key)
}

/// Relies on serde_json::Value::as_str: the text of a JSON string value,
/// handed back as an owned string, deterministically in the value.
#[verifier::external_body]
pub fn value_str(value: &serde_json::Value) -> (r: Option<String>)
    ensures
        match r {
            Some(s) => spec_value_str(*value) == Some(s@),
            None => spec_value_str(*value) is None,
        },
{
    value.as_str().map(|s| s.to_owned())
}

} // verus!
