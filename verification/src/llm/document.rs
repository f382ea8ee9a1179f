//! Documents read from model replies: the JSON and YAML value trees that the
//! reply parsers inspect, and the calls that read them from text.
use vstd::prelude::*;

verus! {

/// A JSON value as read from a reply. A number carries its decimal text as
/// the reader writes it: no reply field is ever read as a number.
#[derive(Debug)]
pub enum JsonValue {
    Null,
    Bool(bool),
    Number(String),
    Str(String),
    Array(Vec<JsonValue>),
    /// Members in the reader's key order; keys are distinct.
    Object(Vec<(String, JsonValue)>),
}

/// A YAML value as read from a reply. An integer carries its decimal text;
/// a floating-point number carries the text Rust's `Display` writes for it.
/// A tagged value keeps only the value under its tag.
#[derive(Debug)]
pub enum YamlValue {
    Null,
    Bool(bool),
    Integer(String),
    Float(String),
    Str(String),
    Sequence(Vec<YamlValue>),
    /// Entries in document order.
    Mapping(Vec<(YamlValue, YamlValue)>),
    Tagged(Box<YamlValue>),
}

/// `serde_json::Value`, opaque to proofs; it only passes from the reader
/// into `json_tree`.
#[verifier::external_type_specification]
#[verifier::external_body]
pub struct ExSerdeJsonValue(serde_json::Value);

/// `serde_yaml::Value`, opaque to proofs; it only passes from the reader
/// into `yaml_tree`.
#[verifier::external_type_specification]
#[verifier::external_body]
pub struct ExSerdeYamlValue(serde_yaml::Value);

/// The outcome of `serde_json::from_str::<serde_json::Value>` on a text: the
/// document it reads, or its error message.
pub uninterp spec fn json_document(text: Seq<char>) -> Result<JsonValue, Seq<char>>;

/// The outcome of `serde_yaml::from_str::<serde_yaml::Value>` on a text: the
/// document it reads, or its error message.
pub uninterp spec fn yaml_document(text: Seq<char>) -> Result<YamlValue, Seq<char>>;

/// Reads a JSON document with `serde_json::from_str::<serde_json::Value>`.
/// Claims only that the outcome is `json_document` of the text: the same
/// text always reads the same way. What serde_json accepts as JSON is not
/// stated.
#[verifier::external_body]
pub(crate) fn read_json(text: &str) -> (r: Result<JsonValue, String>)
    ensures
        match r {
            Ok(v) => json_document(text@) == Ok::<JsonValue, Seq<char>>(v),
            Err(m) => json_document(text@) == Err::<JsonValue, Seq<char>>(m@),
        },
{
    match serde_json::from_str::<serde_json::Value>(text) {
        Ok(v) => Ok(json_tree(v)),
        Err(e) => Err(e.to_string()),
    }
}

/// Reads a YAML document with `serde_yaml::from_str::<serde_yaml::Value>`.
/// Claims only that the outcome is `yaml_document` of the text. What
/// serde_yaml accepts as YAML is not stated.
#[verifier::external_body]
pub(crate) fn read_yaml(text: &str) -> (r: Result<YamlValue, String>)
    ensures
        match r {
            Ok(v) => yaml_document(text@) == Ok::<YamlValue, Seq<char>>(v),
            Err(m) => yaml_document(text@) == Err::<YamlValue, Seq<char>>(m@),
        },
{
    match serde_yaml::from_str::<serde_yaml::Value>(text) {
        Ok(v) => Ok(yaml_tree(v)),
        Err(e) => Err(e.to_string()),
    }
}

/// Part of `read_json`: moves a `serde_json::Value` into a `JsonValue`,
/// variant for variant.
#[verifier::external_body]
fn json_tree(v: serde_json::Value) -> JsonValue {
    match v {
        serde_json::Value::Null => JsonValue::Null,
        serde_json::Value::Bool(b) => JsonValue::Bool(b),
        serde_json::Value::Number(n) => JsonValue::Number(n.to_string()),
        serde_json::Value::String(s) => JsonValue::Str(s),
        serde_json::Value::Array(a) => JsonValue::Array(a.into_iter().map(json_tree).collect()),
        serde_json::Value::Object(m) => JsonValue::Object(
            m.into_iter().map(|(k, x)| (k, json_tree(x))).collect(),
        ),
    }
}

/// Part of `read_yaml`: moves a `serde_yaml::Value` into a `YamlValue`,
/// variant for variant.
#[verifier::external_body]
fn yaml_tree(v: serde_yaml::Value) -> YamlValue {
    match v {
        serde_yaml::Value::Null => YamlValue::Null,
        serde_yaml::Value::Bool(b) => YamlValue::Bool(b),
        serde_yaml::Value::Number(n) => yaml_number(n),
        serde_yaml::Value::String(s) => YamlValue::Str(s),
        serde_yaml::Value::Sequence(a) => YamlValue::Sequence(a.into_iter().map(yaml_tree).collect()),
        serde_yaml::Value::Mapping(m) => YamlValue::Mapping(
            m.into_iter().map(|(k, x)| (yaml_tree(k), yaml_tree(x))).collect(),
        ),
        serde_yaml::Value::Tagged(t) => YamlValue::Tagged(Box::new(yaml_tree(t.value))),
    }
}

/// `serde_yaml::Number`, opaque to proofs; it only passes into
/// `yaml_number`.
#[verifier::external_type_specification]
#[verifier::external_body]
pub struct ExSerdeYamlNumber(serde_yaml::Number);

/// Part of `yaml_tree`: a `serde_yaml::Number` as an integer with its
/// decimal text, or as a floating-point number (`is_f64`) with the text of
/// `Display` for the `as_f64` value.
#[verifier::external_body]
fn yaml_number(n: serde_yaml::Number) -> YamlValue {
    match (n.is_f64(), n.as_f64()) {
        (true, Some(x)) => YamlValue::Float(x.to_string()),
        _ => YamlValue::Integer(n.to_string()),
    }
}

/// The text `format!("{:?}", s)` gives for a string: the string quoted,
/// with escapes.
pub uninterp spec fn str_debug(s: Seq<char>) -> Seq<char>;

/// The quoted, escaped form of `s` (std's `Debug` for `str`). Claims only
/// that the result is `str_debug` of the text; the escaping rules are not
/// stated.
#[verifier::external_body]
pub(crate) fn debug_text(s: &str) -> (r: String)
    ensures
        r@ == str_debug(s@),
{
    format!("{:?}", s)
}

} // verus!
