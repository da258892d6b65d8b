//! The extras of `pack` in JSON output: the rendered document is parsed as
//! a JSON object, the extras are inserted as keys, and the document is
//! written out again, pretty-printed, with `serde_json`.
use vstd::prelude::*;

use crate::pack_extras::{PackExtras, SecurityIssueEntry, TokenTreeEntry};
use crate::text::decimal;

verus! {

/// `serde_json::Value`, carried through as an opaque value.
#[verifier::external_type_specification]
#[verifier::external_body]
pub struct ExJsonValue(serde_json::Value);

/// `serde_json::Map`, carried through as an opaque value.
#[verifier::external_type_specification]
#[verifier::external_body]
#[verifier::reject_recursive_types(K)]
#[verifier::reject_recursive_types(V)]
pub struct ExJsonMap<K, V>(serde_json::Map<K, V>);

/// `serde_json::Error`, carried through as an opaque value.
#[verifier::external_type_specification]
#[verifier::external_body]
pub struct ExJsonError(serde_json::Error);

/// What a text is as JSON.
#[derive(Clone, Copy, Debug, PartialEq, Eq, Structural)]
pub enum JsonShape {
    /// Not a JSON document.
    Invalid,
    /// A JSON document that is not an object.
    NotObject,
    /// A JSON object.
    Object,
}

/// What a JSON value holds: null, a boolean, a number (by the text
/// `serde_json` writes for it), a string, an array of values, or an object
/// from keys to values.
pub enum JsonTerm {
    Null,
    Bool(bool),
    Number(Seq<char>),
    Str(Seq<char>),
    Array(Seq<JsonTerm>),
    Object(Map<Seq<char>, JsonTerm>),
}

/// An object with no entries.
pub open spec fn no_entries() -> Map<Seq<char>, JsonTerm> {
    Map::empty()
}

/// What a `serde_json::Value` holds.
pub uninterp spec fn json_value_model(v: serde_json::Value) -> JsonTerm;

/// What each of a sequence of values holds.
pub open spec fn value_models(vs: Seq<serde_json::Value>) -> Seq<JsonTerm> {
    vs.map_values(|v: serde_json::Value| json_value_model(v))
}

/// The entries a `serde_json::Map` holds: each key with what its value holds.
pub uninterp spec fn json_map_entries(m: serde_json::Map<String, serde_json::Value>) -> Map<
    Seq<char>,
    JsonTerm,
>;

/// What `serde_json::from_str::<Value>` makes of `text`: its shape, and for
/// an object its entries.
pub uninterp spec fn json_parse_result(text: Seq<char>) -> (JsonShape, Map<Seq<char>, JsonTerm>);

/// What `serde_json::to_string_pretty` writes for the object with `entries`.
pub uninterp spec fn json_pretty(entries: Map<Seq<char>, JsonTerm>) -> Seq<char>;

/// Parses `text` with `serde_json::from_str` into a `Value` and tells an
/// object from the other kinds of value. Claimed: the outcome depends on the
/// text alone (`json_parse_result`); a parse error comes back as the error,
/// another kind of value as `None`, and an object with the entries it holds.
#[verifier::external_body]
fn json_object_from_str(text: &str) -> (r: Result<
    Option<serde_json::Map<String, serde_json::Value>>,
    serde_json::Error,
>)
    ensures
        match r {
            Err(_) => json_parse_result(text@).0 == JsonShape::Invalid,
            Ok(None) => json_parse_result(text@).0 == JsonShape::NotObject,
            Ok(Some(m)) => json_parse_result(text@).0 == JsonShape::Object && json_map_entries(m)
                == json_parse_result(text@).1,
        },
{
    match serde_json::from_str::<serde_json::Value>(text) {
        Ok(serde_json::Value::Object(m)) => Ok(Some(m)),
        Ok(serde_json::Value::Null) => Ok(None),
        Ok(serde_json::Value::Bool(_)) => Ok(None),
        Ok(serde_json::Value::Number(_)) => Ok(None),
        Ok(serde_json::Value::String(_)) => Ok(None),
        Ok(serde_json::Value::Array(_)) => Ok(None),
        Err(e) => Err(e),
    }
}

/// `serde_json::Map::new`: an empty map.
#[verifier::external_body]
fn json_new_map() -> (r: serde_json::Map<String, serde_json::Value>)
    ensures
        json_map_entries(r) == no_entries(),
{
    serde_json::Map::new()
}

/// `serde_json::Map::insert`: afterwards the key maps to the new value
/// (replacing an old one), and the other entries are as before.
#[verifier::external_body]
fn json_insert(
    m: &mut serde_json::Map<String, serde_json::Value>,
    key: &str,
    value: serde_json::Value,
)
    ensures
        json_map_entries(*final(m)) == json_map_entries(*old(m)).insert(key@, json_value_model(value)),
{
    m.insert(key.to_owned(), value);
}

/// `serde_json::Value::String` of a text: a JSON string holding it.
#[verifier::external_body]
fn json_text(s: &str) -> (r: serde_json::Value)
    ensures
        json_value_model(r) == JsonTerm::Str(s@),
{
    serde_json::Value::String(s.to_owned())
}

/// `serde_json::Value::from` a `u64`: a JSON number, written as the
/// number's decimal digits.
#[verifier::external_body]
fn json_number(n: u64) -> (r: serde_json::Value)
    ensures
        json_value_model(r) == JsonTerm::Number(decimal(n as nat)),
{
    serde_json::Value::from(n)
}

/// `serde_json::Value::Object` of a map: an object with the map's entries.
#[verifier::external_body]
fn json_object(m: serde_json::Map<String, serde_json::Value>) -> (r: serde_json::Value)
    ensures
        json_value_model(r) == JsonTerm::Object(json_map_entries(m)),
{
    serde_json::Value::Object(m)
}

/// `serde_json::Value::Array` of values: an array holding them in order.
#[verifier::external_body]
fn json_array(values: Vec<serde_json::Value>) -> (r: serde_json::Value)
    ensures
        json_value_model(r) == JsonTerm::Array(value_models(values@)),
{
    serde_json::Value::Array(values)
}

/// `serde_json::to_string_pretty` of the object `m`. Claimed: it succeeds,
/// and the text is determined by the map's entries (`json_pretty`). Writing
/// a `Value` into a string cannot fail: its keys are strings, its
/// serialization never reports an error, and the map is ordered by key.
#[verifier::external_body]
fn json_to_pretty(m: serde_json::Map<String, serde_json::Value>) -> (r: Result<
    String,
    serde_json::Error,
>)
    ensures
        r is Ok,
        r matches Ok(s) ==> s@ == json_pretty(json_map_entries(m)),
{
    serde_json::to_string_pretty(&serde_json::Value::Object(m))
}

/// A token-tree entry as a JSON object: `path` and `tokens`.
pub open spec fn token_entry_term(e: TokenTreeEntry) -> JsonTerm {
    JsonTerm::Object(
        Map::<Seq<char>, JsonTerm>::empty().insert("path"@, JsonTerm::Str(e.path@)).insert(
            "tokens"@,
            JsonTerm::Number(decimal(e.tokens as nat)),
        ),
    )
}

/// A security finding as a JSON object: `file`, `line`, `kind`, `severity`.
pub open spec fn issue_term(e: SecurityIssueEntry) -> JsonTerm {
    JsonTerm::Object(
        Map::<Seq<char>, JsonTerm>::empty().insert("file"@, JsonTerm::Str(e.file@)).insert(
            "line"@,
            JsonTerm::Number(decimal(e.line as nat)),
        ).insert("kind"@, JsonTerm::Str(e.kind@)).insert("severity"@, JsonTerm::Str(e.severity@)),
    )
}

/// Each token-tree entry as a JSON object.
pub open spec fn token_entry_terms(es: Seq<TokenTreeEntry>) -> Seq<JsonTerm> {
    es.map_values(|e: TokenTreeEntry| token_entry_term(e))
}

/// Each security finding as a JSON object.
pub open spec fn issue_terms(es: Seq<SecurityIssueEntry>) -> Seq<JsonTerm> {
    es.map_values(|e: SecurityIssueEntry| issue_term(e))
}

/// The `token_tree` value: the model's name and the files with their tokens.
pub open spec fn token_tree_term(model: Seq<char>, es: Seq<TokenTreeEntry>) -> JsonTerm {
    JsonTerm::Object(
        Map::<Seq<char>, JsonTerm>::empty().insert("model"@, JsonTerm::Str(model)).insert(
            "files"@,
            JsonTerm::Array(token_entry_terms(es)),
        ),
    )
}

/// The `security_scan` value: how many issues there are, and the issues.
pub open spec fn security_scan_term(es: Seq<SecurityIssueEntry>) -> JsonTerm {
    JsonTerm::Object(
        Map::<Seq<char>, JsonTerm>::empty().insert(
            "issues_found"@,
            JsonTerm::Number(decimal(es.len())),
        ).insert("issues"@, JsonTerm::Array(issue_terms(es))),
    )
}

/// The entries of a JSON document after the extras are inserted, in turn:
/// `header_text` and `instructions` as strings, `token_tree` and
/// `security_scan` as objects, each when that extra is present. Recent git
/// activity is not written in JSON output.
pub open spec fn with_json_extras(
    m: Map<Seq<char>, JsonTerm>,
    model: Seq<char>,
    x: PackExtras,
) -> Map<Seq<char>, JsonTerm> {
    let a = match x.header_text {
        Some(h) => m.insert("header_text"@, JsonTerm::Str(h@)),
        None => m,
    };
    let b = match x.instructions {
        Some(i) => a.insert("instructions"@, JsonTerm::Str(i@)),
        None => a,
    };
    let c = match x.token_tree {
        Some(es) => b.insert("token_tree"@, token_tree_term(model, es@)),
        None => b,
    };
    match x.security_issues {
        Some(es) => c.insert("security_scan"@, security_scan_term(es@)),
        None => c,
    }
}

/// A token-tree entry as a JSON object.
fn token_entry_object(e: &TokenTreeEntry) -> (r: serde_json::Value)
    ensures
        json_value_model(r) == token_entry_term(*e),
{
    let mut m = json_new_map();
    json_insert(&mut m, "path", json_text(e.path.as_str()));
    json_insert(&mut m, "tokens", json_number(e.tokens as u64));
    json_object(m)
}

/// A security finding as a JSON object.
fn issue_object(e: &SecurityIssueEntry) -> (r: serde_json::Value)
    ensures
        json_value_model(r) == issue_term(*e),
{
    let mut m = json_new_map();
    json_insert(&mut m, "file", json_text(e.file.as_str()));
    json_insert(&mut m, "line", json_number(e.line as u64));
    json_insert(&mut m, "kind", json_text(e.kind.as_str()));
    json_insert(&mut m, "severity", json_text(e.severity.as_str()));
    json_object(m)
}

/// The `token_tree` value; see `token_tree_term`.
fn token_tree_object(model_name: &str, entries: &Vec<TokenTreeEntry>) -> (r: serde_json::Value)
    ensures
        json_value_model(r) == token_tree_term(model_name@, entries@),
{
    let mut files: Vec<serde_json::Value> = Vec::new();
    let mut i: usize = 0;
    while i < entries.len()
        invariant
            i <= entries.len(),
            files.len() == i,
            value_models(files@) == token_entry_terms(entries@.take(i as int)),
        decreases entries.len() - i,
    {
        let v = token_entry_object(&entries[i]);
        let ghost before = files@;
        files.push(v);
        proof {
            assert(files@ == before.push(v));
            let t = entries@.take(i + 1);
            assert forall|k: int| 0 <= k < t.len() implies value_models(files@)[k]
                == token_entry_terms(t)[k] by {
                if k < i {
                    assert(files@[k] == before[k]);
                    assert(t[k] == entries@.take(i as int)[k]);
                    assert(value_models(before)[k] == token_entry_terms(entries@.take(i as int))[k]);
                } else {
                    assert(files@[k] == v);
                    assert(t[k] == entries@[i as int]);
                }
            }
            assert(value_models(files@) =~= token_entry_terms(t));
        }
        i = i + 1;
    }
    assert(entries@.take(entries.len() as int) == entries@);
    let mut m = json_new_map();
    json_insert(&mut m, "model", json_text(model_name));
    json_insert(&mut m, "files", json_array(files));
    json_object(m)
}

/// The `security_scan` value; see `security_scan_term`.
fn security_scan_object(entries: &Vec<SecurityIssueEntry>) -> (r: serde_json::Value)
    ensures
        json_value_model(r) == security_scan_term(entries@),
{
    let mut issues: Vec<serde_json::Value> = Vec::new();
    let mut i: usize = 0;
    while i < entries.len()
        invariant
            i <= entries.len(),
            issues.len() == i,
            value_models(issues@) == issue_terms(entries@.take(i as int)),
        decreases entries.len() - i,
    {
        let v = issue_object(&entries[i]);
        let ghost before = issues@;
        issues.push(v);
        proof {
            assert(issues@ == before.push(v));
            let t = entries@.take(i + 1);
            assert forall|k: int| 0 <= k < t.len() implies value_models(issues@)[k]
                == issue_terms(t)[k] by {
                if k < i {
                    assert(issues@[k] == before[k]);
                    assert(t[k] == entries@.take(i as int)[k]);
                    assert(value_models(before)[k] == issue_terms(entries@.take(i as int))[k]);
                } else {
                    assert(issues@[k] == v);
                    assert(t[k] == entries@[i as int]);
                }
            }
            assert(value_models(issues@) =~= issue_terms(t));
        }
        i = i + 1;
    }
    assert(entries@.take(entries.len() as int) == entries@);
    let mut m = json_new_map();
    json_insert(&mut m, "issues_found", json_number(entries.len() as u64));
    json_insert(&mut m, "issues", json_array(issues));
    json_object(m)
}

/// Inserts the extras into a JSON object as keys; see `with_json_extras`.
pub fn insert_json_extras(
    m: &mut serde_json::Map<String, serde_json::Value>,
    model_name: &str,
    extras: &PackExtras,
)
    ensures
        json_map_entries(*final(m)) == with_json_extras(
            json_map_entries(*old(m)),
            model_name@,
            *extras,
        ),
{
    match &extras.header_text {
        Some(h) => json_insert(m, "header_text", json_text(h.as_str())),
        None => {},
    }
    match &extras.instructions {
        Some(t) => json_insert(m, "instructions", json_text(t.as_str())),
        None => {},
    }
    match &extras.token_tree {
        Some(es) => json_insert(m, "token_tree", token_tree_object(model_name, es)),
        None => {},
    }
    match &extras.security_issues {
        Some(es) => json_insert(m, "security_scan", security_scan_object(es)),
        None => {},
    }
}

/// Why JSON output could not take its extras.
#[derive(Clone, Copy, Debug, PartialEq, Eq, Structural)]
pub enum JsonExtrasError {
    /// The output is not a JSON document.
    InvalidJson,
    /// The output is JSON, but not an object.
    NotAnObject,
}

/// What adding the extras to JSON output `out` gives: an error for text that
/// is not a JSON object (which of the two it is); for an object, the object
/// with the extras inserted (`with_json_extras`), pretty-printed.
pub open spec fn json_extras_outcome(
    out: Seq<char>,
    model: Seq<char>,
    x: PackExtras,
    r: Result<String, JsonExtrasError>,
) -> bool {
    match json_parse_result(out).0 {
        JsonShape::Invalid => r == Err::<String, JsonExtrasError>(JsonExtrasError::InvalidJson),
        JsonShape::NotObject => r == Err::<String, JsonExtrasError>(JsonExtrasError::NotAnObject),
        JsonShape::Object => r matches Ok(s) && s@ == json_pretty(
            with_json_extras(json_parse_result(out).1, model, x),
        ),
    }
}

/// Adds the extras to JSON output: the output must parse as a JSON object
/// (else `InvalidJson` or `NotAnObject`); the extras are inserted and the
/// object is written out again, pretty-printed.
pub fn json_with_extras(output_text: &str, model_name: &str, extras: &PackExtras) -> (r: Result<
    String,
    JsonExtrasError,
>)
    ensures
        json_extras_outcome(output_text@, model_name@, *extras, r),
{
    match json_object_from_str(output_text) {
        Err(_) => Err(JsonExtrasError::InvalidJson),
        Ok(None) => Err(JsonExtrasError::NotAnObject),
        Ok(Some(m)) => {
            let mut m = m;
            insert_json_extras(&mut m, model_name, extras);
            Ok(json_to_pretty(m).unwrap())
        },
    }
}

} // verus!
