//! The JSON report and the SARIF placeholder, built as `serde_json` values.
use vstd::prelude::*;
use crate::model::{
    opt_text_view, span_view, texts_view, AnalysisResult, Diagnostic, DiagnosticView, ResultView,
    Severity, Span, SpanView,
};

verus! {

#[verifier::external_type_specification]
#[verifier::external_body]
pub struct ExJsonValue(serde_json::Value);

#[verifier::external_type_specification]
#[verifier::external_body]
#[verifier::reject_recursive_types(K)]
#[verifier::reject_recursive_types(V)]
pub struct ExJsonMap<K, V>(serde_json::Map<K, V>);

/// What a JSON value holds. A number is an integer, or else is kept as the
/// text it prints as. An object maps each key to its value.
pub enum Json {
    Null,
    Bool(bool),
    Int(int),
    Float(Seq<char>),
    Str(Seq<char>),
    Arr(Seq<Json>),
    Obj(Map<Seq<char>, Json>),
}

#[verifier::external_type_specification]
#[verifier::external_body]
pub struct ExJsonError(serde_json::Error);

/// What a `serde_json::Value` holds.
pub uninterp spec fn json_view(v: serde_json::Value) -> Json;

/// What a `serde_json::Map` holds.
pub uninterp spec fn json_map_view(m: serde_json::Map<String, serde_json::Value>) -> Map<
    Seq<char>,
    Json,
>;

/// The indented text that `serde_json` prints for a value.
pub uninterp spec fn pretty_json(j: Json) -> Seq<char>;

pub open spec fn json_views(vs: Seq<serde_json::Value>) -> Seq<Json> {
    vs.map_values(|v: serde_json::Value| json_view(v))
}

/// Relies on `serde_json::Value::Null`.
#[verifier::external_body]
fn json_null() -> (r: serde_json::Value)
    ensures
        json_view(r) == Json::Null,
{
    serde_json::Value::Null
}

/// Relies on `serde_json::Value::String`: the value holds the text as given.
#[verifier::external_body]
fn json_string(s: String) -> (r: serde_json::Value)
    ensures
        json_view(r) == Json::Str(s@),
{
    serde_json::Value::String(s)
}

/// Relies on `From<u64> for serde_json::Value`: the value is that integer.
#[verifier::external_body]
fn json_u64(n: u64) -> (r: serde_json::Value)
    ensures
        json_view(r) == Json::Int(n as int),
{
    serde_json::Value::from(n)
}

/// Relies on `serde_json::Value::Array`: the items, in order.
#[verifier::external_body]
fn json_array(items: Vec<serde_json::Value>) -> (r: serde_json::Value)
    ensures
        json_view(r) == Json::Arr(json_views(items@)),
{
    serde_json::Value::Array(items)
}

/// Relies on `serde_json::Value::Object`: the entries of the map.
#[verifier::external_body]
fn json_object(m: serde_json::Map<String, serde_json::Value>) -> (r: serde_json::Value)
    ensures
        json_view(r) == Json::Obj(json_map_view(m)),
{
    serde_json::Value::Object(m)
}

/// Relies on `serde_json::Map::new`: an empty map.
#[verifier::external_body]
fn json_map_new() -> (r: serde_json::Map<String, serde_json::Value>)
    ensures
        json_map_view(r) =~= Map::empty(),
{
    serde_json::Map::new()
}

/// Relies on `serde_json::Map::insert`: the key then maps to the value, and
/// the other entries stay.
#[verifier::external_body]
fn json_map_insert(m: &mut serde_json::Map<String, serde_json::Value>, k: String, v: serde_json::Value)
    ensures
        json_map_view(*final(m)) == json_map_view(*old(m)).insert(k@, json_view(v)),
{
    m.insert(k, v);
}

/// Relies on `Display for serde_json::Value` with the alternate flag, which
/// prints the value indented, as `serde_json::to_string_pretty` does.
#[verifier::external_body]
fn json_pretty_text(v: &serde_json::Value) -> (r: String)
    ensures
        r@ == pretty_json(json_view(*v)),
{
    format!("{:#}", v)
}

/// The value that `serde_json` reads from a text, if the text is JSON.
pub uninterp spec fn json_parse_of(s: Seq<char>) -> Option<Json>;

/// Relies on `serde_json::from_str` into a `Value`: it succeeds exactly on
/// JSON texts, and what it reads depends on the text alone.
#[verifier::external_body]
fn json_parse(text: &str) -> (r: Result<serde_json::Value, serde_json::Error>)
    ensures
        r is Ok <==> json_parse_of(text@) is Some,
        r matches Ok(v) ==> Some(json_view(v)) == json_parse_of(text@),
{
    serde_json::from_str(text)
}

/// Relies on `serde_json::Value::as_object`: the entries of an object.
#[verifier::external_body]
fn json_as_object(v: &serde_json::Value) -> (r: Option<&serde_json::Map<String, serde_json::Value>>)
    ensures
        r is Some <==> json_view(*v) is Obj,
        r matches Some(m) ==> json_view(*v) == Json::Obj(json_map_view(*m)),
{
    v.as_object()
}

/// Relies on `serde_json::Map::get`: the value under a key, if present.
#[verifier::external_body]
fn json_map_get<'a>(m: &'a serde_json::Map<String, serde_json::Value>, k: &str) -> (r: Option<
    &'a serde_json::Value,
>)
    ensures
        r is Some <==> json_map_view(*m).contains_key(k@),
        r matches Some(x) ==> json_view(*x) == json_map_view(*m)[k@],
{
    m.get(k)
}

/// Relies on `serde_json::Value::as_str`: the text of a string value.
#[verifier::external_body]
fn json_as_str(v: &serde_json::Value) -> (r: Option<&str>)
    ensures
        r is Some <==> json_view(*v) is Str,
        r matches Some(s) ==> json_view(*v) == Json::Str(s@),
{
    v.as_str()
}

/// Relies on `serde_json::Value::as_u64`: an integer from 0 to `u64::MAX`.
#[verifier::external_body]
fn json_as_u64(v: &serde_json::Value) -> (r: Option<u64>)
    ensures
        r == (match json_view(*v) {
            Json::Int(n) => if 0 <= n <= u64::MAX {
                Some(n as u64)
            } else {
                None
            },
            _ => None,
        }),
{
    v.as_u64()
}

/// Relies on `serde_json::Value::as_array`: the items of an array.
#[verifier::external_body]
fn json_as_array(v: &serde_json::Value) -> (r: Option<&Vec<serde_json::Value>>)
    ensures
        r is Some <==> json_view(*v) is Arr,
        r matches Some(a) ==> json_view(*v) == Json::Arr(json_views(a@)),
{
    v.as_array()
}

/// Relies on `serde_json::Value::is_null`.
#[verifier::external_body]
fn json_is_null(v: &serde_json::Value) -> (r: bool)
    ensures
        r == (json_view(*v) == Json::Null),
{
    v.is_null()
}

/// A severity in JSON: the name of its variant.
pub open spec fn severity_json(s: Severity) -> Json {
    match s {
        Severity::Note => Json::Str("Note"@),
        Severity::Warning => Json::Str("Warning"@),
        Severity::Error => Json::Str("Error"@),
    }
}

pub open spec fn opt_text_json(o: Option<String>) -> Json {
    match o {
        Some(s) => Json::Str(s@),
        None => Json::Null,
    }
}

pub open spec fn texts_json(v: Seq<String>) -> Json {
    Json::Arr(v.map_values(|s: String| Json::Str(s@)))
}

pub open spec fn span_json(o: Option<Span>) -> Json {
    match o {
        Some(sp) => Json::Obj(
            Map::empty().insert("file"@, Json::Str(sp.file@)).insert(
                "line"@,
                Json::Int(sp.line as int),
            ).insert("col"@, Json::Int(sp.col as int)),
        ),
        None => Json::Null,
    }
}

/// A diagnostic in JSON: an object with `rule_id`, `severity`, `message`,
/// `span` (null or `file`, `line`, `col`), `help_uri` (nullable), `cwe` and
/// `profiles`.
pub open spec fn diagnostic_json(d: Diagnostic) -> Json {
    Json::Obj(
        Map::empty().insert("rule_id"@, Json::Str(d.rule_id@)).insert(
            "severity"@,
            severity_json(d.severity),
        ).insert("message"@, Json::Str(d.message@)).insert("span"@, span_json(d.span)).insert(
            "help_uri"@,
            opt_text_json(d.help_uri),
        ).insert("cwe"@, texts_json(d.cwe@)).insert("profiles"@, texts_json(d.profiles@)),
    )
}

pub open spec fn diagnostics_json(ds: Seq<Diagnostic>) -> Json {
    Json::Arr(ds.map_values(|d: Diagnostic| diagnostic_json(d)))
}

/// A result in JSON: `tool_version`, `profile` and the `diagnostics` array.
pub open spec fn result_json(r: AnalysisResult) -> Json {
    Json::Obj(
        Map::empty().insert("tool_version"@, Json::Str(r.tool_version@)).insert(
            "profile"@,
            Json::Str(r.profile@),
        ).insert("diagnostics"@, diagnostics_json(r.diagnostics@)),
    )
}

/// The SARIF placeholder: a `note` that the real encoding is not there yet,
/// `tool`, `version`, `profile`, and the full diagnostic list.
pub open spec fn sarif_placeholder_json(r: AnalysisResult) -> Json {
    Json::Obj(
        Map::empty().insert("note"@, Json::Str("SARIF output is not implemented yet"@)).insert(
            "tool"@,
            Json::Str("cargo-ha-lint"@),
        ).insert("version"@, Json::Str(r.tool_version@)).insert("profile"@, Json::Str(r.profile@)).insert(
            "diagnostics"@,
            diagnostics_json(r.diagnostics@),
        ),
    )
}

fn text_value(s: &String) -> (r: serde_json::Value)
    ensures
        json_view(r) == Json::Str(s@),
{
    json_string(s.clone())
}

fn texts_value(v: &Vec<String>) -> (r: serde_json::Value)
    ensures
        json_view(r) == texts_json(v@),
{
    let mut items: Vec<serde_json::Value> = Vec::new();
    let n = v.len();
    let mut i: usize = 0;
    while i < n
        invariant
            n == v@.len(),
            i <= n,
            items@.len() == i,
            json_views(items@) =~= v@.take(i as int).map_values(|s: String| Json::Str(s@)),
        decreases n - i,
    {
        let x = text_value(&v[i]);
        let ghost prev = items@;
        items.push(x);
        proof {
            let want = v@.take(i + 1).map_values(|s: String| Json::Str(s@));
            assert forall|k: int| 0 <= k < i + 1 implies json_views(items@)[k] == want[k] by {
                if k < i {
                    assert(items@[k] == prev[k]);
                    assert(json_views(prev)[k] == v@.take(i as int).map_values(
                        |s: String| Json::Str(s@),
                    )[k]);
                }
            }
            assert(json_views(items@) =~= want);
        }
        i = i + 1;
    }
    assert(v@.take(n as int) =~= v@);
    json_array(items)
}

fn severity_value(s: Severity) -> (r: serde_json::Value)
    ensures
        json_view(r) == severity_json(s),
{
    let name = match s {
        Severity::Note => "Note",
        Severity::Warning => "Warning",
        Severity::Error => "Error",
    };
    json_string(name.to_owned())
}

fn span_value(o: &Option<Span>) -> (r: serde_json::Value)
    ensures
        json_view(r) == span_json(*o),
{
    match o {
        Some(sp) => {
            let mut m = json_map_new();
            json_map_insert(&mut m, "file".to_owned(), text_value(&sp.file));
            json_map_insert(&mut m, "line".to_owned(), json_u64(sp.line as u64));
            json_map_insert(&mut m, "col".to_owned(), json_u64(sp.col as u64));
            json_object(m)
        },
        None => json_null(),
    }
}

/// A diagnostic as a JSON value.
pub fn diagnostic_value(d: &Diagnostic) -> (r: serde_json::Value)
    ensures
        json_view(r) == diagnostic_json(*d),
{
    let mut m = json_map_new();
    json_map_insert(&mut m, "rule_id".to_owned(), text_value(&d.rule_id));
    json_map_insert(&mut m, "severity".to_owned(), severity_value(d.severity));
    json_map_insert(&mut m, "message".to_owned(), text_value(&d.message));
    json_map_insert(&mut m, "span".to_owned(), span_value(&d.span));
    let uri = match &d.help_uri {
        Some(u) => text_value(u),
        None => json_null(),
    };
    json_map_insert(&mut m, "help_uri".to_owned(), uri);
    json_map_insert(&mut m, "cwe".to_owned(), texts_value(&d.cwe));
    json_map_insert(&mut m, "profiles".to_owned(), texts_value(&d.profiles));
    json_object(m)
}

fn diagnostics_value(ds: &Vec<Diagnostic>) -> (r: serde_json::Value)
    ensures
        json_view(r) == diagnostics_json(ds@),
{
    let mut items: Vec<serde_json::Value> = Vec::new();
    let n = ds.len();
    let mut i: usize = 0;
    while i < n
        invariant
            n == ds@.len(),
            i <= n,
            items@.len() == i,
            json_views(items@) =~= ds@.take(i as int).map_values(|d: Diagnostic| diagnostic_json(d)),
        decreases n - i,
    {
        let x = diagnostic_value(&ds[i]);
        let ghost prev = items@;
        items.push(x);
        proof {
            let want = ds@.take(i + 1).map_values(|d: Diagnostic| diagnostic_json(d));
            assert forall|k: int| 0 <= k < i + 1 implies json_views(items@)[k] == want[k] by {
                if k < i {
                    assert(items@[k] == prev[k]);
                    assert(json_views(prev)[k] == ds@.take(i as int).map_values(
                        |d: Diagnostic| diagnostic_json(d),
                    )[k]);
                }
            }
            assert(json_views(items@) =~= want);
        }
        i = i + 1;
    }
    assert(ds@.take(n as int) =~= ds@);
    json_array(items)
}

/// A result as a JSON value.
pub fn result_value(result: &AnalysisResult) -> (r: serde_json::Value)
    ensures
        json_view(r) == result_json(*result),
{
    let mut m = json_map_new();
    json_map_insert(&mut m, "tool_version".to_owned(), text_value(&result.tool_version));
    json_map_insert(&mut m, "profile".to_owned(), text_value(&result.profile));
    json_map_insert(&mut m, "diagnostics".to_owned(), diagnostics_value(&result.diagnostics));
    json_object(m)
}

/// The JSON report: the whole result, indented, and one trailing newline.
pub fn render_json(result: &AnalysisResult) -> (r: String)
    ensures
        r@ == pretty_json(result_json(*result)) + seq!['\n'],
{
    proof {
        reveal_strlit("\n");
    }
    let v = result_value(result);
    let mut text = json_pretty_text(&v);
    text.append("\n");
    text
}

/// The SARIF placeholder report, indented, and one trailing newline.
pub fn render_sarif_placeholder(result: &AnalysisResult) -> (r: String)
    ensures
        r@ == pretty_json(sarif_placeholder_json(*result)) + seq!['\n'],
{
    proof {
        reveal_strlit("\n");
    }
    let mut m = json_map_new();
    json_map_insert(&mut m, "note".to_owned(), json_string("SARIF output is not implemented yet".to_owned()));
    json_map_insert(&mut m, "tool".to_owned(), json_string("cargo-ha-lint".to_owned()));
    json_map_insert(&mut m, "version".to_owned(), text_value(&result.tool_version));
    json_map_insert(&mut m, "profile".to_owned(), text_value(&result.profile));
    json_map_insert(&mut m, "diagnostics".to_owned(), diagnostics_value(&result.diagnostics));
    let v = json_object(m);
    let mut text = json_pretty_text(&v);
    text.append("\n");
    text
}

/// The value under key `k`; a missing key reads as `null`.
pub open spec fn field(j: Json, k: Seq<char>) -> Json {
    match j {
        Json::Obj(m) => if m.contains_key(k) {
            m[k]
        } else {
            Json::Null
        },
        _ => Json::Null,
    }
}

pub open spec fn text_of(j: Json) -> Option<Seq<char>> {
    match j {
        Json::Str(s) => Some(s),
        _ => None,
    }
}

/// A nullable text: `null` reads as `None`.
pub open spec fn opt_text_of(j: Json) -> Option<Option<Seq<char>>> {
    match j {
        Json::Null => Some(None),
        Json::Str(s) => Some(Some(s)),
        _ => None,
    }
}

pub open spec fn u32_of(j: Json) -> Option<u32> {
    match j {
        Json::Int(n) => if 0 <= n <= u32::MAX {
            Some(n as u32)
        } else {
            None
        },
        _ => None,
    }
}

pub open spec fn severity_of_json(j: Json) -> Option<Severity> {
    if j == Json::Str("Note"@) {
        Some(Severity::Note)
    } else if j == Json::Str("Warning"@) {
        Some(Severity::Warning)
    } else if j == Json::Str("Error"@) {
        Some(Severity::Error)
    } else {
        None
    }
}

pub open spec fn span_of(j: Json) -> Option<Option<SpanView>> {
    if j == Json::Null {
        Some(None)
    } else if j is Obj && text_of(field(j, "file"@)) is Some && u32_of(field(j, "line"@)) is Some
        && u32_of(field(j, "col"@)) is Some {
        Some(
            Some(
                SpanView {
                    file: text_of(field(j, "file"@))->0,
                    line: u32_of(field(j, "line"@))->0,
                    col: u32_of(field(j, "col"@))->0,
                },
            ),
        )
    } else {
        None
    }
}

pub open spec fn texts_of(j: Json) -> Option<Seq<Seq<char>>> {
    match j {
        Json::Arr(items) => if forall|i: int| 0 <= i < items.len() ==> (#[trigger] items[i]) is Str {
            Some(items.map_values(|x: Json| x->Str_0))
        } else {
            None
        },
        _ => None,
    }
}

/// The diagnostic that a JSON value describes, if it describes one.
pub open spec fn diagnostic_of(j: Json) -> Option<DiagnosticView> {
    if j is Obj && text_of(field(j, "rule_id"@)) is Some && severity_of_json(field(j, "severity"@))
        is Some && text_of(field(j, "message"@)) is Some && span_of(field(j, "span"@)) is Some
        && opt_text_of(field(j, "help_uri"@)) is Some && texts_of(field(j, "cwe"@)) is Some
        && texts_of(field(j, "profiles"@)) is Some {
        Some(
            DiagnosticView {
                rule_id: text_of(field(j, "rule_id"@))->0,
                severity: severity_of_json(field(j, "severity"@))->0,
                message: text_of(field(j, "message"@))->0,
                span: span_of(field(j, "span"@))->0,
                help_uri: opt_text_of(field(j, "help_uri"@))->0,
                cwe: texts_of(field(j, "cwe"@))->0,
                profiles: texts_of(field(j, "profiles"@))->0,
            },
        )
    } else {
        None
    }
}

pub open spec fn diagnostics_of(j: Json) -> Option<Seq<DiagnosticView>> {
    match j {
        Json::Arr(items) => if forall|i: int|
            0 <= i < items.len() ==> (#[trigger] diagnostic_of(items[i])) is Some {
            Some(items.map_values(|x: Json| diagnostic_of(x)->0))
        } else {
            None
        },
        _ => None,
    }
}

/// The result that a JSON value describes, if it describes one. Keys that
/// are not read are ignored; a missing nullable key reads as `null`.
pub open spec fn result_of(j: Json) -> Option<ResultView> {
    if j is Obj && text_of(field(j, "tool_version"@)) is Some && text_of(field(j, "profile"@)) is Some
        && diagnostics_of(field(j, "diagnostics"@)) is Some {
        Some(
            ResultView {
                tool_version: text_of(field(j, "tool_version"@))->0,
                profile: text_of(field(j, "profile"@))->0,
                diagnostics: diagnostics_of(field(j, "diagnostics"@))->0,
            },
        )
    } else {
        None
    }
}

proof fn lemma_texts_round_trip(v: Seq<String>)
    ensures
        texts_of(texts_json(v)) == Some(texts_view(v)),
{
    let items = v.map_values(|s: String| Json::Str(s@));
    assert forall|i: int| 0 <= i < items.len() implies (#[trigger] items[i]) is Str by {}
    assert(items.map_values(|x: Json| x->Str_0) =~= texts_view(v));
}

proof fn lemma_diagnostic_round_trip(d: Diagnostic)
    ensures
        diagnostic_of(diagnostic_json(d)) == Some(d@),
{
    reveal_strlit("rule_id");
    reveal_strlit("severity");
    reveal_strlit("message");
    reveal_strlit("span");
    reveal_strlit("help_uri");
    reveal_strlit("cwe");
    reveal_strlit("profiles");
    reveal_strlit("file");
    reveal_strlit("line");
    reveal_strlit("col");
    reveal_strlit("Note");
    reveal_strlit("Warning");
    reveal_strlit("Error");
    lemma_texts_round_trip(d.cwe@);
    lemma_texts_round_trip(d.profiles@);
    assert("rule_id"@ != "severity"@) by { assert("rule_id"@[0] != "severity"@[0] || "rule_id"@.len() != "severity"@.len() || "rule_id"@[1] != "severity"@[1]); }
    assert("rule_id"@ != "message"@) by { assert("rule_id"@[0] != "message"@[0] || "rule_id"@.len() != "message"@.len() || "rule_id"@[1] != "message"@[1]); }
    assert("rule_id"@ != "span"@) by { assert("rule_id"@[0] != "span"@[0] || "rule_id"@.len() != "span"@.len() || "rule_id"@[1] != "span"@[1]); }
    assert("rule_id"@ != "help_uri"@) by { assert("rule_id"@[0] != "help_uri"@[0] || "rule_id"@.len() != "help_uri"@.len() || "rule_id"@[1] != "help_uri"@[1]); }
    assert("rule_id"@ != "cwe"@) by { assert("rule_id"@[0] != "cwe"@[0] || "rule_id"@.len() != "cwe"@.len() || "rule_id"@[1] != "cwe"@[1]); }
    assert("rule_id"@ != "profiles"@) by { assert("rule_id"@[0] != "profiles"@[0] || "rule_id"@.len() != "profiles"@.len() || "rule_id"@[1] != "profiles"@[1]); }
    assert("severity"@ != "message"@) by { assert("severity"@[0] != "message"@[0] || "severity"@.len() != "message"@.len() || "severity"@[1] != "message"@[1]); }
    assert("severity"@ != "span"@) by { assert("severity"@[0] != "span"@[0] || "severity"@.len() != "span"@.len() || "severity"@[1] != "span"@[1]); }
    assert("severity"@ != "help_uri"@) by { assert("severity"@[0] != "help_uri"@[0] || "severity"@.len() != "help_uri"@.len() || "severity"@[1] != "help_uri"@[1]); }
    assert("severity"@ != "cwe"@) by { assert("severity"@[0] != "cwe"@[0] || "severity"@.len() != "cwe"@.len() || "severity"@[1] != "cwe"@[1]); }
    assert("severity"@ != "profiles"@) by { assert("severity"@[0] != "profiles"@[0] || "severity"@.len() != "profiles"@.len() || "severity"@[1] != "profiles"@[1]); }
    assert("message"@ != "span"@) by { assert("message"@[0] != "span"@[0] || "message"@.len() != "span"@.len() || "message"@[1] != "span"@[1]); }
    assert("message"@ != "help_uri"@) by { assert("message"@[0] != "help_uri"@[0] || "message"@.len() != "help_uri"@.len() || "message"@[1] != "help_uri"@[1]); }
    assert("message"@ != "cwe"@) by { assert("message"@[0] != "cwe"@[0] || "message"@.len() != "cwe"@.len() || "message"@[1] != "cwe"@[1]); }
    assert("message"@ != "profiles"@) by { assert("message"@[0] != "profiles"@[0] || "message"@.len() != "profiles"@.len() || "message"@[1] != "profiles"@[1]); }
    assert("span"@ != "help_uri"@) by { assert("span"@[0] != "help_uri"@[0] || "span"@.len() != "help_uri"@.len() || "span"@[1] != "help_uri"@[1]); }
    assert("span"@ != "cwe"@) by { assert("span"@[0] != "cwe"@[0] || "span"@.len() != "cwe"@.len() || "span"@[1] != "cwe"@[1]); }
    assert("span"@ != "profiles"@) by { assert("span"@[0] != "profiles"@[0] || "span"@.len() != "profiles"@.len() || "span"@[1] != "profiles"@[1]); }
    assert("help_uri"@ != "cwe"@) by { assert("help_uri"@[0] != "cwe"@[0] || "help_uri"@.len() != "cwe"@.len() || "help_uri"@[1] != "cwe"@[1]); }
    assert("help_uri"@ != "profiles"@) by { assert("help_uri"@[0] != "profiles"@[0] || "help_uri"@.len() != "profiles"@.len() || "help_uri"@[1] != "profiles"@[1]); }
    assert("cwe"@ != "profiles"@) by { assert("cwe"@[0] != "profiles"@[0] || "cwe"@.len() != "profiles"@.len() || "cwe"@[1] != "profiles"@[1]); }
    assert("file"@ != "line"@) by {
        assert("file"@[0] != "line"@[0]);
    }
    assert("file"@ != "col"@) by {
        assert("file"@[0] != "col"@[0]);
    }
    assert("line"@ != "col"@) by {
        assert("line"@[0] != "col"@[0]);
    }
    let j = diagnostic_json(d);
    assert(field(j, "rule_id"@) == Json::Str(d.rule_id@));
    assert(field(j, "severity"@) == severity_json(d.severity));
    assert(field(j, "message"@) == Json::Str(d.message@));
    assert(field(j, "span"@) == span_json(d.span));
    assert(field(j, "help_uri"@) == opt_text_json(d.help_uri));
    assert(field(j, "cwe"@) == texts_json(d.cwe@));
    assert(field(j, "profiles"@) == texts_json(d.profiles@));
    if d.span is Some {
        let sj = span_json(d.span);
        assert(field(sj, "file"@) == Json::Str(d.span->0.file@));
        assert(field(sj, "line"@) == Json::Int(d.span->0.line as int));
        assert(field(sj, "col"@) == Json::Int(d.span->0.col as int));
    }
    assert("Note"@ != "Warning"@ && "Note"@ != "Error"@ && "Warning"@ != "Error"@) by {
        assert("Note"@[0] != "Warning"@[0] && "Note"@[0] != "Error"@[0] && "Warning"@[0]
            != "Error"@[0]);
    }
    assert(severity_of_json(severity_json(d.severity)) == Some(d.severity));
    assert(span_of(span_json(d.span)) == Some(span_view(d.span)));
    assert(opt_text_of(opt_text_json(d.help_uri)) == Some(opt_text_view(d.help_uri)));
}

/// Reading back the JSON form of a result gives the same result, field for
/// field, including null spans and empty `cwe` and `profiles` lists.
pub proof fn lemma_result_json_round_trip(r: AnalysisResult)
    ensures
        result_of(result_json(r)) == Some(r@),
{
    reveal_strlit("tool_version");
    reveal_strlit("profile");
    reveal_strlit("diagnostics");
    assert("tool_version"@ != "profile"@) by { assert("tool_version"@[0] != "profile"@[0]); }
    assert("tool_version"@ != "diagnostics"@) by { assert("tool_version"@[0] != "diagnostics"@[0]); }
    assert("profile"@ != "diagnostics"@) by { assert("profile"@[0] != "diagnostics"@[0]); }
    let j = result_json(r);
    assert(field(j, "tool_version"@) == Json::Str(r.tool_version@));
    assert(field(j, "profile"@) == Json::Str(r.profile@));
    assert(field(j, "diagnostics"@) == diagnostics_json(r.diagnostics@));
    let items = r.diagnostics@.map_values(|d: Diagnostic| diagnostic_json(d));
    assert forall|i: int| 0 <= i < items.len() implies (#[trigger] diagnostic_of(items[i])) is Some
        && diagnostic_of(items[i])->0 == r.diagnostics@[i]@ by {
        lemma_diagnostic_round_trip(r.diagnostics@[i]);
    }
    assert(items.map_values(|x: Json| diagnostic_of(x)->0) =~= r.diagnostics@.map_values(
        |d: Diagnostic| d@,
    ));
}

/// The value under `k` in `m`, or `null` when the key is missing.
pub open spec fn map_field(m: serde_json::Map<String, serde_json::Value>, k: Seq<char>) -> Json {
    field(Json::Obj(json_map_view(m)), k)
}

fn text_from(v: &serde_json::Value) -> (r: Option<String>)
    ensures
        r is Some <==> text_of(json_view(*v)) is Some,
        r matches Some(s) ==> Some(s@) == text_of(json_view(*v)),
{
    match json_as_str(v) {
        Some(s) => Some(s.to_owned()),
        None => None,
    }
}

fn text_field(m: &serde_json::Map<String, serde_json::Value>, k: &str) -> (r: Option<String>)
    ensures
        r is Some <==> text_of(map_field(*m, k@)) is Some,
        r matches Some(s) ==> Some(s@) == text_of(map_field(*m, k@)),
{
    match json_map_get(m, k) {
        Some(v) => text_from(v),
        None => None,
    }
}

fn opt_text_field(m: &serde_json::Map<String, serde_json::Value>, k: &str) -> (r: Option<
    Option<String>,
>)
    ensures
        r is Some <==> opt_text_of(map_field(*m, k@)) is Some,
        r matches Some(o) ==> Some(opt_text_view(o)) == opt_text_of(map_field(*m, k@)),
{
    match json_map_get(m, k) {
        Some(v) => if json_is_null(v) {
            Some(None)
        } else {
            match text_from(v) {
                Some(s) => Some(Some(s)),
                None => None,
            }
        },
        None => Some(None),
    }
}

fn u32_field(m: &serde_json::Map<String, serde_json::Value>, k: &str) -> (r: Option<u32>)
    ensures
        r == u32_of(map_field(*m, k@)),
{
    match json_map_get(m, k) {
        Some(v) => match json_as_u64(v) {
            Some(n) => if n <= 0xffff_ffff {
                Some(n as u32)
            } else {
                None
            },
            None => None,
        },
        None => None,
    }
}

fn severity_field(m: &serde_json::Map<String, serde_json::Value>, k: &str) -> (r: Option<Severity>)
    ensures
        r == severity_of_json(map_field(*m, k@)),
{
    match text_field(m, k) {
        Some(s) => if crate::order::text_eq(s.as_str(), "Note") {
            Some(Severity::Note)
        } else if crate::order::text_eq(s.as_str(), "Warning") {
            Some(Severity::Warning)
        } else if crate::order::text_eq(s.as_str(), "Error") {
            Some(Severity::Error)
        } else {
            None
        },
        None => None,
    }
}

fn span_field(m: &serde_json::Map<String, serde_json::Value>, k: &str) -> (r: Option<Option<Span>>)
    ensures
        r is Some <==> span_of(map_field(*m, k@)) is Some,
        r matches Some(o) ==> Some(span_view(o)) == span_of(map_field(*m, k@)),
{
    let v = match json_map_get(m, k) {
        Some(v) => v,
        None => {
            return Some(None);
        },
    };
    if json_is_null(v) {
        return Some(None);
    }
    let sm = match json_as_object(v) {
        Some(sm) => sm,
        None => {
            return None;
        },
    };
    proof {
        reveal_strlit("file");
        reveal_strlit("line");
        reveal_strlit("col");
    }
    let file = text_field(sm, "file");
    let line = u32_field(sm, "line");
    let col = u32_field(sm, "col");
    match (file, line, col) {
        (Some(file), Some(line), Some(col)) => Some(Some(Span { file, line, col })),
        _ => None,
    }
}

fn texts_field(m: &serde_json::Map<String, serde_json::Value>, k: &str) -> (r: Option<Vec<String>>)
    ensures
        r is Some <==> texts_of(map_field(*m, k@)) is Some,
        r matches Some(v) ==> Some(texts_view(v@)) == texts_of(map_field(*m, k@)),
{
    let fv = match json_map_get(m, k) {
        Some(v) => v,
        None => {
            return None;
        },
    };
    let items = match json_as_array(fv) {
        Some(a) => a,
        None => {
            return None;
        },
    };
    let ghost js = json_views(items@);
    assert(map_field(*m, k@) == Json::Arr(js));
    let mut out: Vec<String> = Vec::new();
    let n = items.len();
    let mut i: usize = 0;
    while i < n
        invariant
            n == items@.len(),
            js == json_views(items@),
            map_field(*m, k@) == Json::Arr(js),
            i <= n,
            out@.len() == i,
            forall|q: int| 0 <= q < i ==> (#[trigger] js[q]) is Str,
            forall|q: int| 0 <= q < i ==> Json::Str(#[trigger] out@[q]@) == js[q],
        decreases n - i,
    {
        match text_from(&items[i]) {
            Some(s) => {
                out.push(s);
            },
            None => {
                assert(!(js[i as int] is Str));
                return None;
            },
        }
        i = i + 1;
    }
    assert(texts_view(out@) =~= js.map_values(|x: Json| x->Str_0));
    Some(out)
}

/// Reads a diagnostic from its JSON form.
pub fn diagnostic_from_value(v: &serde_json::Value) -> (r: Option<Diagnostic>)
    ensures
        r is Some <==> diagnostic_of(json_view(*v)) is Some,
        r matches Some(d) ==> Some(d@) == diagnostic_of(json_view(*v)),
{
    let m = match json_as_object(v) {
        Some(m) => m,
        None => {
            return None;
        },
    };
    let rule_id = text_field(m, "rule_id");
    let severity = severity_field(m, "severity");
    let message = text_field(m, "message");
    let span = span_field(m, "span");
    let help_uri = opt_text_field(m, "help_uri");
    let cwe = texts_field(m, "cwe");
    let profiles = texts_field(m, "profiles");
    match (rule_id, severity, message, span, help_uri, cwe, profiles) {
        (Some(rule_id), Some(severity), Some(message), Some(span), Some(help_uri), Some(cwe), Some(profiles)) => {
            Some(Diagnostic { rule_id, severity, message, span, help_uri, cwe, profiles })
        },
        _ => None,
    }
}

fn diagnostics_field(m: &serde_json::Map<String, serde_json::Value>, k: &str) -> (r: Option<
    Vec<Diagnostic>,
>)
    ensures
        r is Some <==> diagnostics_of(map_field(*m, k@)) is Some,
        r matches Some(v) ==> Some(v@.map_values(|d: Diagnostic| d@)) == diagnostics_of(
            map_field(*m, k@),
        ),
{
    let fv = match json_map_get(m, k) {
        Some(v) => v,
        None => {
            return None;
        },
    };
    let items = match json_as_array(fv) {
        Some(a) => a,
        None => {
            return None;
        },
    };
    let ghost js = json_views(items@);
    assert(map_field(*m, k@) == Json::Arr(js));
    let mut out: Vec<Diagnostic> = Vec::new();
    let n = items.len();
    let mut i: usize = 0;
    while i < n
        invariant
            n == items@.len(),
            js == json_views(items@),
            map_field(*m, k@) == Json::Arr(js),
            i <= n,
            out@.len() == i,
            forall|q: int| 0 <= q < i ==> (#[trigger] diagnostic_of(js[q])) is Some,
            forall|q: int| 0 <= q < i ==> Some(#[trigger] out@[q]@) == diagnostic_of(js[q]),
        decreases n - i,
    {
        match diagnostic_from_value(&items[i]) {
            Some(d) => {
                out.push(d);
            },
            None => {
                assert(!(diagnostic_of(js[i as int]) is Some));
                return None;
            },
        }
        i = i + 1;
    }
    assert(out@.map_values(|d: Diagnostic| d@) =~= js.map_values(|x: Json| diagnostic_of(x)->0));
    Some(out)
}

/// Reads a result from its JSON form; keys it does not read are ignored.
pub fn result_from_value(v: &serde_json::Value) -> (r: Option<AnalysisResult>)
    ensures
        r is Some <==> result_of(json_view(*v)) is Some,
        r matches Some(x) ==> Some(x@) == result_of(json_view(*v)),
{
    let m = match json_as_object(v) {
        Some(m) => m,
        None => {
            return None;
        },
    };
    let tool_version = text_field(m, "tool_version");
    let profile = text_field(m, "profile");
    let diagnostics = diagnostics_field(m, "diagnostics");
    match (tool_version, profile, diagnostics) {
        (Some(tool_version), Some(profile), Some(diagnostics)) => Some(
            AnalysisResult { tool_version, profile, diagnostics },
        ),
        _ => None,
    }
}

/// Reads a result back from a JSON report.
pub fn result_from_json_text(text: &str) -> (r: Option<AnalysisResult>)
    ensures
        json_parse_of(text@) is None ==> r is None,
        json_parse_of(text@) matches Some(j) ==> (r is Some <==> result_of(j) is Some),
        r matches Some(x) ==> json_parse_of(text@) matches Some(j) && Some(x@) == result_of(j),
{
    match json_parse(text) {
        Ok(v) => result_from_value(&v),
        Err(_) => None,
    }
}

} // verus!
