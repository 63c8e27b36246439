use ha_lint::json::{render_json, render_sarif_placeholder};
use ha_lint::model::{AnalysisResult, Diagnostic, Severity, Span};
use serde_json::Value;

fn sample() -> AnalysisResult {
    AnalysisResult {
        tool_version: "0.1.0".to_string(),
        profile: "high_assurance".to_string(),
        diagnostics: vec![
            Diagnostic {
                rule_id: "HA-RUST-0001".to_string(),
                severity: Severity::Error,
                message: "Unjustified unsafe block (sample)".to_string(),
                span: Some(Span { file: "src/lib.rs".to_string(), line: 1, col: 1 }),
                help_uri: Some("docs/rules/HA-RUST-0001.md".to_string()),
                cwe: vec!["CWE-119".to_string()],
                profiles: vec!["high_assurance".to_string()],
            },
            Diagnostic {
                rule_id: "HA-0002".to_string(),
                severity: Severity::Note,
                message: "tool note \"quoted\"".to_string(),
                span: None,
                help_uri: None,
                cwe: vec![],
                profiles: vec![],
            },
        ],
    }
}

fn text(v: &Value, key: &str) -> String {
    v.get(key).and_then(Value::as_str).unwrap().to_string()
}

fn texts(v: &Value, key: &str) -> Vec<String> {
    v.get(key).and_then(Value::as_array).unwrap().iter().map(|x| x.as_str().unwrap().to_string()).collect()
}

fn read_back(v: &Value) -> AnalysisResult {
    let diagnostics = v
        .get("diagnostics")
        .and_then(Value::as_array)
        .unwrap()
        .iter()
        .map(|d| Diagnostic {
            rule_id: text(d, "rule_id"),
            severity: match text(d, "severity").as_str() {
                "Note" => Severity::Note,
                "Warning" => Severity::Warning,
                "Error" => Severity::Error,
                other => panic!("bad severity {other}"),
            },
            message: text(d, "message"),
            span: match d.get("span").unwrap() {
                Value::Null => None,
                s => Some(Span {
                    file: text(s, "file"),
                    line: s.get("line").and_then(Value::as_u64).unwrap() as u32,
                    col: s.get("col").and_then(Value::as_u64).unwrap() as u32,
                }),
            },
            help_uri: d.get("help_uri").unwrap().as_str().map(String::from),
            cwe: texts(d, "cwe"),
            profiles: texts(d, "profiles"),
        })
        .collect();
    AnalysisResult { tool_version: text(v, "tool_version"), profile: text(v, "profile"), diagnostics }
}

#[test]
fn json_round_trip() {
    let r = sample();
    let out = render_json(&r);
    assert!(out.ends_with("}\n"));
    assert!(!out.ends_with("\n\n"));
    assert!(out.contains("\n  \"diagnostics\": ["));
    let v: Value = serde_json::from_str(&out).unwrap();
    assert_eq!(read_back(&v), r);
    assert!(v["diagnostics"][1]["span"].is_null());
    assert!(v["diagnostics"][1]["help_uri"].is_null());
    assert_eq!(v["diagnostics"][1]["cwe"].as_array().unwrap().len(), 0);
}

#[test]
fn json_empty_diagnostics_present() {
    let r = AnalysisResult { tool_version: "1".to_string(), profile: "embedded".to_string(), diagnostics: vec![] };
    let out = render_json(&r);
    let v: Value = serde_json::from_str(&out).unwrap();
    assert_eq!(v["diagnostics"].as_array().map(|a| a.len()), Some(0));
    assert_eq!(read_back(&v), r);
}

#[test]
fn sarif_placeholder_fields() {
    let r = sample();
    let out = render_sarif_placeholder(&r);
    assert!(out.ends_with("}\n"));
    let v: Value = serde_json::from_str(&out).unwrap();
    assert_eq!(text(&v, "note"), "SARIF output is not implemented yet");
    assert_eq!(text(&v, "tool"), "cargo-ha-lint");
    assert_eq!(text(&v, "version"), "0.1.0");
    assert_eq!(text(&v, "profile"), "high_assurance");
    assert_eq!(v["diagnostics"].as_array().unwrap().len(), 2);
    assert_eq!(v["diagnostics"][0]["severity"], Value::String("Error".to_string()));
    assert_eq!(v["diagnostics"][0]["span"]["line"].as_u64(), Some(1));
}

#[test]
fn library_reads_back_its_json() {
    let r = sample();
    assert_eq!(ha_lint::json::result_from_json_text(&render_json(&r)), Some(r));
    let empty = AnalysisResult { tool_version: "2".to_string(), profile: "security".to_string(), diagnostics: vec![] };
    assert_eq!(ha_lint::json::result_from_json_text(&render_json(&empty)), Some(empty));
}

#[test]
fn reading_rejects_bad_documents() {
    assert_eq!(ha_lint::json::result_from_json_text("not json"), None);
    assert_eq!(ha_lint::json::result_from_json_text("[]"), None);
    assert_eq!(ha_lint::json::result_from_json_text("{\"tool_version\":\"1\",\"profile\":\"p\"}"), None);
    let bad_severity = "{\"tool_version\":\"1\",\"profile\":\"p\",\"diagnostics\":[{\"rule_id\":\"R\",\"severity\":\"Fatal\",\"message\":\"m\",\"span\":null,\"help_uri\":null,\"cwe\":[],\"profiles\":[]}]}";
    assert_eq!(ha_lint::json::result_from_json_text(bad_severity), None);
    let big_line = "{\"tool_version\":\"1\",\"profile\":\"p\",\"diagnostics\":[{\"rule_id\":\"R\",\"severity\":\"Note\",\"message\":\"m\",\"span\":{\"file\":\"f\",\"line\":4294967296,\"col\":1},\"help_uri\":null,\"cwe\":[],\"profiles\":[]}]}";
    assert_eq!(ha_lint::json::result_from_json_text(big_line), None);
}

#[test]
fn reading_ignores_unknown_keys_and_missing_nullables() {
    let text = "{\"extra\":1,\"tool_version\":\"1\",\"profile\":\"p\",\"diagnostics\":[{\"rule_id\":\"R\",\"severity\":\"Warning\",\"message\":\"m\",\"cwe\":[\"CWE-1\"],\"profiles\":[]}]}";
    let r = ha_lint::json::result_from_json_text(text).unwrap();
    assert_eq!(r.diagnostics.len(), 1);
    assert_eq!(r.diagnostics[0].severity, Severity::Warning);
    assert_eq!(r.diagnostics[0].span, None);
    assert_eq!(r.diagnostics[0].help_uri, None);
    assert_eq!(r.diagnostics[0].cwe, vec!["CWE-1".to_string()]);
}
