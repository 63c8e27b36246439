use ha_lint::config::{resolve_config, Args, EffectiveConfig};
use ha_lint::engine::{run_analysis, EngineOptions};
use ha_lint::model::{AnalysisResult, Diagnostic, Severity, Span};
use ha_lint::order::sort_diagnostics;
use ha_lint::render::{decimal_text, render_line, render_text, Format};
use ha_lint::run::{analyze, exit_code, plan_run, should_fail, LintError, EXIT_TOOL_ERROR};

fn two_diagnostics() -> AnalysisResult {
    AnalysisResult {
        tool_version: "0.1.0".to_string(),
        profile: "high_assurance".to_string(),
        diagnostics: vec![
            Diagnostic {
                rule_id: "HA-0002".to_string(),
                severity: Severity::Note,
                message: "tool-level note".to_string(),
                span: None,
                help_uri: None,
                cwe: vec![],
                profiles: vec![],
            },
            Diagnostic {
                rule_id: "HA-0001".to_string(),
                severity: Severity::Error,
                message: "unjustified unsafe".to_string(),
                span: Some(Span { file: "a.rs".to_string(), line: 5, col: 2 }),
                help_uri: Some("docs/HA-0001.md".to_string()),
                cwe: vec!["CWE-119".to_string()],
                profiles: vec!["high_assurance".to_string()],
            },
        ],
    }
}

fn cfg(profile: &str, format: &str, deny: &str) -> EffectiveConfig {
    EffectiveConfig { profile: profile.to_string(), format: format.to_string(), deny: deny.to_string() }
}

#[test]
fn two_diagnostics_text_and_exit() {
    let plan = plan_run(&cfg("high_assurance", "text", "warning")).unwrap();
    let mut r = two_diagnostics();
    sort_diagnostics(&mut r.diagnostics);
    let text = render_text(&r, false);
    let lines: Vec<&str> = text.lines().collect();
    assert_eq!(lines, vec!["ERROR HA-0001 unjustified unsafe  a.rs:5:2", "NOTE HA-0002 tool-level note"]);
    assert_eq!(text, "ERROR HA-0001 unjustified unsafe  a.rs:5:2\nNOTE HA-0002 tool-level note\n");
    assert_eq!(exit_code(&r, plan.deny), 1);
}

#[test]
fn quiet_does_not_change_text() {
    let r = two_diagnostics();
    assert_eq!(render_text(&r, true), render_text(&r, false));
}

#[test]
fn threshold_above_all_findings_passes() {
    let r = two_diagnostics();
    assert!(should_fail(&r, Severity::Note));
    assert!(should_fail(&r, Severity::Error));
    let mut notes = two_diagnostics();
    notes.diagnostics.remove(1);
    assert!(!should_fail(&notes, Severity::Warning));
    assert_eq!(exit_code(&notes, Severity::Warning), 0);
    assert_eq!(exit_code(&notes, Severity::Note), 1);
}

#[test]
fn empty_run_exits_clean() {
    for format in ["text", "json", "sarif"] {
        for deny in ["note", "warning", "error"] {
            let plan = plan_run(&cfg("embedded", format, deny)).unwrap();
            let r = analyze(&plan, "0.1.0");
            assert!(r.diagnostics.is_empty());
            assert_eq!(r.profile, "embedded");
            assert_eq!(r.tool_version, "0.1.0");
            assert_eq!(exit_code(&r, plan.deny), 0);
        }
    }
    let plan = plan_run(&cfg("p", "text", "note")).unwrap();
    assert_eq!(render_text(&analyze(&plan, "1"), false), "");
}

#[test]
fn unknown_format_is_tool_error() {
    let e = plan_run(&cfg("high_assurance", "xml", "error")).unwrap_err();
    assert_eq!(e, LintError::UnknownFormat("xml".to_string()));
    assert_eq!(e.exit_code(), 2);
    assert_eq!(e.message(), "Unknown --format: xml. Use text|json|sarif.");
}

#[test]
fn bogus_deny_fails_before_analysis() {
    let args = Args { deny: Some("bogus".to_string()), format: Some("xml".to_string()), ..Args::default() };
    let e = plan_run(&resolve_config(&args, &None)).unwrap_err();
    assert_eq!(e, LintError::InvalidSeverity("bogus".to_string()));
    assert_eq!(e.exit_code(), EXIT_TOOL_ERROR);
    assert_eq!(e.message(), "Invalid --deny level: bogus. Use note|warning|error.");
}

#[test]
fn error_messages_name_the_path() {
    assert_eq!(LintError::ConfigRead("c.toml".to_string()).message(), "Failed to read config file: c.toml");
    assert_eq!(LintError::ConfigParse("c.toml".to_string()).message(), "Failed to parse TOML config: c.toml");
    assert_eq!(LintError::OutputIo("/x/o".to_string()).message(), "Failed to create output file: /x/o");
}

#[test]
fn format_names() {
    assert_eq!(Format::parse("TEXT"), Some(Format::Text));
    assert_eq!(Format::parse("json"), Some(Format::Json));
    assert_eq!(Format::parse("Sarif"), Some(Format::Sarif));
    assert_eq!(Format::parse("xml"), None);
    assert_eq!(Format::parse(""), None);
}

#[test]
fn plan_keeps_values() {
    let plan = plan_run(&cfg("security", "JSON", "Warn")).unwrap();
    assert_eq!(plan.profile, "security");
    assert_eq!(plan.format, Format::Json);
    assert_eq!(plan.deny, Severity::Warning);
}

#[test]
fn decimal_numbers() {
    assert_eq!(decimal_text(0), "0");
    assert_eq!(decimal_text(7), "7");
    assert_eq!(decimal_text(10), "10");
    assert_eq!(decimal_text(4294967295), "4294967295");
}

#[test]
fn unspanned_line() {
    let r = two_diagnostics();
    assert_eq!(render_line(&r.diagnostics[0]), "NOTE HA-0002 tool-level note\n");
}

#[test]
fn engine_stub_carries_options() {
    let r = run_analysis(&EngineOptions { profile: "embedded".to_string(), tool_version: "9.9".to_string() });
    assert_eq!(r.profile, "embedded");
    assert_eq!(r.tool_version, "9.9");
    assert_eq!(r.max_severity(), None);
}

#[test]
fn report_dispatch_by_format() {
    let r = two_diagnostics();
    assert_eq!(ha_lint::run::render_report(&r, Format::Text, false), render_text(&r, false));
    assert_eq!(ha_lint::run::render_report(&r, Format::Json, true), ha_lint::json::render_json(&r));
    assert_eq!(
        ha_lint::run::render_report(&r, Format::Sarif, false),
        ha_lint::json::render_sarif_placeholder(&r)
    );
}
