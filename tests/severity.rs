use ha_lint::model::{AnalysisResult, Diagnostic, Severity, Span};

#[test]
fn parse_inverts_as_str() {
    for s in [Severity::Note, Severity::Warning, Severity::Error] {
        assert_eq!(Severity::parse(s.as_str()), Some(s));
    }
}

#[test]
fn declared_order_holds() {
    assert!(Severity::Note < Severity::Warning);
    assert!(Severity::Warning < Severity::Error);
    assert!(Severity::Note.level() < Severity::Warning.level());
    assert!(Severity::Warning.level() < Severity::Error.level());
    assert!(Severity::Error.at_least(&Severity::Warning));
    assert!(!Severity::Note.at_least(&Severity::Warning));
    assert!(Severity::Warning.at_least(&Severity::Warning));
}

#[test]
fn aliases_and_case() {
    assert_eq!(Severity::parse("WARN"), Severity::parse("Warning"));
    assert_eq!(Severity::parse("WARN"), Some(Severity::Warning));
    assert_eq!(Severity::parse("err"), Some(Severity::Error));
    assert_eq!(Severity::parse("ErRoR"), Some(Severity::Error));
    assert_eq!(Severity::parse("NOTE"), Some(Severity::Note));
}

#[test]
fn unknown_severity_is_rejected() {
    assert_eq!(Severity::parse("fatal"), None);
    assert_eq!(Severity::parse(""), None);
    assert_eq!(Severity::parse("notes"), None);
    assert_eq!(Severity::parse("warnin"), None);
}

#[test]
fn canonical_names() {
    assert_eq!(Severity::Note.as_str(), "note");
    assert_eq!(Severity::Warning.as_str(), "warning");
    assert_eq!(Severity::Error.as_str(), "error");
    assert_eq!(Severity::Warning.as_upper_str(), "WARNING");
}

fn diag(rule: &str, sev: Severity) -> Diagnostic {
    Diagnostic {
        rule_id: rule.to_string(),
        severity: sev,
        message: "m".to_string(),
        span: Some(Span { file: "a.rs".to_string(), line: 1, col: 1 }),
        help_uri: None,
        cwe: vec![],
        profiles: vec![],
    }
}

#[test]
fn max_severity_of_result() {
    let mut r = AnalysisResult {
        tool_version: "0.1.0".to_string(),
        profile: "high_assurance".to_string(),
        diagnostics: vec![],
    };
    assert_eq!(r.max_severity(), None);
    r.diagnostics.push(diag("A", Severity::Warning));
    r.diagnostics.push(diag("B", Severity::Note));
    assert_eq!(r.max_severity(), Some(Severity::Warning));
    r.diagnostics.push(diag("C", Severity::Error));
    assert_eq!(r.max_severity(), Some(Severity::Error));
}
