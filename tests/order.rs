use ha_lint::model::{Diagnostic, Severity, Span};
use ha_lint::order::{diagnostic_less, sort_diagnostics, text_eq, text_less};

fn d(rule: &str, span: Option<(&str, u32, u32)>) -> Diagnostic {
    Diagnostic {
        rule_id: rule.to_string(),
        severity: Severity::Warning,
        message: format!("msg {rule}"),
        span: span.map(|(f, l, c)| Span { file: f.to_string(), line: l, col: c }),
        help_uri: None,
        cwe: vec![],
        profiles: vec![],
    }
}

fn keys(v: &[Diagnostic]) -> Vec<String> {
    v.iter()
        .map(|x| match &x.span {
            Some(s) => format!("{}:{}:{}:{}", s.file, s.line, s.col, x.rule_id),
            None => x.rule_id.clone(),
        })
        .collect()
}

#[test]
fn spanned_before_unspanned() {
    let mut v = vec![d("A-0001", None), d("Z-9999", Some(("z.rs", 9, 9)))];
    sort_diagnostics(&mut v);
    assert_eq!(keys(&v), vec!["z.rs:9:9:Z-9999".to_string(), "A-0001".to_string()]);
}

#[test]
fn spanned_order_by_file_line_col_rule() {
    let mut v = vec![
        d("R2", Some(("b.rs", 1, 1))),
        d("R1", Some(("a.rs", 10, 1))),
        d("R1", Some(("a.rs", 2, 7))),
        d("R9", Some(("a.rs", 2, 3))),
        d("R1", Some(("a.rs", 2, 3))),
        d("R0", None),
    ];
    sort_diagnostics(&mut v);
    assert_eq!(
        keys(&v),
        vec![
            "a.rs:2:3:R1", "a.rs:2:3:R9", "a.rs:2:7:R1", "a.rs:10:1:R1", "b.rs:1:1:R2", "R0",
        ]
        .into_iter()
        .map(String::from)
        .collect::<Vec<_>>()
    );
}

#[test]
fn unspanned_by_rule_id() {
    let mut v = vec![d("HA-3", None), d("HA-1", None), d("HA-2", None)];
    sort_diagnostics(&mut v);
    assert_eq!(keys(&v), vec!["HA-1", "HA-2", "HA-3"]);
}

#[test]
fn sorting_twice_gives_same_sequence() {
    let mut v = vec![
        d("C", None),
        d("B", Some(("x.rs", 3, 1))),
        d("A", Some(("x.rs", 3, 1))),
        d("A", None),
    ];
    sort_diagnostics(&mut v);
    let once = v.clone();
    sort_diagnostics(&mut v);
    assert_eq!(v, once);
    let mut w = vec![once[3].clone(), once[1].clone(), once[0].clone(), once[2].clone()];
    sort_diagnostics(&mut w);
    assert_eq!(w, once);
}

#[test]
fn equal_keys_keep_input_order() {
    let mut first = d("R", Some(("f.rs", 1, 1)));
    first.message = "first".to_string();
    let mut second = d("R", Some(("f.rs", 1, 1)));
    second.message = "second".to_string();
    let mut v = vec![first, second];
    sort_diagnostics(&mut v);
    assert_eq!(v[0].message, "first");
    assert_eq!(v[1].message, "second");
}

#[test]
fn sort_empty() {
    let mut v: Vec<Diagnostic> = vec![];
    sort_diagnostics(&mut v);
    assert!(v.is_empty());
}

#[test]
fn text_comparison() {
    assert!(text_less("a", "b"));
    assert!(text_less("a", "ab"));
    assert!(!text_less("ab", "a"));
    assert!(!text_less("a", "a"));
    assert!(text_less("", "a"));
    assert!(text_less("B", "a"));
    assert!(text_less("z", "é"));
    assert!(text_eq("é.rs", "é.rs"));
    assert!(!text_eq("a.rs", "a.r"));
}

#[test]
fn line_compares_numerically() {
    let a = d("R", Some(("f.rs", 9, 1)));
    let b = d("R", Some(("f.rs", 10, 1)));
    assert!(diagnostic_less(&a, &b));
    assert!(!diagnostic_less(&b, &a));
    assert!(!diagnostic_less(&a, &a));
}
