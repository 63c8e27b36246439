//! Output formats and the plain-text report.
use vstd::prelude::*;
use vstd::string::*;
use crate::model::{eq_ignore_ascii_case, AnalysisResult, Diagnostic};

verus! {

/// The output encodings that a run can select.
#[derive(Debug, Clone, Copy, PartialEq, Eq, Structural)]
pub enum Format {
    Text,
    Json,
    Sarif,
}

/// The format that a name selects, case-insensitively: `text`, `json` or
/// `sarif`.
pub open spec fn format_of_text(s: Seq<char>) -> Option<Format> {
    if eq_ignore_ascii_case(s, seq!['t', 'e', 'x', 't']) {
        Some(Format::Text)
    } else if eq_ignore_ascii_case(s, seq!['j', 's', 'o', 'n']) {
        Some(Format::Json)
    } else if eq_ignore_ascii_case(s, seq!['s', 'a', 'r', 'i', 'f']) {
        Some(Format::Sarif)
    } else {
        None
    }
}

impl Format {
    /// Selects a format by name, case-insensitively.
    pub fn parse(name: &str) -> (r: Option<Format>)
        ensures
            r == format_of_text(name@),
    {
        proof {
            reveal_strlit("text");
            reveal_strlit("json");
            reveal_strlit("sarif");
        }
        if crate::model::text_eq_ignore_ascii_case(name, "text") {
            Some(Format::Text)
        } else if crate::model::text_eq_ignore_ascii_case(name, "json") {
            Some(Format::Json)
        } else if crate::model::text_eq_ignore_ascii_case(name, "sarif") {
            Some(Format::Sarif)
        } else {
            None
        }
    }
}

pub open spec fn digit_char(d: int) -> char {
    if d == 0 {
        '0'
    } else if d == 1 {
        '1'
    } else if d == 2 {
        '2'
    } else if d == 3 {
        '3'
    } else if d == 4 {
        '4'
    } else if d == 5 {
        '5'
    } else if d == 6 {
        '6'
    } else if d == 7 {
        '7'
    } else if d == 8 {
        '8'
    } else {
        '9'
    }
}

/// The decimal digits of `n`, without leading zeros.
pub open spec fn decimal(n: nat) -> Seq<char>
    decreases n,
{
    if n < 10 {
        seq![digit_char(n as int)]
    } else {
        decimal(n / 10) + seq![digit_char((n % 10) as int)]
    }
}

/// One report line: upper-case severity, rule id, message, and for a spanned
/// diagnostic two spaces and `file:line:col`; ended by a newline.
pub open spec fn text_line(d: Diagnostic) -> Seq<char> {
    d.severity.upper() + seq![' '] + d.rule_id@ + seq![' '] + d.message@ + text_place(d) + seq![
        '\n',
    ]
}

/// The location part of a report line: empty for a diagnostic without span.
pub open spec fn text_place(d: Diagnostic) -> Seq<char> {
    match d.span {
        Some(sp) => seq![' ', ' '] + sp.file@ + seq![':'] + decimal(sp.line as nat) + seq![':']
            + decimal(sp.col as nat),
        None => Seq::empty(),
    }
}

/// The text report: one line per diagnostic, in order, and nothing else.
pub open spec fn text_report(ds: Seq<Diagnostic>) -> Seq<char>
    decreases ds.len(),
{
    if ds.len() == 0 {
        Seq::empty()
    } else {
        text_report(ds.drop_last()) + text_line(ds.last())
    }
}

fn digit_str(d: u32) -> (r: &'static str)
    requires
        d < 10,
    ensures
        r@ == seq![digit_char(d as int)],
{
    proof {
        reveal_strlit("0");
        reveal_strlit("1");
        reveal_strlit("2");
        reveal_strlit("3");
        reveal_strlit("4");
        reveal_strlit("5");
        reveal_strlit("6");
        reveal_strlit("7");
        reveal_strlit("8");
        reveal_strlit("9");
    }
    match d {
        0 => "0",
        1 => "1",
        2 => "2",
        3 => "3",
        4 => "4",
        5 => "5",
        6 => "6",
        7 => "7",
        8 => "8",
        _ => "9",
    }
}

/// Writes `n` in decimal.
pub fn decimal_text(n: u32) -> (r: String)
    ensures
        r@ == decimal(n as nat),
    decreases n,
{
    if n < 10 {
        digit_str(n).to_owned()
    } else {
        let mut s = decimal_text(n / 10);
        s.append(digit_str(n % 10));
        s
    }
}

/// The report line of one diagnostic.
pub fn render_line(d: &Diagnostic) -> (r: String)
    ensures
        r@ == text_line(*d),
{
    proof {
        reveal_strlit(" ");
        reveal_strlit("  ");
        reveal_strlit(":");
        reveal_strlit("\n");
    }
    let mut line = d.severity.as_upper_str().to_owned();
    line.append(" ");
    line.append(d.rule_id.as_str());
    line.append(" ");
    line.append(d.message.as_str());
    let ghost head = line@;
    assert(head =~= d.severity.upper() + seq![' '] + d.rule_id@ + seq![' '] + d.message@);
    match &d.span {
        Some(sp) => {
            line.append("  ");
            line.append(sp.file.as_str());
            line.append(":");
            let l = decimal_text(sp.line);
            line.append(l.as_str());
            line.append(":");
            let c = decimal_text(sp.col);
            line.append(c.as_str());
        },
        None => {},
    }
    line.append("\n");
    assert(line@ =~= head + text_place(*d) + seq!['\n']);
    line
}

/// Renders the diagnostics of `result` as text, one line each, in their
/// present order. `quiet` silences only extra progress output, of which
/// there is none, so it does not change the report.
pub fn render_text(result: &AnalysisResult, quiet: bool) -> (r: String)
    ensures
        r@ == text_report(result.diagnostics@),
{
    let n = result.diagnostics.len();
    let mut out = String::new();
    let mut i: usize = 0;
    let ghost ds = result.diagnostics@;
    assert(ds.take(0) =~= Seq::<Diagnostic>::empty());
    while i < n
        invariant
            n == ds.len(),
            ds == result.diagnostics@,
            i <= n,
            out@ == text_report(ds.take(i as int)),
        decreases n - i,
    {
        let line = render_line(&result.diagnostics[i]);
        out.append(line.as_str());
        assert(ds.take(i + 1).drop_last() =~= ds.take(i as int));
        i = i + 1;
    }
    assert(ds.take(n as int) =~= ds);
    out
}

} // verus!
