//! Severities, source spans, diagnostics and analysis results.
use vstd::prelude::*;
use vstd::string::*;

verus! {

/// Severity of a finding, in increasing order: `Note < Warning < Error`.
#[derive(Debug, Clone, Copy, PartialEq, Eq, Structural, PartialOrd, Ord, Hash)]
pub enum Severity {
    Note,
    Warning,
    Error,
}

/// ASCII-only case folding of one character, as a code point.
pub open spec fn fold_ascii(c: char) -> u32 {
    if 65 <= (c as u32) && (c as u32) <= 90 {
        (c as u32 + 32) as u32
    } else {
        c as u32
    }
}

/// `s` equals `name` when ASCII letters are compared without regard to case.
pub open spec fn eq_ignore_ascii_case(s: Seq<char>, name: Seq<char>) -> bool {
    &&& s.len() == name.len()
    &&& forall|i: int| 0 <= i < s.len() ==> fold_ascii(#[trigger] s[i]) == fold_ascii(name[i])
}

pub open spec fn note_name() -> Seq<char> {
    seq!['n', 'o', 't', 'e']
}

pub open spec fn warning_name() -> Seq<char> {
    seq!['w', 'a', 'r', 'n', 'i', 'n', 'g']
}

pub open spec fn warn_alias() -> Seq<char> {
    seq!['w', 'a', 'r', 'n']
}

pub open spec fn error_name() -> Seq<char> {
    seq!['e', 'r', 'r', 'o', 'r']
}

pub open spec fn err_alias() -> Seq<char> {
    seq!['e', 'r', 'r']
}

/// The severity that a text names, if any: canonical names and the aliases
/// `warn` and `err`, case-insensitively.
pub open spec fn severity_of_text(s: Seq<char>) -> Option<Severity> {
    if eq_ignore_ascii_case(s, note_name()) {
        Some(Severity::Note)
    } else if eq_ignore_ascii_case(s, warning_name()) || eq_ignore_ascii_case(s, warn_alias()) {
        Some(Severity::Warning)
    } else if eq_ignore_ascii_case(s, error_name()) || eq_ignore_ascii_case(s, err_alias()) {
        Some(Severity::Error)
    } else {
        None
    }
}

/// Compares `s` with `name`, ignoring the case of ASCII letters.
pub fn text_eq_ignore_ascii_case(s: &str, name: &str) -> (r: bool)
    ensures
        r == eq_ignore_ascii_case(s@, name@),
{
    let n = s.unicode_len();
    let m = name.unicode_len();
    if n != m {
        return false;
    }
    let mut i: usize = 0;
    while i < n
        invariant
            n == s@.len(),
            m == name@.len(),
            n == m,
            i <= n,
            forall|k: int| 0 <= k < i ==> fold_ascii(#[trigger] s@[k]) == fold_ascii(name@[k]),
        decreases n - i,
    {
        let a = s.get_char(i);
        let b = name.get_char(i);
        let fa: u32 = if 65 <= (a as u32) && (a as u32) <= 90 { a as u32 + 32 } else { a as u32 };
        let fb: u32 = if 65 <= (b as u32) && (b as u32) <= 90 { b as u32 + 32 } else { b as u32 };
        if fa != fb {
            return false;
        }
        i = i + 1;
    }
    true
}

impl Severity {
    /// Position in the declared order.
    pub open spec fn rank(self) -> int {
        match self {
            Severity::Note => 0,
            Severity::Warning => 1,
            Severity::Error => 2,
        }
    }

    /// The canonical lower-case name.
    pub open spec fn canonical(self) -> Seq<char> {
        match self {
            Severity::Note => note_name(),
            Severity::Warning => warning_name(),
            Severity::Error => error_name(),
        }
    }

    /// The canonical name in upper case.
    pub open spec fn upper(self) -> Seq<char> {
        match self {
            Severity::Note => seq!['N', 'O', 'T', 'E'],
            Severity::Warning => seq!['W', 'A', 'R', 'N', 'I', 'N', 'G'],
            Severity::Error => seq!['E', 'R', 'R', 'O', 'R'],
        }
    }

    /// Parses a severity name or alias, case-insensitively.
    pub fn parse(s: &str) -> (r: Option<Severity>)
        ensures
            r == severity_of_text(s@),
    {
        proof {
            reveal_strlit("note");
            reveal_strlit("warning");
            reveal_strlit("warn");
            reveal_strlit("error");
            reveal_strlit("err");
        }
        if text_eq_ignore_ascii_case(s, "note") {
            Some(Severity::Note)
        } else if text_eq_ignore_ascii_case(s, "warning") || text_eq_ignore_ascii_case(s, "warn") {
            Some(Severity::Warning)
        } else if text_eq_ignore_ascii_case(s, "error") || text_eq_ignore_ascii_case(s, "err") {
            Some(Severity::Error)
        } else {
            None
        }
    }

    /// The canonical lower-case name: `note`, `warning` or `error`.
    pub fn as_str(&self) -> (r: &'static str)
        ensures
            r@ == self.canonical(),
    {
        proof {
            reveal_strlit("note");
            reveal_strlit("warning");
            reveal_strlit("error");
        }
        match self {
            Severity::Note => "note",
            Severity::Warning => "warning",
            Severity::Error => "error",
        }
    }

    /// The canonical name in upper case: `NOTE`, `WARNING` or `ERROR`.
    pub fn as_upper_str(&self) -> (r: &'static str)
        ensures
            r@ == self.upper(),
    {
        proof {
            reveal_strlit("NOTE");
            reveal_strlit("WARNING");
            reveal_strlit("ERROR");
        }
        match self {
            Severity::Note => "NOTE",
            Severity::Warning => "WARNING",
            Severity::Error => "ERROR",
        }
    }

    /// Position in the declared order: 0, 1 or 2.
    pub fn level(&self) -> (r: u8)
        ensures
            r as int == self.rank(),
    {
        match self {
            Severity::Note => 0,
            Severity::Warning => 1,
            Severity::Error => 2,
        }
    }

    /// Whether `self` is at or above `threshold` in the declared order.
    pub fn at_least(&self, threshold: &Severity) -> (r: bool)
        ensures
            r == (self.rank() >= threshold.rank()),
    {
        self.level() >= threshold.level()
    }
}

/// Parsing inverts canonical rendering, and the declared order is
/// `Note < Warning < Error`, with no two distinct severities of equal rank.
pub proof fn lemma_severity_round_trip_and_order(s: Severity, t: Severity)
    ensures
        severity_of_text(s.canonical()) == Some(s),
        Severity::Note.rank() < Severity::Warning.rank() < Severity::Error.rank(),
        s.rank() == t.rank() <==> s == t,
{
    assert(eq_ignore_ascii_case(note_name(), note_name()));
    assert(eq_ignore_ascii_case(warning_name(), warning_name()));
    assert(eq_ignore_ascii_case(error_name(), error_name()));
}

/// A source location: file path, 1-based line and 1-based column.
#[derive(Debug, Clone, PartialEq, Eq)]
pub struct Span {
    pub file: String,
    pub line: u32,
    pub col: u32,
}

/// One finding of the analysis.
#[derive(Debug, Clone, PartialEq, Eq)]
pub struct Diagnostic {
    pub rule_id: String,
    pub severity: Severity,
    pub message: String,
    pub span: Option<Span>,
    pub help_uri: Option<String>,
    pub cwe: Vec<String>,
    pub profiles: Vec<String>,
}

/// The output of one analysis run.
#[derive(Debug, Clone, PartialEq, Eq)]
pub struct AnalysisResult {
    pub tool_version: String,
    pub profile: String,
    pub diagnostics: Vec<Diagnostic>,
}

/// A span as plain values.
pub struct SpanView {
    pub file: Seq<char>,
    pub line: u32,
    pub col: u32,
}

/// A diagnostic as plain values.
pub struct DiagnosticView {
    pub rule_id: Seq<char>,
    pub severity: Severity,
    pub message: Seq<char>,
    pub span: Option<SpanView>,
    pub help_uri: Option<Seq<char>>,
    pub cwe: Seq<Seq<char>>,
    pub profiles: Seq<Seq<char>>,
}

/// A result as plain values.
pub struct ResultView {
    pub tool_version: Seq<char>,
    pub profile: Seq<char>,
    pub diagnostics: Seq<DiagnosticView>,
}

pub open spec fn texts_view(v: Seq<String>) -> Seq<Seq<char>> {
    v.map_values(|s: String| s@)
}

pub open spec fn span_view(o: Option<Span>) -> Option<SpanView> {
    match o {
        Some(sp) => Some(SpanView { file: sp.file@, line: sp.line, col: sp.col }),
        None => None,
    }
}

pub open spec fn opt_text_view(o: Option<String>) -> Option<Seq<char>> {
    match o {
        Some(s) => Some(s@),
        None => None,
    }
}

impl View for Diagnostic {
    type V = DiagnosticView;

    open spec fn view(&self) -> DiagnosticView {
        DiagnosticView {
            rule_id: self.rule_id@,
            severity: self.severity,
            message: self.message@,
            span: span_view(self.span),
            help_uri: opt_text_view(self.help_uri),
            cwe: texts_view(self.cwe@),
            profiles: texts_view(self.profiles@),
        }
    }
}

impl View for AnalysisResult {
    type V = ResultView;

    open spec fn view(&self) -> ResultView {
        ResultView {
            tool_version: self.tool_version@,
            profile: self.profile@,
            diagnostics: self.diagnostics@.map_values(|d: Diagnostic| d@),
        }
    }
}

/// Whether some diagnostic of `ds` has severity at or above `threshold`.
pub open spec fn any_at_least(ds: Seq<Diagnostic>, threshold: Severity) -> bool {
    exists|i: int| 0 <= i < ds.len() && #[trigger] ds[i].severity.rank() >= threshold.rank()
}

impl AnalysisResult {
    /// The highest severity among the diagnostics, `None` when there are none.
    pub fn max_severity(&self) -> (r: Option<Severity>)
        ensures
            r is None <==> self.diagnostics@.len() == 0,
            r matches Some(m) ==> {
                &&& exists|i: int|
                    0 <= i < self.diagnostics@.len() && #[trigger] self.diagnostics@[i].severity
                        == m
                &&& forall|i: int|
                    0 <= i < self.diagnostics@.len() ==> #[trigger] self.diagnostics@[i].severity.rank()
                        <= m.rank()
            },
    {
        let n = self.diagnostics.len();
        let mut best: Option<Severity> = None;
        let mut i: usize = 0;
        while i < n
            invariant
                n == self.diagnostics@.len(),
                i <= n,
                best is None <==> i == 0,
                best matches Some(m) ==> {
                    &&& exists|k: int| 0 <= k < i && #[trigger] self.diagnostics@[k].severity == m
                    &&& forall|k: int|
                        0 <= k < i ==> #[trigger] self.diagnostics@[k].severity.rank() <= m.rank()
                },
            decreases n - i,
        {
            let s = self.diagnostics[i].severity;
            match best {
                None => {
                    best = Some(s);
                },
                Some(m) => {
                    if s.at_least(&m) {
                        best = Some(s);
                    }
                },
            }
            i = i + 1;
        }
        best
    }
}

} // verus!
