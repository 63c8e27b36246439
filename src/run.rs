//! One run's decisions: validate the resolved settings before any analysis,
//! analyze and order, and derive the exit status.
use vstd::prelude::*;
use vstd::string::*;
use crate::config::EffectiveConfig;
use crate::engine::{run_analysis, EngineOptions};
use crate::model::{any_at_least, severity_of_text, AnalysisResult, Severity};
use crate::order::{is_sorted, lemma_sorted_is_ordered_permutation, sort_diagnostics};
use crate::json::{
    pretty_json, render_json, render_sarif_placeholder, result_json, sarif_placeholder_json,
};
use crate::render::{format_of_text, render_text, text_report, Format};

verus! {

/// Exit status of a run with no finding at or above the deny threshold.
pub const EXIT_CLEAN: i32 = 0;

/// Exit status of a run with a finding at or above the deny threshold.
pub const EXIT_FINDINGS: i32 = 1;

/// Exit status of a run aborted by a tool error.
pub const EXIT_TOOL_ERROR: i32 = 2;

/// Errors that abort a run; each carries the offending value or path.
#[derive(Debug, Clone, PartialEq, Eq)]
pub enum LintError {
    /// A deny level that names no severity.
    InvalidSeverity(String),
    /// A config file that could not be read.
    ConfigRead(String),
    /// A config file that is malformed.
    ConfigParse(String),
    /// A format name other than `text`, `json` and `sarif`.
    UnknownFormat(String),
    /// An output file that could not be created or written.
    OutputIo(String),
}

pub open spec fn message_of(e: LintError) -> Seq<char> {
    match e {
        LintError::InvalidSeverity(s) => "Invalid --deny level: "@ + s@ + ". Use note|warning|error."@,
        LintError::ConfigRead(p) => "Failed to read config file: "@ + p@,
        LintError::ConfigParse(p) => "Failed to parse TOML config: "@ + p@,
        LintError::UnknownFormat(s) => "Unknown --format: "@ + s@ + ". Use text|json|sarif."@,
        LintError::OutputIo(p) => "Failed to create output file: "@ + p@,
    }
}

impl LintError {
    /// The one-line description shown to the user.
    pub fn message(&self) -> (r: String)
        ensures
            r@ == message_of(*self),
    {
        match self {
            LintError::InvalidSeverity(s) => {
                let mut m = "Invalid --deny level: ".to_owned();
                m.append(s.as_str());
                m.append(". Use note|warning|error.");
                m
            },
            LintError::ConfigRead(p) => {
                let mut m = "Failed to read config file: ".to_owned();
                m.append(p.as_str());
                m
            },
            LintError::ConfigParse(p) => {
                let mut m = "Failed to parse TOML config: ".to_owned();
                m.append(p.as_str());
                m
            },
            LintError::UnknownFormat(s) => {
                let mut m = "Unknown --format: ".to_owned();
                m.append(s.as_str());
                m.append(". Use text|json|sarif.");
                m
            },
            LintError::OutputIo(p) => {
                let mut m = "Failed to create output file: ".to_owned();
                m.append(p.as_str());
                m
            },
        }
    }

    /// Every tool error ends the process with status 2.
    pub fn exit_code(&self) -> (r: i32)
        ensures
            r == EXIT_TOOL_ERROR,
    {
        EXIT_TOOL_ERROR
    }
}

/// The validated settings of a run.
#[derive(Debug, Clone)]
pub struct RunPlan {
    pub profile: String,
    pub format: Format,
    pub deny: Severity,
}

/// Validates the resolved settings before anything runs: the deny level
/// must name a severity, then the format must be a known one.
pub fn plan_run(cfg: &EffectiveConfig) -> (r: Result<RunPlan, LintError>)
    ensures
        severity_of_text(cfg.deny@) is None ==> (r matches Err(LintError::InvalidSeverity(s)) && s@
            == cfg.deny@),
        severity_of_text(cfg.deny@) is Some && format_of_text(cfg.format@) is None ==> (
        r matches Err(LintError::UnknownFormat(s)) && s@ == cfg.format@),
        r is Ok <==> (severity_of_text(cfg.deny@) is Some && format_of_text(cfg.format@) is Some),
        r matches Ok(p) ==> {
            &&& p.profile@ == cfg.profile@
            &&& Some(p.deny) == severity_of_text(cfg.deny@)
            &&& Some(p.format) == format_of_text(cfg.format@)
        },
{
    let deny = match Severity::parse(cfg.deny.as_str()) {
        Some(d) => d,
        None => {
            return Err(LintError::InvalidSeverity(cfg.deny.clone()));
        },
    };
    let format = match Format::parse(cfg.format.as_str()) {
        Some(f) => f,
        None => {
            return Err(LintError::UnknownFormat(cfg.format.clone()));
        },
    };
    Ok(RunPlan { profile: cfg.profile.clone(), format, deny })
}

/// Runs the analysis for a validated plan and puts its diagnostics in the
/// deterministic order.
pub fn analyze(plan: &RunPlan, tool_version: &str) -> (r: AnalysisResult)
    ensures
        r.profile@ == plan.profile@,
        r.tool_version@ == tool_version@,
        is_sorted(r.diagnostics@),
{
    let opts = EngineOptions { profile: plan.profile.clone(), tool_version: tool_version.to_owned() };
    let mut result = run_analysis(&opts);
    let ghost found = result.diagnostics@;
    sort_diagnostics(&mut result.diagnostics);
    proof {
        lemma_sorted_is_ordered_permutation(found);
    }
    result
}

/// The report of `result` in the selected format.
pub open spec fn report_of(result: AnalysisResult, format: Format) -> Seq<char> {
    match format {
        Format::Text => text_report(result.diagnostics@),
        Format::Json => pretty_json(result_json(result)) + seq!['\n'],
        Format::Sarif => pretty_json(sarif_placeholder_json(result)) + seq!['\n'],
    }
}

/// Renders `result` in the selected format. `quiet` only silences extra
/// progress output and never changes the report.
pub fn render_report(result: &AnalysisResult, format: Format, quiet: bool) -> (r: String)
    ensures
        r@ == report_of(*result, format),
{
    match format {
        Format::Text => render_text(result, quiet),
        Format::Json => render_json(result),
        Format::Sarif => render_sarif_placeholder(result),
    }
}

/// Whether the run fails: some diagnostic is at or above the threshold.
pub fn should_fail(result: &AnalysisResult, deny: Severity) -> (r: bool)
    ensures
        r == any_at_least(result.diagnostics@, deny),
{
    let n = result.diagnostics.len();
    let mut i: usize = 0;
    while i < n
        invariant
            n == result.diagnostics@.len(),
            i <= n,
            forall|k: int| 0 <= k < i ==> #[trigger] result.diagnostics@[k].severity.rank() < deny.rank(),
        decreases n - i,
    {
        if result.diagnostics[i].severity.at_least(&deny) {
            return true;
        }
        i = i + 1;
    }
    false
}

/// The exit status of a completed run: 1 when some diagnostic is at or
/// above the threshold, else 0. A completed run never yields 2.
pub fn exit_code(result: &AnalysisResult, deny: Severity) -> (r: i32)
    ensures
        r == (if any_at_least(result.diagnostics@, deny) { EXIT_FINDINGS } else { EXIT_CLEAN }),
{
    if should_fail(result, deny) {
        EXIT_FINDINGS
    } else {
        EXIT_CLEAN
    }
}

/// A run without diagnostics never fails, whatever the deny threshold.
pub proof fn lemma_no_findings_pass(result: AnalysisResult, deny: Severity)
    requires
        result.diagnostics@.len() == 0,
    ensures
        !any_at_least(result.diagnostics@, deny),
{
}

} // verus!
