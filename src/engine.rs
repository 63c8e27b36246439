//! The boundary to the analysis engine.
use vstd::prelude::*;
use crate::model::AnalysisResult;

verus! {

/// What the analysis engine is given: the profile to check against and the
/// version of the tool.
#[derive(Debug, Clone)]
pub struct EngineOptions {
    pub profile: String,
    pub tool_version: String,
}

/// Runs the analysis. No rule checks exist yet, so the result carries the
/// options' profile and tool version and no diagnostics.
pub fn run_analysis(opts: &EngineOptions) -> (r: AnalysisResult)
    ensures
        r.tool_version@ == opts.tool_version@,
        r.profile@ == opts.profile@,
        r.diagnostics@.len() == 0,
{
    AnalysisResult {
        tool_version: opts.tool_version.clone(),
        profile: opts.profile.clone(),
        diagnostics: Vec::new(),
    }
}

} // verus!
