//! Diagnostic aggregation and reporting for a static-analysis tool: severities,
//! diagnostics, configuration precedence, deterministic ordering, text and
//! JSON rendering, and the exit decision.
pub mod model;
pub mod engine;
pub mod config;
pub mod order;
pub mod render;
pub mod run;
pub mod json;
