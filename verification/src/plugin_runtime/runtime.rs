//! What a plugin's `probe()` reports.
//!
//! Numbers that the plugin reports as JSON doubles (`used`, `limit`) are carried
//! as the bit patterns of those doubles; this library never computes with them.
//! A line's remaining fraction is carried the same way; the module
//! `crate::snapshot` says why comparing such patterns compares the fractions.

use vstd::prelude::*;

use crate::plugin_runtime::manifest::LoadedPlugin;
use crate::text::{opt_view, str_eq};

verus! {

/// How a progress line's numbers read.
#[derive(Debug, Clone)]
pub enum ProgressFormat {
    Percent,
    Dollars,
    Count { suffix: String },
}

/// One line of a probe's result.
#[derive(Debug, Clone)]
pub enum MetricLine {
    Progress {
        label: String,
        /// Bit pattern of the double `used`.
        used: u64,
        /// Bit pattern of the double `limit`.
        limit: u64,
        /// Bit pattern of the double `clamp((limit - used) / limit, 0, 1)`, or of
        /// `0.0` where `limit <= 0`.
        remaining_fraction: u64,
        format: Option<ProgressFormat>,
        resets_at: Option<String>,
        period_duration_ms: Option<u64>,
        color: Option<String>,
    },
    Text { label: String, value: String, color: Option<String>, subtitle: Option<String> },
    Badge { label: String, text: String, color: Option<String>, subtitle: Option<String> },
}

/// The full output of a plugin's probe.
#[derive(Debug, Clone)]
pub struct PluginOutput {
    pub provider_id: String,
    pub display_name: String,
    pub lines: Vec<MetricLine>,
    pub error: Option<String>,
    pub plan: Option<String>,
}

/// What a successful probe returned: its lines and, optionally, the plan.
#[derive(Debug, Clone)]
pub struct ProbeResult {
    pub lines: Vec<MetricLine>,
    pub plan: Option<String>,
}

/// A probe whose result stringifies to nothing or to `null` reported no lines.
pub fn is_empty_result(json_text: &str) -> (r: bool)
    ensures
        r == (json_text@.len() == 0 || json_text@ == "null"@),
{
    json_text.unicode_len() == 0 || str_eq(json_text, "null")
}

/// The lines of a probe's JSON result, given what it held: an object's `lines`
/// member (with its `plan` where that is a string) where they read as lines,
/// else the lines of a bare array where they read as lines, else no lines.
pub fn probe_lines(
    from_member: Option<(Vec<MetricLine>, Option<String>)>,
    from_array: Option<Vec<MetricLine>>,
) -> (r: ProbeResult)
    ensures
        match from_member {
            Some((lines, plan)) => r.lines@ == lines@ && opt_view(r.plan) == opt_view(plan),
            None => r.plan is None && match from_array {
                Some(lines) => r.lines@ == lines@,
                None => r.lines@.len() == 0,
            },
        },
{
    match from_member {
        Some((lines, plan)) => ProbeResult { lines, plan },
        None => match from_array {
            Some(lines) => ProbeResult { lines, plan: None },
            None => ProbeResult { lines: Vec::new(), plan: None },
        },
    }
}

/// The output of a plugin's probe: its lines and plan where the probe ran,
/// no lines and the error's text where it failed.
pub fn probe_output(plugin: &LoadedPlugin, outcome: Result<ProbeResult, String>) -> (r: PluginOutput)
    ensures
        r.provider_id@ == plugin.manifest.id@,
        r.display_name@ == plugin.manifest.name@,
        match outcome {
            Ok(p) => r.lines@ == p.lines@ && opt_view(r.plan) == opt_view(p.plan) && r.error is None,
            Err(e) => r.lines@.len() == 0 && opt_view(r.error) == Some(e@) && r.plan is None,
        },
{
    match outcome {
        Ok(p) => PluginOutput {
            provider_id: plugin.manifest.id.clone(),
            display_name: plugin.manifest.name.clone(),
            lines: p.lines,
            error: None,
            plan: p.plan,
        },
        Err(e) => PluginOutput {
            provider_id: plugin.manifest.id.clone(),
            display_name: plugin.manifest.name.clone(),
            lines: Vec::new(),
            error: Some(e),
            plan: None,
        },
    }
}

} // verus!
