//! What is recorded about an experiment while it is carried out.

use vstd::prelude::*;
use vstd::string::*;
use crate::protocol::RuleSpec;

verus! {

/// The state of a target at one moment.
#[derive(Clone, Debug, PartialEq, Eq)]
pub struct ExecutionEnvironment {
    pub captured_at_unix_ms: u64,
    pub target: String,
    pub interface: String,
    pub faultline_version: String,
    pub kernel_release: Option<String>,
    /// Offloads by name, in ascending order of the names.
    pub offloads: Vec<(String, bool)>,
    /// The queues, encoded.
    pub qdiscs: Option<String>,
    pub diagnostics: Vec<String>,
}

/// What was applied and what was seen.
#[derive(Clone, Debug, PartialEq, Eq)]
pub struct ExperimentExecution {
    pub started_at_unix_ms: u64,
    pub completed_at_unix_ms: u64,
    pub applied_events: Vec<AppliedEventRecord>,
    /// Each sample pairs the rules in force with the counters that followed. A
    /// delayed packet is one with a departure time, no measurement of latency.
    pub rule_observations: Vec<RuleObservation>,
    pub selection_diagnostics: Vec<SelectionDiagnosticObservation>,
    /// The last report of each rule, encoded, in ascending order of the rules.
    /// A rule without one was accepted but never seen in a report.
    pub final_rule_stats: Vec<(u32, String)>,
    /// Packets that met no rule are counted apart, since no rule was selected
    /// for them.
    pub final_diagnostics: Option<String>,
}

/// The counters of a rule at one moment.
#[derive(Clone, Debug, PartialEq, Eq)]
pub struct RuleObservation {
    pub observed_at_ms: u64,
    pub active_event_index: Option<usize>,
    /// Set for the first report after a change of rules, which may count
    /// packets from before the change.
    pub interval_may_span_rule_change: bool,
    pub configured_rule: Option<RuleSpec>,
    pub stats: String,
}

/// The counters of packets that met no rule.
#[derive(Clone, Debug, PartialEq, Eq)]
pub struct SelectionDiagnosticObservation {
    pub observed_at_ms: u64,
    pub active_event_index: Option<usize>,
    pub diagnostics: String,
}

/// An event that was acknowledged.
#[derive(Clone, Debug, PartialEq, Eq)]
pub struct AppliedEventRecord {
    pub event_index: usize,
    pub scheduled_at_ms: u64,
    pub requested_at_ms: u64,
    pub applied_at_ms: u64,
    pub rule_ids: Vec<u32>,
}

} // verus!
