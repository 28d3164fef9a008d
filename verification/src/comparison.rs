//! What two runs of experiments have in common.

use vstd::prelude::*;
use vstd::string::*;
use crate::environment::switches;
use crate::execution::ExecutionEnvironment;
use crate::plan::ResolvedExperiment;
use crate::sameness::{same_selectors, same_timelines};
use crate::text::{optional_text, same_text};
use crate::workload_spec::same_optional_text;

verus! {

/// Whether two runs were asked to do the same.
#[derive(Clone, Copy, Debug, PartialEq, Eq, Structural)]
pub struct ConditionComparison {
    pub attach_equal: bool,
    pub selectors_equal: bool,
    pub timeline_equal: bool,
}

/// Whether two runs met the same environment, and what they met.
pub struct EnvironmentComparison<'a> {
    pub kernel_equal: bool,
    pub offloads_equal: bool,
    pub qdiscs_equal: bool,
    pub base: Option<&'a ExecutionEnvironment>,
    pub candidate: Option<&'a ExecutionEnvironment>,
}

/// How two runs ended.
pub struct EffectComparison<'a> {
    pub base_execution_error: Option<&'a String>,
    pub candidate_execution_error: Option<&'a String>,
    pub base_final_rule_stats: Option<&'a Vec<(u32, String)>>,
    pub candidate_final_rule_stats: Option<&'a Vec<(u32, String)>>,
    pub base_final_selection_diagnostics: Option<&'a String>,
    pub candidate_final_selection_diagnostics: Option<&'a String>,
}

/// What two runs have in common.
pub struct ComparisonReport<'a> {
    pub conditions_equal: bool,
    pub conditions: ConditionComparison,
    pub environment: EnvironmentComparison<'a>,
    pub effects: EffectComparison<'a>,
}

/// The environment of a run: with the agent attached, or else before.
pub open spec fn environment_of(plan: ResolvedExperiment) -> Option<ExecutionEnvironment> {
    match plan.effective_environment {
        Some(environment) => Some(environment),
        None => plan.environment,
    }
}

/// What an optional reference refers to.
pub open spec fn target<T>(reference: Option<&T>) -> Option<T> {
    match reference {
        Some(value) => Some(*value),
        None => None,
    }
}

fn effective_environment(plan: &ResolvedExperiment) -> (r: Option<&ExecutionEnvironment>)
    ensures
        target(r) == environment_of(*plan),
{
    match &plan.effective_environment {
        Some(environment) => Some(environment),
        None => match &plan.environment {
            Some(environment) => Some(environment),
            None => None,
        },
    }
}

/// The kernel of a run.
pub open spec fn kernel_of(environment: Option<ExecutionEnvironment>) -> Option<Seq<char>> {
    match environment {
        Some(value) => optional_text(value.kernel_release),
        None => None,
    }
}

/// The offloads of a run.
pub open spec fn offloads_of(environment: Option<ExecutionEnvironment>) -> Option<
    Seq<(Seq<char>, bool)>,
> {
    match environment {
        Some(value) => Some(switches(value.offloads@)),
        None => None,
    }
}

/// The queues of a run.
pub open spec fn qdiscs_of(environment: Option<ExecutionEnvironment>) -> Option<Seq<char>> {
    match environment {
        Some(value) => optional_text(value.qdiscs),
        None => None,
    }
}

/// The last reports of a run.
pub open spec fn final_stats_of(plan: ResolvedExperiment) -> Option<Vec<(u32, String)>> {
    match plan.execution {
        Some(execution) => Some(execution.final_rule_stats),
        None => None,
    }
}

/// The last report of a run on packets that met no rule.
pub open spec fn final_diagnostics_of(plan: ResolvedExperiment) -> Option<String> {
    match plan.execution {
        Some(execution) => execution.final_diagnostics,
        None => None,
    }
}

fn same_switches(left: &Vec<(String, bool)>, right: &Vec<(String, bool)>) -> (r: bool)
    ensures
        r == (switches(left@) == switches(right@)),
{
    let ghost a = switches(left@);
    let ghost b = switches(right@);
    if left.len() != right.len() {
        assert(a.len() != b.len());
        return false;
    }
    let mut index: usize = 0;
    while index < left.len()
        invariant
            index <= left@.len(),
            left@.len() == right@.len(),
            a == switches(left@),
            b == switches(right@),
            forall|i: int| 0 <= i < index ==> #[trigger] a[i] == b[i],
        decreases left@.len() - index,
    {
        assert(a[index as int] == (left@[index as int].0@, left@[index as int].1));
        assert(b[index as int] == (right@[index as int].0@, right@[index as int].1));
        if left[index].1 != right[index].1 || !same_text(
            left[index].0.as_str(),
            right[index].0.as_str(),
        ) {
            return false;
        }
        index += 1;
    }
    assert(a =~= b);
    true
}

fn compare_environments<'a>(
    base: Option<&'a ExecutionEnvironment>,
    candidate: Option<&'a ExecutionEnvironment>,
) -> (r: EnvironmentComparison<'a>)
    ensures
        r.base == base,
        r.candidate == candidate,
        r.kernel_equal == (kernel_of(target(base)) == kernel_of(target(candidate))),
        r.offloads_equal == (offloads_of(target(base)) == offloads_of(target(candidate))),
        r.qdiscs_equal == (qdiscs_of(target(base)) == qdiscs_of(target(candidate))),
{
    let none: Option<String> = None;
    let base_kernel = match base {
        Some(value) => &value.kernel_release,
        None => &none,
    };
    let candidate_kernel = match candidate {
        Some(value) => &value.kernel_release,
        None => &none,
    };
    let base_qdiscs = match base {
        Some(value) => &value.qdiscs,
        None => &none,
    };
    let candidate_qdiscs = match candidate {
        Some(value) => &value.qdiscs,
        None => &none,
    };
    let offloads_equal = match (base, candidate) {
        (Some(left), Some(right)) => same_switches(&left.offloads, &right.offloads),
        (None, None) => true,
        _ => false,
    };
    EnvironmentComparison {
        kernel_equal: same_optional_text(base_kernel, candidate_kernel),
        offloads_equal,
        qdiscs_equal: same_optional_text(base_qdiscs, candidate_qdiscs),
        base,
        candidate,
    }
}

fn error_of(plan: &ResolvedExperiment) -> (r: Option<&String>)
    ensures
        target(r) == plan.execution_error,
{
    match &plan.execution_error {
        Some(message) => Some(message),
        None => None,
    }
}

fn stats_of(plan: &ResolvedExperiment) -> (r: Option<&Vec<(u32, String)>>)
    ensures
        target(r) == final_stats_of(*plan),
{
    match &plan.execution {
        Some(execution) => Some(&execution.final_rule_stats),
        None => None,
    }
}

fn diagnostics_of(plan: &ResolvedExperiment) -> (r: Option<&String>)
    ensures
        target(r) == final_diagnostics_of(*plan),
{
    match &plan.execution {
        Some(execution) => match &execution.final_diagnostics {
            Some(text) => Some(text),
            None => None,
        },
        None => None,
    }
}

/// Compares two runs: whether they were asked to do the same, whether they met
/// the same environment, and how they ended.
pub fn compare<'a>(base: &'a ResolvedExperiment, candidate: &'a ResolvedExperiment) -> (r:
    ComparisonReport<'a>)
    ensures
        r.conditions.attach_equal == (base@.attach == candidate@.attach),
        r.conditions.selectors_equal == (base@.selectors == candidate@.selectors),
        r.conditions.timeline_equal == (base@.timeline == candidate@.timeline),
        r.conditions_equal == (r.conditions.attach_equal && r.conditions.selectors_equal
            && r.conditions.timeline_equal),
        target(r.environment.base) == environment_of(*base),
        target(r.environment.candidate) == environment_of(*candidate),
        r.environment.kernel_equal == (kernel_of(environment_of(*base)) == kernel_of(
            environment_of(*candidate),
        )),
        r.environment.offloads_equal == (offloads_of(environment_of(*base)) == offloads_of(
            environment_of(*candidate),
        )),
        r.environment.qdiscs_equal == (qdiscs_of(environment_of(*base)) == qdiscs_of(
            environment_of(*candidate),
        )),
        target(r.effects.base_execution_error) == base.execution_error,
        target(r.effects.candidate_execution_error) == candidate.execution_error,
        target(r.effects.base_final_rule_stats) == final_stats_of(*base),
        target(r.effects.candidate_final_rule_stats) == final_stats_of(*candidate),
        target(r.effects.base_final_selection_diagnostics) == final_diagnostics_of(*base),
        target(r.effects.candidate_final_selection_diagnostics) == final_diagnostics_of(*candidate),
{
    let conditions = ConditionComparison {
        attach_equal: base.attach.same(&candidate.attach),
        selectors_equal: same_selectors(&base.selectors, &candidate.selectors),
        timeline_equal: same_timelines(&base.timeline, &candidate.timeline),
    };
    ComparisonReport {
        conditions_equal: conditions.attach_equal && conditions.selectors_equal
            && conditions.timeline_equal,
        conditions,
        environment: compare_environments(
            effective_environment(base),
            effective_environment(candidate),
        ),
        effects: EffectComparison {
            base_execution_error: error_of(base),
            candidate_execution_error: error_of(candidate),
            base_final_rule_stats: stats_of(base),
            candidate_final_rule_stats: stats_of(candidate),
            base_final_selection_diagnostics: diagnostics_of(base),
            candidate_final_selection_diagnostics: diagnostics_of(candidate),
        },
    }
}

} // verus!
