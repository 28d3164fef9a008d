//! Plans and the rule table: what was planned can be put in force.

use vstd::prelude::*;
use crate::common::zero_bytes;
use crate::experiment_spec::Experiment;
use crate::net::{prefix_mask, unit};
use crate::plan::{bound_rule, bound_rules, Answers};
use crate::protocol::{
    optional_network, repeats_id, rules_of, valid_ruleset, valid_timeline_moves_forward, RuleSpec,
};
use crate::rule_store::{
    addressed, filed_under, grouping_error, repeats_source, ruleset_error,
};
use crate::selection::{planned_rules_stay_apart, same_source_key};
use crate::workload_spec::Workload;

verus! {

proof fn masks_tell_prefixes(p: u8, q: u8)
    requires
        p <= 128,
        q <= 128,
        prefix_mask(16, p as int) == prefix_mask(16, q as int),
    ensures
        p == q,
{
    if p != q {
        let less = if p < q {
            p as int
        } else {
            q as int
        };
        let i = less / 8;
        assert(0 <= i < 16);
        assert(prefix_mask(16, p as int)[i] == (256 - unit(p - 8 * i)) as u8);
        assert(prefix_mask(16, q as int)[i] == (256 - unit(q - 8 * i)) as u8);
        assert(0 <= less - 8 * i < 8);
    }
}

proof fn sources_with_equal_bits_are_alike(left: RuleSpec, right: RuleSpec)
    requires
        left.source_bits() == right.source_bits(),
        left.source is Some && right.source is Some ==> left.source->0@.v4 == right.source->0@.v4,
        addressed(left),
        addressed(right),
    ensures
        same_source_key(optional_network(left.source), optional_network(right.source)),
{
    assert(prefix_mask(16, 0) =~= zero_bytes(16));
    match (left.source, right.source) {
        (Some(a), Some(b)) => {
            masks_tell_prefixes(a.prefix_len, b.prefix_len);
            assert(a@.truncated() == b@.truncated());
        },
        (Some(a), None) => {
            masks_tell_prefixes(a.prefix_len, 0);
        },
        (None, Some(b)) => {
            masks_tell_prefixes(0, b.prefix_len);
        },
        (None, None) => {},
    }
}

proof fn grouping_passes(specs: Seq<RuleSpec>, from: int)
    requires
        0 <= from <= specs.len(),
        valid_ruleset(rules_of(specs)),
        forall|at: int| 0 <= at < specs.len() ==> !#[trigger] repeats_source(specs, at),
    ensures
        grouping_error(specs, from) is None,
    decreases specs.len() - from,
{
    if from < specs.len() {
        let rules = rules_of(specs);
        assert(rules[from] == specs[from]@);
        assert(rules[from].error() is None);
        assert(!repeats_id(specs, from)) by {
            if repeats_id(specs, from) {
                let j = choose|j: int| 0 <= j < from && #[trigger] specs[j].id == specs[from].id;
                assert(rules[j].id == rules[from].id);
            }
        }
        assert(!repeats_source(specs, from));
        grouping_passes(specs, from + 1);
    }
}

/// The rules of every event of a plan can be put in force together.
pub proof fn planned_rules_can_be_published(
    experiment: Experiment,
    answers: Seq<Answers>,
    attach: Workload,
    event: int,
    specs: Seq<RuleSpec>,
)
    requires
        experiment.plan(answers, attach) is Ok,
        0 <= event < experiment.plan(answers, attach)->Ok_0.timeline.events.len(),
        rules_of(specs) == experiment.plan(answers, attach)->Ok_0.timeline.events[event].rules,
        forall|i: int| 0 <= i < specs.len() ==> addressed(#[trigger] specs[i]),
    ensures
        ruleset_error(specs) is None,
{
    let plan = experiment.plan(answers, attach)->Ok_0;
    let named = plan.bindings();
    let rules = rules_of(specs);
    let incident = experiment.profile.events[event];
    valid_timeline_moves_forward(plan.timeline);
    assert(plan.timeline.events[event].rules == bound_rules(incident, named));
    assert(specs.len() == named.len());
    assert(valid_ruleset(rules));
    assert forall|at: int| 0 <= at < specs.len() implies !#[trigger] repeats_source(specs, at) by {
        if repeats_source(specs, at) {
            let j = choose|j: int|
                0 <= j < at && filed_under(#[trigger] specs[j]) == filed_under(specs[at])
                    && specs[j].source_bits() == specs[at].source_bits();
            assert(rules[j] == specs[j]@ && rules[at] == specs[at]@);
            assert(rules[j] == bound_rule(incident, named[j]));
            assert(rules[at] == bound_rule(incident, named[at]));
            assert(filed_under(specs[j]) == named[j].1.destination.truncated());
            assert(filed_under(specs[at]) == named[at].1.destination.truncated());
            assert(rules[j].error() is None && rules[at].error() is None);
            assert(addressed(specs[j]) && addressed(specs[at]));
            sources_with_equal_bits_are_alike(specs[j], specs[at]);
            planned_rules_stay_apart(plan.selectors, j, at);
        }
    }
    grouping_passes(specs, 0);
}

} // verus!
