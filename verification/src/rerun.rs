//! Carrying a plan out again as it stands.

use vstd::prelude::*;
use vstd::string::*;
use crate::common::MAX_RULES;
use crate::experiment_spec::{Experiment, EXPERIMENT_VERSION};
use crate::plan::{
    bound_rule, bound_rules, changes_for, port_number, Answers, Plan, ResolvedExperiment,
};
use crate::protocol::{first_error, reports, Change, Rule, RuleSpec, TimelineEvent};
use crate::sameness::same_networks;
use crate::selection::{
    all_numbered, binding_for, named_rules, relations_of, rules_before, settlement, Binding, Named,
    ResolvedRuleBinding, ResolvedSelector, Settled,
};
use crate::text::{decimal, digits, same_text};
use crate::workload_spec::Workload;

verus! {

/// The place of the first rule with a number, or the number of rules.
pub open spec fn binding_place(rules: Seq<Named>, id: u32, from: int) -> int
    decreases rules.len() - from,
{
    if from >= rules.len() || rules[from].1.rule_id == id {
        from
    } else {
        binding_place(rules, id, from + 1)
    }
}

/// Whether two bindings share a number.
pub open spec fn bindings_repeat(rules: Seq<Named>) -> bool {
    exists|i: int, j: int|
        0 <= i < j < rules.len() && (#[trigger] rules[i]).1.rule_id == (
        #[trigger] rules[j]).1.rule_id
}

/// Whether a rule is of the packets that a binding names.
pub open spec fn meets_binding(rule: Rule, binding: Binding) -> bool {
    &&& rule.source == binding.source
    &&& rule.destination == binding.destination
    &&& rule.protocol == binding.protocol.code()
    &&& rule.destination_port == port_number(binding.port)
}

/// `resolved event <index><rest>`.
pub open spec fn about_resolved_event(index: nat, rest: Seq<char>) -> Seq<char> {
    "resolved event "@ + digits(index) + rest
}

/// The first rule of an event, from `from` on, that has no binding or another
/// one than its own.
pub open spec fn bound_rules_error(rules: Seq<Rule>, named: Seq<Named>, index: nat, from: int) -> Option<
    Seq<char>,
>
    decreases rules.len() - from,
{
    if from >= rules.len() {
        None
    } else {
        let at = binding_place(named, rules[from].id, 0);
        if at >= named.len() {
            Some(
                about_resolved_event(
                    index,
                    " has unknown rule id "@ + digits(rules[from].id as nat),
                ),
            )
        } else if !meets_binding(rules[from], named[at].1) {
            Some(
                about_resolved_event(
                    index,
                    " rule "@ + digits(rules[from].id as nat)
                        + " does not match its selector binding"@,
                ),
            )
        } else {
            bound_rules_error(rules, named, index, from + 1)
        }
    }
}

/// The first event, from `from` on, that does not put exactly the bindings in
/// force.
pub open spec fn bound_events_error(events: Seq<Change>, named: Seq<Named>, from: int) -> Option<
    Seq<char>,
>
    decreases events.len() - from,
{
    if from >= events.len() {
        None
    } else if events[from].rules.len() != named.len() {
        Some(
            about_resolved_event(
                from as nat,
                " does not contain the complete selector ruleset"@,
            ),
        )
    } else {
        first_error(
            bound_rules_error(events[from].rules, named, from as nat, 0),
            bound_events_error(events, named, from + 1),
        )
    }
}

impl Plan {
    /// The rules of the plan with the names of their relations.
    pub open spec fn bindings(self) -> Seq<Named> {
        named_rules(self.selectors, self.selectors.len())
    }

    /// Why a plan cannot be carried out as it stands.
    pub open spec fn rerun_error(self) -> Option<Seq<char>> {
        if self.version != EXPERIMENT_VERSION {
            Some("unsupported experiment version "@ + digits(self.version as nat))
        } else {
            first_error(
                self.attach.concrete_error(),
                first_error(
                    self.timeline.error(),
                    if self.timeline.target != Some(self.attach.uri()) {
                        Some("resolved timeline target does not match its attach point"@)
                    } else if self.selectors.len() == 0 {
                        Some("resolved experiment has no selectors"@)
                    } else if bindings_repeat(self.bindings()) {
                        Some("resolved selector bindings repeat a rule id"@)
                    } else {
                        bound_events_error(self.timeline.events, self.bindings(), 0)
                    },
                ),
            )
        }
    }
}

fn resolved_message(index: usize, rest: &str) -> (r: String)
    ensures
        r@ == about_resolved_event(index as nat, rest@),
{
    let mut message = "resolved event ".to_owned();
    message.append(decimal(index as u64).as_str());
    message.append(rest);
    message
}

/// The binding at a place, with the name of its relation.
pub open spec fn shows_bindings(list: Seq<&ResolvedRuleBinding>, named: Seq<Named>) -> bool {
    &&& list.len() == named.len()
    &&& forall|i: int| 0 <= i < list.len() ==> (#[trigger] list[i])@ == named[i].1
}

fn list_bindings<'a>(selectors: &'a Vec<ResolvedSelector>) -> (r: Vec<&'a ResolvedRuleBinding>)
    ensures
        shows_bindings(r@, named_rules(relations_of(selectors@), selectors@.len())),
{
    let ghost relations = relations_of(selectors@);
    let mut out: Vec<&'a ResolvedRuleBinding> = Vec::new();
    let mut index: usize = 0;
    while index < selectors.len()
        invariant
            index <= selectors@.len(),
            relations == relations_of(selectors@),
            shows_bindings(out@, named_rules(relations, index as nat)),
        decreases selectors@.len() - index,
    {
        let selector = &selectors[index];
        let ghost before = named_rules(relations, index as nat);
        let ghost relation = relations[index as int];
        assert(relation == selector@);
        let ghost added = relation.rules.map_values(|binding: Binding| (relation.name, binding));
        let mut k: usize = 0;
        while k < selector.rules.len()
            invariant
                k <= selector.rules@.len(),
                relation == selector@,
                added == relation.rules.map_values(|binding: Binding| (relation.name, binding)),
                shows_bindings(out@, before + added.take(k as int)),
            decreases selector.rules@.len() - k,
        {
            assert(relation.rules[k as int] == selector.rules@[k as int]@);
            out.push(&selector.rules[k]);
            assert(before + added.take(k + 1) =~= (before + added.take(k as int)).push(
                added[k as int],
            ));
            k += 1;
        }
        assert(added.take(added.len() as int) =~= added);
        assert(added.len() == selector.rules@.len());
        index += 1;
    }
    out
}

fn has_repeated_binding(list: &Vec<&ResolvedRuleBinding>, Ghost(named): Ghost<Seq<Named>>) -> (r:
    bool)
    requires
        shows_bindings(list@, named),
    ensures
        r == bindings_repeat(named),
{
    let mut j: usize = 0;
    while j < list.len()
        invariant
            j <= list@.len(),
            shows_bindings(list@, named),
            forall|a: int, b: int|
                0 <= a < b < j ==> (#[trigger] named[a]).1.rule_id != (
                #[trigger] named[b]).1.rule_id,
        decreases list@.len() - j,
    {
        let mut i: usize = 0;
        while i < j
            invariant
                i <= j < list@.len(),
                shows_bindings(list@, named),
                forall|a: int, b: int|
                    0 <= a < b < j ==> (#[trigger] named[a]).1.rule_id != (
                    #[trigger] named[b]).1.rule_id,
                forall|a: int|
                    0 <= a < i ==> (#[trigger] named[a]).1.rule_id != named[j as int].1.rule_id,
            decreases j - i,
        {
            assert(list@[i as int]@ == named[i as int].1);
            assert(list@[j as int]@ == named[j as int].1);
            if list[i].rule_id == list[j].rule_id {
                return true;
            }
            i += 1;
        }
        j += 1;
    }
    false
}

fn rule_meets(rule: &RuleSpec, binding: &ResolvedRuleBinding) -> (r: bool)
    ensures
        r == meets_binding(rule@, binding@),
{
    let port: u16 = match binding.port {
        Some(port) => port,
        None => 0,
    };
    same_networks(&rule.source, &binding.source) && rule.destination.same(&binding.destination)
        && rule.protocol == binding.protocol.number() && rule.destination_port == port
}

fn check_event(
    event: &TimelineEvent,
    list: &Vec<&ResolvedRuleBinding>,
    index: usize,
    Ghost(named): Ghost<Seq<Named>>,
) -> (r: Result<(), String>)
    requires
        shows_bindings(list@, named),
    ensures
        reports(r, bound_rules_error(event@.rules, named, index as nat, 0)),
{
    let mut at: usize = 0;
    while at < event.rules.len()
        invariant
            at <= event.rules@.len(),
            shows_bindings(list@, named),
            bound_rules_error(event@.rules, named, index as nat, 0) == bound_rules_error(
                event@.rules,
                named,
                index as nat,
                at as int,
            ),
        decreases event.rules@.len() - at,
    {
        let rule = &event.rules[at];
        assert(event@.rules[at as int] == rule@);
        let mut place: usize = 0;
        while place < list.len() && list[place].rule_id != rule.id
            invariant
                place <= list@.len(),
                shows_bindings(list@, named),
                binding_place(named, rule.id, 0) == binding_place(named, rule.id, place as int),
            decreases list@.len() - place,
        {
            assert(list@[place as int]@ == named[place as int].1);
            place += 1;
        }
        if place < list.len() {
            assert(list@[place as int]@ == named[place as int].1);
        }
        if place >= list.len() {
            let mut rest = " has unknown rule id ".to_owned();
            rest.append(decimal(rule.id as u64).as_str());
            return Err(resolved_message(index, rest.as_str()));
        }
        if !rule_meets(rule, list[place]) {
            let mut rest = " rule ".to_owned();
            rest.append(decimal(rule.id as u64).as_str());
            rest.append(" does not match its selector binding");
            return Err(resolved_message(index, rest.as_str()));
        }
        at += 1;
    }
    Ok(())
}

impl ResolvedExperiment {
    /// Checks a plan before it is carried out again, without looking up names
    /// or preparing workloads.
    pub fn validate_for_rerun(&self) -> (r: Result<(), String>)
        ensures
            reports(r, self@.rerun_error()),
    {
        if self.version != EXPERIMENT_VERSION {
            let mut message = "unsupported experiment version ".to_owned();
            message.append(decimal(self.version as u64).as_str());
            return Err(message);
        }
        match self.attach.validate_concrete() {
            Ok(_) => {},
            Err(message) => return Err(message),
        }
        match self.timeline.validate() {
            Ok(_) => {},
            Err(message) => return Err(message),
        }
        let uri = self.attach.target_uri();
        let aimed = match &self.timeline.target {
            Some(target) => same_text(target.as_str(), uri.as_str()),
            None => false,
        };
        if !aimed {
            return Err("resolved timeline target does not match its attach point".to_owned());
        }
        if self.selectors.len() == 0 {
            return Err("resolved experiment has no selectors".to_owned());
        }
        assert(self@.selectors.len() == self.selectors@.len());
        let bindings = list_bindings(&self.selectors);
        let ghost named = self@.bindings();
        if has_repeated_binding(&bindings, Ghost(named)) {
            return Err("resolved selector bindings repeat a rule id".to_owned());
        }
        let mut index: usize = 0;
        while index < self.timeline.events.len()
            invariant
                index <= self.timeline.events@.len(),
                shows_bindings(bindings@, named),
                self@.rerun_error() == bound_events_error(
                    self@.timeline.events,
                    named,
                    index as int,
                ),
            decreases self.timeline.events@.len() - index,
        {
            let event = &self.timeline.events[index];
            assert(self@.timeline.events[index as int] == event@);
            if event.rules.len() != bindings.len() {
                return Err(
                    resolved_message(
                        index,
                        " does not contain the complete selector ruleset",
                    ),
                );
            }
            match check_event(event, &bindings, index, Ghost(named)) {
                Ok(_) => {},
                Err(message) => return Err(message),
            }
            index += 1;
        }
        Ok(())
    }
}

// ---------------------------------------------------------------------------
// Laws
// ---------------------------------------------------------------------------
/// The rules of settled relations are numbered from zero, without gaps.
pub proof fn rules_are_numbered_in_order(settled: Seq<Settled>, n: nat)
    requires
        n <= settled.len(),
        rules_before(settled, n) <= u32::MAX,
    ensures
        named_rules(all_numbered(settled), n).len() == rules_before(settled, n),
        forall|k: int|
            0 <= k < rules_before(settled, n) ==> (#[trigger] named_rules(
                all_numbered(settled),
                n,
            )[k]).1.rule_id == k,
    decreases n,
{
    if n > 0 {
        let m = (n - 1) as nat;
        rules_are_numbered_in_order(settled, m);
        let relations = all_numbered(settled);
        let relation = relations[n - 1];
        let added = relation.rules.map_values(|binding: Binding| (relation.name, binding));
        let before = named_rules(relations, m);
        assert(relation.rules.len() == settled[n - 1].pairs.len());
        assert forall|k: int| 0 <= k < rules_before(settled, n) implies (#[trigger] named_rules(
            relations,
            n,
        )[k]).1.rule_id == k by {
            if k < before.len() {
                assert(named_rules(relations, n)[k] == before[k]);
            } else {
                let offset = k - before.len();
                assert(named_rules(relations, n)[k] == added[offset]);
                assert(relation.rules[offset] == binding_for(
                    settled[n - 1].authored,
                    settled[n - 1].pairs[offset],
                    (rules_before(settled, m) + offset) as nat,
                ));
            }
        }
    }
}

proof fn settlements_keep_count(experiment: Experiment, answers: Seq<Answers>, n: nat)
    requires
        experiment.settlements(answers, n) is Ok,
    ensures
        experiment.settlements(answers, n)->Ok_0.len() == n,
    decreases n,
{
    if n > 0 {
        settlements_keep_count(experiment, answers, (n - 1) as nat);
    }
}

proof fn place_is_number(named: Seq<Named>, id: u32, from: int)
    requires
        forall|k: int| 0 <= k < named.len() ==> (#[trigger] named[k]).1.rule_id == k,
        0 <= from <= id < named.len(),
    ensures
        binding_place(named, id, from) == id,
    decreases id - from,
{
    assert(named[from].1.rule_id == from);
    if from < id {
        place_is_number(named, id, from + 1);
    }
}

proof fn bound_rules_pass(rules: Seq<Rule>, named: Seq<Named>, index: nat, from: int)
    requires
        rules.len() == named.len(),
        named.len() <= MAX_RULES,
        forall|k: int| 0 <= k < named.len() ==> (#[trigger] named[k]).1.rule_id == k,
        forall|k: int|
            0 <= k < rules.len() ==> (#[trigger] rules[k]).id == named[k].1.rule_id
                && meets_binding(rules[k], named[k].1),
        0 <= from <= rules.len(),
    ensures
        bound_rules_error(rules, named, index, from) is None,
    decreases rules.len() - from,
{
    if from < rules.len() {
        assert(rules[from].id == named[from].1.rule_id);
        assert(named[from].1.rule_id == from);
        place_is_number(named, rules[from].id, 0);
        bound_rules_pass(rules, named, index, from + 1);
    }
}

proof fn bound_events_pass(experiment: Experiment, named: Seq<Named>, from: int)
    requires
        named.len() <= MAX_RULES,
        forall|k: int| 0 <= k < named.len() ==> (#[trigger] named[k]).1.rule_id == k,
        0 <= from <= experiment.profile.events.len(),
    ensures
        bound_events_error(changes_for(experiment.profile.events, named), named, from) is None,
    decreases experiment.profile.events.len() - from,
{
    let incidents = experiment.profile.events;
    let events = changes_for(incidents, named);
    if from < events.len() {
        let rules = events[from].rules;
        assert(rules == bound_rules(incidents[from], named));
        assert forall|k: int| 0 <= k < rules.len() implies (#[trigger] rules[k]).id
            == named[k].1.rule_id && meets_binding(rules[k], named[k].1) by {
            assert(rules[k] == bound_rule(incidents[from], named[k]));
        }
        bound_rules_pass(rules, named, from as nat, 0);
        bound_events_pass(experiment, named, from + 1);
    }
}

/// Whatever a resolver answered, a plan that was made can be carried out again
/// as it stands.
pub proof fn plans_can_be_rerun(experiment: Experiment, answers: Seq<Answers>, attach: Workload)
    requires
        experiment.plan(answers, attach) is Ok,
    ensures
        experiment.plan(answers, attach)->Ok_0.rerun_error() is None,
{
    let plan = experiment.plan(answers, attach)->Ok_0;
    let count = experiment.relations().len();
    settlements_keep_count(experiment, answers, count);
    let settled = experiment.settlements(answers, count)->Ok_0;
    rules_are_numbered_in_order(settled, settled.len());
    let named = plan.bindings();
    assert(plan.selectors == all_numbered(settled));
    assert(named.len() <= MAX_RULES);
    assert(!bindings_repeat(named)) by {
        if bindings_repeat(named) {
            let (i, j) = choose|i: int, j: int|
                0 <= i < j < named.len() && (#[trigger] named[i]).1.rule_id == (
                #[trigger] named[j]).1.rule_id;
            assert(named[i].1.rule_id == i && named[j].1.rule_id == j);
        }
    }
    bound_events_pass(experiment, named, 0);
}

/// A plan acts where the experiment asked for: its timeline is aimed at the
/// attach point, which is the experiment's source on a concrete interface.
pub proof fn plans_act_on_their_source(
    experiment: Experiment,
    answers: Seq<Answers>,
    attach: Workload,
)
    requires
        experiment.plan(answers, attach) is Ok,
    ensures
        experiment.plan(answers, attach)->Ok_0.timeline.target == Some(attach.uri()),
        attach == experiment.source.on_interface(attach.interface()),
        attach.concrete_error() is None,
{
}

/// A plan of an experiment that writes its networks out does not depend on any
/// resolver.
pub proof fn literal_plans_need_no_resolver(
    experiment: Experiment,
    a: Seq<Answers>,
    b: Seq<Answers>,
    attach: Workload,
)
    requires
        experiment.literal(),
    ensures
        experiment.plan(a, attach) == experiment.plan(b, attach),
{
    literal_settlements(experiment, a, b, experiment.relations().len());
}

proof fn literal_settlements(experiment: Experiment, a: Seq<Answers>, b: Seq<Answers>, n: nat)
    requires
        experiment.literal(),
        n <= experiment.relations().len(),
    ensures
        experiment.settlements(a, n) == experiment.settlements(b, n),
    decreases n,
{
    if n > 0 {
        literal_settlements(experiment, a, b, (n - 1) as nat);
        let relation = experiment.relations()[n - 1];
        assert(settlement(relation, a[n - 1].0, a[n - 1].1) == settlement(
            relation,
            b[n - 1].0,
            b[n - 1].1,
        ));
    }
}

} // verus!
