//! What a plan keeps of the experiment that it was made from.

use vstd::prelude::*;
use crate::experiment_spec::{
    incidents_error_reaches, Authored, Experiment, FaultSpec, NetworkProtocol,
};
use crate::net::{Address, IpAddr, IpNet, Network};
use crate::plan::{answered_by, bound_rule, bound_rules, fault_place, Answers, Plan};
use crate::protocol::{Rule, TimelineKind};
use crate::rerun::{
    binding_place, bindings_repeat, bound_events_error, bound_rules_error, meets_binding,
};
use crate::selection::{
    all_numbered, literal, named_rules, numbered, of_family, pairs_for, resolution, rules_before,
    selection_notes, settlement, snapshot, sources_for, Answer, Binding, DestinationResolver,
    Named, Pair, Relation, Settled,
};
use crate::words::{ascending_names_differ, names_ascend};
use crate::workload_spec::Workload;

verus! {

/// Whether a rule puts a fault in force, field by field.
pub open spec fn carries(rule: Rule, fault: FaultSpec) -> bool {
    &&& rule.drop_permyriad == fault.drop_permyriad
    &&& rule.duplicate_permyriad == fault.duplicate_permyriad
    &&& rule.reorder_permyriad == fault.reorder_permyriad
    &&& rule.delay_ns == fault.delay_ns
    &&& rule.jitter_ns == fault.jitter_ns
    &&& rule.bandwidth_bps == fault.bandwidth_bps
    &&& fault.seed != 0 ==> rule.seed == fault.seed
    &&& fault.seed == 0 ==> rule.seed == 1
}

proof fn fault_place_fits(faults: Seq<(Seq<char>, FaultSpec)>, name: Seq<char>, from: int)
    requires
        0 <= from <= faults.len(),
    ensures
        from <= fault_place(faults, name, from) <= faults.len(),
        forall|i: int| from <= i < fault_place(faults, name, from) ==> (#[trigger] faults[i]).0
            != name,
        fault_place(faults, name, from) < faults.len() ==> faults[fault_place(
            faults,
            name,
            from,
        )].0 == name,
    decreases faults.len() - from,
{
    if from < faults.len() && faults[from].0 != name {
        fault_place_fits(faults, name, from + 1);
    }
}

/// A plan keeps the faults of its experiment. Every event of the profile stands
/// in the timeline at its time, with one rule for every binding; that rule has
/// the rates, the delay, the jitter, the bandwidth and the seed of the fault
/// that the event names for the relation, or of the event's common fault where
/// it names none, and loses by the seeded algorithm alone.
pub proof fn plans_keep_their_faults(
    experiment: Experiment,
    answers: Seq<Answers>,
    attach: Workload,
    event: int,
    k: int,
)
    requires
        experiment.plan(answers, attach) is Ok,
        0 <= event < experiment.profile.events.len(),
        0 <= k < experiment.plan(answers, attach)->Ok_0.bindings().len(),
    ensures
        ({
            let plan = experiment.plan(answers, attach)->Ok_0;
            let incident = experiment.profile.events[event];
            let rule = plan.timeline.events[event].rules[k];
            let name = plan.bindings()[k].0;
            &&& plan.timeline.events.len() == experiment.profile.events.len()
            &&& plan.timeline.events[event].at_ms == incident.at_ms
            &&& plan.timeline.events[event].rules.len() == plan.bindings().len()
            &&& forall|i: int|
                0 <= i < incident.faults.len() && (#[trigger] incident.faults[i]).0 == name
                    ==> carries(rule, incident.faults[i].1)
            &&& (forall|i: int|
                0 <= i < incident.faults.len() ==> (#[trigger] incident.faults[i]).0 != name)
                ==> carries(rule, incident.fault)
            &&& rule.loss_algorithm == 0
            &&& rule.ge_enter_permyriad == 0 && rule.ge_recover_permyriad == 0
            &&& rule.ge_good_loss_permyriad == 0 && rule.ge_bad_loss_permyriad == 0
            &&& rule.ge_idle_reset_secs == 0
        }),
{
    let plan = experiment.plan(answers, attach)->Ok_0;
    let incident = experiment.profile.events[event];
    let name = plan.bindings()[k].0;
    assert(plan.timeline.events[event].rules == bound_rules(incident, plan.bindings()));
    assert(plan.timeline.events[event].rules[k] == bound_rule(incident, plan.bindings()[k]));
    fault_place_fits(incident.faults, name, 0);
    incidents_error_reaches(
        experiment.profile.events,
        experiment.profile.duration_ms,
        experiment.relations(),
        experiment.selectors.len() > 0,
        0,
        event,
    );
    assert forall|i: int|
        0 <= i < incident.faults.len() && (#[trigger] incident.faults[i]).0 == name implies carries(
        plan.timeline.events[event].rules[k],
        incident.faults[i].1,
    ) by {
        assert(names_ascend(incident.faults));
        ascending_names_differ(incident.faults, i, fault_place(incident.faults, name, 0));
    }
}

/// Every rule of a timeline stands for its binding: it has the binding's number,
/// which is its place, and is for its source, its destination, its protocol and
/// its port, where zero stands for any.
pub proof fn planned_rules_stand_for_their_bindings(
    experiment: Experiment,
    answers: Seq<Answers>,
    attach: Workload,
    event: int,
    k: int,
)
    requires
        experiment.plan(answers, attach) is Ok,
        0 <= event < experiment.profile.events.len(),
        0 <= k < experiment.plan(answers, attach)->Ok_0.bindings().len(),
    ensures
        ({
            let plan = experiment.plan(answers, attach)->Ok_0;
            let rule = plan.timeline.events[event].rules[k];
            let binding = plan.bindings()[k].1;
            &&& rule.id == k
            &&& binding.rule_id == k
            &&& rule.source == binding.source
            &&& rule.destination == binding.destination
            &&& binding.protocol == NetworkProtocol::Any ==> rule.protocol == 0
            &&& binding.protocol == NetworkProtocol::Tcp ==> rule.protocol == 6
            &&& binding.protocol == NetworkProtocol::Udp ==> rule.protocol == 17
            &&& binding.port matches Some(port) ==> rule.destination_port == port
            &&& binding.port is None ==> rule.destination_port == 0
        }),
{
    let plan = experiment.plan(answers, attach)->Ok_0;
    let incident = experiment.profile.events[event];
    assert(plan.timeline.events[event].rules == bound_rules(incident, plan.bindings()));
    assert(plan.timeline.events[event].rules[k] == bound_rule(incident, plan.bindings()[k]));
    settlements_are_of_their_relations(experiment, answers, experiment.relations().len());
    let settled = experiment.settlements(answers, experiment.relations().len())->Ok_0;
    crate::rerun::rules_are_numbered_in_order(settled, settled.len());
    assert(plan.selectors == all_numbered(settled));
}

proof fn settlements_are_of_their_relations(
    experiment: Experiment,
    answers: Seq<Answers>,
    n: nat,
)
    requires
        experiment.settlements(answers, n) is Ok,
    ensures
        experiment.settlements(answers, n)->Ok_0.len() == n,
        forall|i: int|
            0 <= i < n ==> settlement(experiment.relations()[i], answers[i].0, answers[i].1)
                == Ok::<Settled, Seq<char>>(
                #[trigger] experiment.settlements(answers, n)->Ok_0[i],
            ),
    decreases n,
{
    if n > 0 {
        settlements_are_of_their_relations(experiment, answers, (n - 1) as nat);
        let before = experiment.settlements(answers, (n - 1) as nat)->Ok_0;
        let after = experiment.settlements(answers, n)->Ok_0;
        assert forall|i: int| 0 <= i < n implies settlement(
            experiment.relations()[i],
            answers[i].0,
            answers[i].1,
        ) == Ok::<Settled, Seq<char>>(#[trigger] after[i]) by {
            if i < n - 1 {
                assert(after[i] == before[i]);
            }
        }
    }
}

/// A plan is of its experiment: it has its version, its name, its traffic and
/// its attach point, and its timeline is a profile of the experiment's name
/// and duration that is aimed at the attach point.
pub proof fn plans_keep_the_experiment(
    experiment: Experiment,
    answers: Seq<Answers>,
    attach: Workload,
)
    requires
        experiment.plan(answers, attach) is Ok,
    ensures
        ({
            let plan = experiment.plan(answers, attach)->Ok_0;
            &&& plan.version == experiment.version == 1
            &&& plan.name == experiment.name
            &&& plan.traffic == experiment.traffic
            &&& plan.attach == attach
            &&& plan.timeline.version == 1
            &&& plan.timeline.kind == TimelineKind::Profile
            &&& plan.timeline.name == Some(experiment.name)
            &&& plan.timeline.duration_ms == experiment.profile.duration_ms
            &&& plan.timeline.target == Some(attach.uri())
            &&& plan.destination is Some <==> experiment.destination is Some
            &&& experiment.destination is Some ==> plan.destination == Some(
                plan.selectors[0].destination,
            )
        }),
{
}

/// Whether a pair is among pairs.
pub open spec fn paired(pairs: Seq<Pair>, source: Option<Network>, destination: Network) -> bool {
    exists|k: int| 0 <= k < pairs.len() && #[trigger] pairs[k] == (source, destination)
}

proof fn family_holds(networks: Seq<Network>, v4: bool, n: nat)
    requires
        n <= networks.len(),
    ensures
        forall|i: int|
            0 <= i < of_family(networks, v4, n).len() ==> (#[trigger] of_family(
                networks,
                v4,
                n,
            )[i]).v4 == v4 && networks.contains(of_family(networks, v4, n)[i]),
        forall|j: int|
            0 <= j < n && (#[trigger] networks[j]).v4 == v4 ==> of_family(networks, v4, n).contains(
                networks[j],
            ),
    decreases n,
{
    if n > 0 {
        let m = (n - 1) as nat;
        family_holds(networks, v4, m);
        let before = of_family(networks, v4, m);
        let after = of_family(networks, v4, n);
        assert forall|i: int| 0 <= i < after.len() implies (#[trigger] after[i]).v4 == v4
            && networks.contains(after[i]) by {
            if i < before.len() {
                assert(after[i] == before[i]);
            } else {
                assert(after[i] == networks[m as int]);
            }
        }
        assert forall|j: int| 0 <= j < n && (#[trigger] networks[j]).v4 == v4 implies after.contains(
            networks[j],
        ) by {
            if j < m {
                let i = choose|i: int| 0 <= i < before.len() && before[i] == networks[j];
                assert(after[i] == networks[j]);
            } else {
                assert(after[after.len() - 1] == networks[j]);
            }
        }
    }
}

proof fn pairs_hold(named: bool, sources: Seq<Network>, destinations: Seq<Network>, n: nat)
    requires
        n <= destinations.len(),
    ensures
        // Every pair is of a destination and, where sources are named, of a
        // source of its family.
        forall|k: int|
            0 <= k < pairs_for(named, sources, destinations, n).len() ==> {
                let pair = #[trigger] pairs_for(named, sources, destinations, n)[k];
                &&& destinations.contains(pair.1)
                &&& !named ==> pair.0 is None
                &&& named ==> pair.0 is Some && sources.contains(pair.0->0) && pair.0->0.v4
                    == pair.1.v4
            },
        // And every such pair is there.
        forall|d: int|
            0 <= d < n && !named ==> paired(
                pairs_for(named, sources, destinations, n),
                None,
                #[trigger] destinations[d],
            ),
        forall|d: int, s: int|
            0 <= d < n && named && 0 <= s < sources.len() && (#[trigger] sources[s]).v4
                == destinations[d].v4 ==> paired(
                pairs_for(named, sources, destinations, n),
                Some(sources[s]),
                #[trigger] destinations[d],
            ),
    decreases n,
{
    if n > 0 {
        let m = (n - 1) as nat;
        pairs_hold(named, sources, destinations, m);
        let destination = destinations[m as int];
        family_holds(sources, destination.v4, sources.len());
        let fitting = of_family(sources, destination.v4, sources.len());
        let choices = sources_for(named, sources, destination);
        let added = choices.map_values(|source: Option<Network>| (source, destination));
        let before = pairs_for(named, sources, destinations, m);
        let after = pairs_for(named, sources, destinations, n);
        assert(after == before + added);
        assert forall|k: int| 0 <= k < after.len() implies {
            let pair = #[trigger] after[k];
            &&& destinations.contains(pair.1)
            &&& !named ==> pair.0 is None
            &&& named ==> pair.0 is Some && sources.contains(pair.0->0) && pair.0->0.v4 == pair.1.v4
        } by {
            if k < before.len() {
                assert(after[k] == before[k]);
            } else {
                let j = k - before.len();
                assert(after[k] == added[j]);
                assert(added[j] == (choices[j], destination));
                assert(destinations.contains(destination));
                if named {
                    assert(choices[j] == Some(fitting[j]));
                }
            }
        }
        assert forall|d: int| 0 <= d < n && !named implies paired(
            after,
            None,
            #[trigger] destinations[d],
        ) by {
            if d < m {
                assert(paired(before, None, destinations[d]));
                let k = choose|k: int|
                    0 <= k < before.len() && #[trigger] before[k] == (
                        None::<Network>,
                        destinations[d],
                    );
                assert(after[k] == before[k]);
            } else {
                assert(added[0] == (None::<Network>, destination));
                assert(after[before.len() as int] == added[0]);
            }
        }
        assert forall|d: int, s: int|
            0 <= d < n && named && 0 <= s < sources.len() && (#[trigger] sources[s]).v4
                == destinations[d].v4 implies paired(
            after,
            Some(sources[s]),
            #[trigger] destinations[d],
        ) by {
            if d < m {
                assert(paired(before, Some(sources[s]), destinations[d]));
                let k = choose|k: int|
                    0 <= k < before.len() && #[trigger] before[k] == (
                        Some(sources[s]),
                        destinations[d],
                    );
                assert(after[k] == before[k]);
            } else {
                assert(fitting.contains(sources[s]));
                let j = choose|j: int| 0 <= j < fitting.len() && fitting[j] == sources[s];
                assert(choices[j] == Some(sources[s]));
                assert(added[j] == (Some(sources[s]), destination));
                assert(after[before.len() + j] == added[j]);
            }
        }
    }
}

/// Whether two lists hold networks of the same family.
pub open spec fn share_a_family(sources: Seq<Network>, destinations: Seq<Network>) -> bool {
    exists|s: int, d: int|
        0 <= s < sources.len() && 0 <= d < destinations.len() && (#[trigger] sources[s]).v4 == (
        #[trigger] destinations[d]).v4
}

/// A relation is settled exactly when its destination stands for networks, and
/// its source, where it has one, for some of their family.
pub proof fn relations_settle_exactly(authored: Authored, to: Answer, from: Answer)
    ensures
        authored.source is None ==> (settlement(authored, to, from) is Ok <==> resolution(
            authored.destination.selector,
            to,
        ) is Ok && resolution(authored.destination.selector, to)->Ok_0.len() > 0),
        authored.source matches Some(text) ==> (settlement(authored, to, from) is Ok
            <==> resolution(authored.destination.selector, to) is Ok && resolution(text, from) is Ok
            && share_a_family(
            resolution(text, from)->Ok_0,
            resolution(authored.destination.selector, to)->Ok_0,
        )),
        settlement(authored, to, from) matches Ok(settled) ==> {
            &&& settled.authored == authored
            &&& settled.destination_networks == resolution(
                authored.destination.selector,
                to,
            )->Ok_0
            &&& authored.source matches Some(text) ==> settled.source_networks == resolution(
                text,
                from,
            )->Ok_0
        },
{
    if let Ok(destinations) = resolution(authored.destination.selector, to) {
        let sources = match authored.source {
            None => Ok(Seq::<Network>::empty()),
            Some(text) => resolution(text, from),
        };
        if sources is Ok {
            let list = sources->Ok_0;
            let named = authored.source is Some;
            pairs_hold(named, list, destinations, destinations.len());
            let pairs = pairs_for(named, list, destinations, destinations.len());
            if pairs.len() > 0 {
                let pair = pairs[0];
                let d = choose|d: int| 0 <= d < destinations.len() && destinations[d] == pair.1;
                if named {
                    let s = choose|s: int| 0 <= s < list.len() && list[s] == pair.0->0;
                    assert(list[s].v4 == destinations[d].v4);
                }
            }
            if named && share_a_family(list, destinations) {
                let (s, d) = choose|s: int, d: int|
                    0 <= s < list.len() && 0 <= d < destinations.len() && (#[trigger] list[s]).v4
                        == (#[trigger] destinations[d]).v4;
                assert(paired(pairs, Some(list[s]), destinations[d]));
            }
            if !named && destinations.len() > 0 {
                assert(paired(pairs, None, destinations[0]));
            }
        }
    }
}

proof fn settlements_end_at_the_first_fault(experiment: Experiment, answers: Seq<Answers>, n: nat)
    ensures
        experiment.settlements(answers, n) is Ok <==> forall|i: int|
            0 <= i < n ==> settlement(
                #[trigger] experiment.relations()[i],
                answers[i].0,
                answers[i].1,
            ) is Ok,
        experiment.settlements(answers, n) matches Ok(settled) ==> settled.len() == n && forall|i: int|
            0 <= i < n ==> Ok::<Settled, Seq<char>>(#[trigger] settled[i]) == settlement(
                experiment.relations()[i],
                answers[i].0,
                answers[i].1,
            ),
    decreases n,
{
    if n > 0 {
        let m = (n - 1) as nat;
        settlements_end_at_the_first_fault(experiment, answers, m);
        if experiment.settlements(answers, n) is Err && experiment.settlements(answers, m) is Ok {
            assert(settlement(experiment.relations()[m as int], answers[m as int].0, answers[m
                as int].1) is Err);
        }
    }
}

/// A plan is made exactly when the experiment is sound, the attach point is its
/// source on an interface that is known, every relation settles, the rules stay
/// apart and are not too many, and the timeline of those rules is sound.
pub proof fn plans_are_made_exactly(
    experiment: Experiment,
    answers: Seq<Answers>,
    attach: Workload,
    settled: Seq<Settled>,
)
    requires
        settled.len() == experiment.relations().len(),
        forall|i: int|
            0 <= i < settled.len() ==> (settlement(
                experiment.relations()[i],
                answers[i].0,
                answers[i].1,
            ) is Ok ==> settlement(
                experiment.relations()[i],
                answers[i].0,
                answers[i].1,
            )->Ok_0 == #[trigger] settled[i]),
        rules_before(settled, settled.len()) <= u32::MAX,
    ensures
        experiment.plan(answers, attach) is Ok <==> {
            &&& experiment.error() is None
            &&& attach.concrete_error() is None
            &&& experiment.source.attach_error(attach) is None
            &&& forall|i: int|
                0 <= i < experiment.relations().len() ==> settlement(
                    #[trigger] experiment.relations()[i],
                    answers[i].0,
                    answers[i].1,
                ) is Ok
            &&& selection_notes(all_numbered(settled)) is Ok
            &&& experiment.timeline(all_numbered(settled), attach).error() is None
        },
        experiment.plan(answers, attach) matches Ok(plan) ==> plan.selectors == all_numbered(
            settled,
        ) && plan.selection_notes == selection_notes(all_numbered(settled))->Ok_0,
{
    let n = experiment.relations().len();
    settlements_end_at_the_first_fault(experiment, answers, n);
    if let Ok(found) = experiment.settlements(answers, n) {
        assert(found =~= settled) by {
            assert forall|i: int| 0 <= i < n implies #[trigger] found[i] == settled[i] by {
                let relation = experiment.relations()[i];
                assert(settlement(relation, answers[i].0, answers[i].1) is Ok);
            }
        }
    }
}

/// Whether a binding is among rules.
pub open spec fn bound(rules: Seq<Binding>, source: Option<Network>, destination: Network) -> bool {
    exists|k: int|
        0 <= k < rules.len() && (#[trigger] rules[k]).source == source && rules[k].destination
            == destination
}

/// A plan holds every relation of its experiment with the protocol and the port
/// of its destination, and binds each network of the destination: without a
/// source to every source, and else to each source network of its family. It
/// binds nothing else.
pub proof fn plans_bind_every_pair(
    experiment: Experiment,
    answers: Seq<Answers>,
    attach: Workload,
    i: int,
)
    requires
        experiment.plan(answers, attach) is Ok,
        0 <= i < experiment.relations().len(),
    ensures
        ({
            let plan = experiment.plan(answers, attach)->Ok_0;
            let authored = experiment.relations()[i];
            let relation = plan.selectors[i];
            let to = relation.destination.networks;
            let from = relation.source_networks;
            &&& plan.selectors.len() == experiment.relations().len()
            &&& relation.name == authored.name
            &&& relation.source_selector == authored.source
            &&& relation.destination.selector == authored.destination.selector
            &&& relation.destination.protocol == authored.destination.protocol
            &&& relation.destination.port == authored.destination.port
            &&& relation.rules.len() > 0
            &&& forall|k: int|
                0 <= k < relation.rules.len() ==> {
                    let binding = #[trigger] relation.rules[k];
                    &&& binding.protocol == authored.destination.protocol
                    &&& binding.port == authored.destination.port
                    &&& to.contains(binding.destination)
                    &&& authored.source is None <==> binding.source is None
                    &&& binding.source matches Some(source) ==> from.contains(source) && source.v4
                        == binding.destination.v4
                }
            &&& authored.source is None ==> forall|d: int|
                0 <= d < to.len() ==> bound(relation.rules, None, #[trigger] to[d])
            &&& authored.source is Some ==> forall|d: int, s: int|
                0 <= d < to.len() && 0 <= s < from.len() && (#[trigger] from[s]).v4 == to[d].v4
                    ==> bound(relation.rules, Some(from[s]), #[trigger] to[d])
            &&& resolution(authored.destination.selector, answers[i].0) == Ok::<
                Seq<Network>,
                Seq<char>,
            >(to)
            &&& authored.source matches Some(text) ==> resolution(text, answers[i].1) == Ok::<
                Seq<Network>,
                Seq<char>,
            >(from)
        }),
{
    let plan = experiment.plan(answers, attach)->Ok_0;
    let count = experiment.relations().len();
    settlements_are_of_their_relations(experiment, answers, count);
    let settled = experiment.settlements(answers, count)->Ok_0;
    assert(plan.selectors == all_numbered(settled));
    let one = settled[i];
    let authored = experiment.relations()[i];
    let relation = plan.selectors[i];
    assert(relation == numbered(one, rules_before(settled, i as nat)));
    let named = authored.source is Some;
    let to = one.destination_networks;
    let from = one.source_networks;
    pairs_hold(named, from, to, to.len());
    assert(one.pairs == pairs_for(named, from, to, to.len()));
    assert forall|k: int| 0 <= k < relation.rules.len() implies {
        let binding = #[trigger] relation.rules[k];
        &&& binding.protocol == authored.destination.protocol
        &&& binding.port == authored.destination.port
        &&& to.contains(binding.destination)
        &&& authored.source is None <==> binding.source is None
        &&& binding.source matches Some(source) ==> from.contains(source) && source.v4
            == binding.destination.v4
    } by {
        assert(relation.rules[k].source == one.pairs[k].0);
        assert(relation.rules[k].destination == one.pairs[k].1);
    }
    assert forall|d: int| 0 <= d < to.len() && !named implies bound(
        relation.rules,
        None,
        #[trigger] to[d],
    ) by {
        assert(paired(one.pairs, None, to[d]));
        let k = choose|k: int|
            0 <= k < one.pairs.len() && #[trigger] one.pairs[k] == (None::<Network>, to[d]);
        assert(relation.rules[k].source == one.pairs[k].0);
    }
    assert forall|d: int, s: int|
        named && 0 <= d < to.len() && 0 <= s < from.len() && (#[trigger] from[s]).v4
            == to[d].v4 implies bound(relation.rules, Some(from[s]), #[trigger] to[d]) by {
        assert(paired(one.pairs, Some(from[s]), to[d]));
        let k = choose|k: int|
            0 <= k < one.pairs.len() && #[trigger] one.pairs[k] == (Some(from[s]), to[d]);
        assert(relation.rules[k].source == one.pairs[k].0);
    }
}

/// Whether a rule with a name is one of the first `n` relations, under the name
/// of that relation.
pub open spec fn stands_in(relations: Seq<Relation>, n: int, named: Named) -> bool {
    exists|i: int, j: int|
        0 <= i < n && 0 <= j < relations[i].rules.len() && named == (
            relations[i].name,
            #[trigger] relations[i].rules[j],
        )
}

/// The bindings of a plan are the rules of its relations, in their order, each
/// under the name of its relation.
pub proof fn bindings_bear_their_names(relations: Seq<Relation>, n: nat)
    requires
        n <= relations.len(),
    ensures
        forall|k: int|
            0 <= k < named_rules(relations, n).len() ==> stands_in(
                relations,
                n as int,
                #[trigger] named_rules(relations, n)[k],
            ),
        forall|i: int, j: int|
            0 <= i < n && 0 <= j < relations[i].rules.len() ==> named_rules(relations, n).contains(
                (relations[i].name, #[trigger] relations[i].rules[j]),
            ),
    decreases n,
{
    if n > 0 {
        let m = (n - 1) as nat;
        bindings_bear_their_names(relations, m);
        let relation = relations[m as int];
        let added = relation.rules.map_values(|binding: Binding| (relation.name, binding));
        let before = named_rules(relations, m);
        let after = named_rules(relations, n);
        assert forall|k: int| 0 <= k < after.len() implies stands_in(
            relations,
            n as int,
            #[trigger] after[k],
        ) by {
            if k < before.len() {
                assert(after[k] == before[k]);
                assert(stands_in(relations, m as int, before[k]));
                let (i, j) = choose|i: int, j: int|
                    0 <= i < m && 0 <= j < relations[i].rules.len() && before[k] == (
                        relations[i].name,
                        #[trigger] relations[i].rules[j],
                    );
                assert(after[k] == (relations[i].name, relations[i].rules[j]));
            } else {
                let j = k - before.len();
                assert(after[k] == added[j]);
                assert(after[k] == (relations[m as int].name, relations[m as int].rules[j]));
            }
        }
        assert forall|i: int, j: int| 0 <= i < n && 0 <= j < relations[i].rules.len() implies after.contains(
            (relations[i].name, #[trigger] relations[i].rules[j]),
        ) by {
            let wanted = (relations[i].name, relations[i].rules[j]);
            if i < m {
                let k = choose|k: int| 0 <= k < before.len() && before[k] == wanted;
                assert(after[k] == wanted);
            } else {
                assert(after[before.len() + j] == added[j]);
            }
        }
    }
}

/// A text that writes a network or an address stands for just that, an address
/// for the network of all its bits; any other text for the hosts that were
/// answered, at least one.
pub proof fn texts_stand_for_networks(text: Seq<char>, answer: Answer, address: Address)
    ensures
        literal(text) matches Some(network) ==> resolution(text, answer) == Ok::<
            Seq<Network>,
            Seq<char>,
        >(seq![network]),
        literal(text) is None ==> (answer matches Err(error) ==> resolution(text, answer) == Err::<
            Seq<Network>,
            Seq<char>,
        >(error)),
        literal(text) is None ==> (answer matches Ok(addresses) ==> {
            &&& resolution(text, answer) is Ok <==> addresses.len() > 0
            &&& addresses.len() > 0 ==> resolution(text, answer)->Ok_0 == snapshot(
                addresses,
                addresses.len(),
            )
        }),
        IpNet::host_of(address).octets == address.octets,
        IpNet::host_of(address).v4 == address.v4,
        IpNet::host_of(address).prefix_len == if address.v4 {
            32int
        } else {
            128
        },
{
}

proof fn binding_place_fits(named: Seq<Named>, id: u32, from: int)
    requires
        0 <= from <= named.len(),
    ensures
        from <= binding_place(named, id, from) <= named.len(),
        forall|i: int|
            from <= i < binding_place(named, id, from) ==> (#[trigger] named[i]).1.rule_id != id,
        binding_place(named, id, from) < named.len() ==> named[binding_place(
            named,
            id,
            from,
        )].1.rule_id == id,
    decreases named.len() - from,
{
    if from < named.len() && named[from].1.rule_id != id {
        binding_place_fits(named, id, from + 1);
    }
}

proof fn bound_rules_reach(rules: Seq<Rule>, named: Seq<Named>, index: nat, from: int, at: int)
    requires
        0 <= from <= at < rules.len(),
        bound_rules_error(rules, named, index, from) is None,
    ensures
        exists|k: int|
            0 <= k < named.len() && (#[trigger] named[k]).1.rule_id == rules[at].id
                && meets_binding(rules[at], named[k].1),
    decreases at - from,
{
    if from < at {
        bound_rules_reach(rules, named, index, from + 1, at);
    } else {
        binding_place_fits(named, rules[at].id, 0);
        let k = binding_place(named, rules[at].id, 0);
        assert(named[k].1.rule_id == rules[at].id);
    }
}

proof fn bound_events_reach(plan: Plan, from: int, at: int)
    requires
        0 <= from <= at < plan.timeline.events.len(),
        bound_events_error(plan.timeline.events, plan.bindings(), from) is None,
    ensures
        plan.timeline.events[at].rules.len() == plan.bindings().len(),
        bound_rules_error(plan.timeline.events[at].rules, plan.bindings(), at as nat, 0) is None,
    decreases at - from,
{
    if from < at {
        bound_events_reach(plan, from + 1, at);
    }
}

/// A plan that is carried out again was not tampered with: it acts on the target
/// of its attach point, no two of its bindings share a number, and every event
/// has as many rules as there are bindings, each of them for the source, the
/// destination, the protocol and the port of the binding of its number.
pub proof fn rerun_plans_are_whole(plan: Plan, event: int, at: int)
    requires
        plan.rerun_error() is None,
        0 <= event < plan.timeline.events.len(),
        0 <= at < plan.timeline.events[event].rules.len(),
    ensures
        plan.version == 1,
        plan.timeline.target == Some(plan.attach.uri()),
        plan.selectors.len() > 0,
        plan.timeline.events[event].rules.len() == plan.bindings().len(),
        forall|i: int, j: int|
            0 <= i < j < plan.bindings().len() ==> (#[trigger] plan.bindings()[i]).1.rule_id != (
            #[trigger] plan.bindings()[j]).1.rule_id,
        exists|k: int|
            {
                let rule = plan.timeline.events[event].rules[at];
                let binding = (#[trigger] plan.bindings()[k]).1;
                &&& 0 <= k < plan.bindings().len()
                &&& binding.rule_id == rule.id
                &&& rule.source == binding.source
                &&& rule.destination == binding.destination
                &&& binding.protocol == NetworkProtocol::Any ==> rule.protocol == 0
                &&& binding.protocol == NetworkProtocol::Tcp ==> rule.protocol == 6
                &&& binding.protocol == NetworkProtocol::Udp ==> rule.protocol == 17
                &&& binding.port matches Some(port) ==> rule.destination_port == port
                &&& binding.port is None ==> rule.destination_port == 0
            },
{
    bound_events_reach(plan, 0, event);
    bound_rules_reach(
        plan.timeline.events[event].rules,
        plan.bindings(),
        event as nat,
        0,
        at,
    );
    let k = choose|k: int|
        0 <= k < plan.bindings().len() && (#[trigger] plan.bindings()[k]).1.rule_id
            == plan.timeline.events[event].rules[at].id && meets_binding(
            plan.timeline.events[event].rules[at],
            plan.bindings()[k].1,
        );
    assert(plan.bindings()[k].1.rule_id == plan.timeline.events[event].rules[at].id);
}

/// Whether a rule stands for one of the bindings: it bears its number and says
/// the same of where it applies.
pub open spec fn stands_for_one(rule: Rule, named: Seq<Named>) -> bool {
    exists|k: int|
        {
            let binding = (#[trigger] named[k]).1;
            &&& 0 <= k < named.len()
            &&& binding.rule_id == rule.id
            &&& rule.source == binding.source
            &&& rule.destination == binding.destination
            &&& binding.protocol == NetworkProtocol::Any ==> rule.protocol == 0
            &&& binding.protocol == NetworkProtocol::Tcp ==> rule.protocol == 6
            &&& binding.protocol == NetworkProtocol::Udp ==> rule.protocol == 17
            &&& binding.port matches Some(port) ==> rule.destination_port == port
            &&& binding.port is None ==> rule.destination_port == 0
        }
}

proof fn bound_rules_are_accepted(rules: Seq<Rule>, named: Seq<Named>, index: nat, from: int)
    requires
        0 <= from <= rules.len(),
        !bindings_repeat(named),
        forall|at: int| from <= at < rules.len() ==> stands_for_one(#[trigger] rules[at], named),
    ensures
        bound_rules_error(rules, named, index, from) is None,
    decreases rules.len() - from,
{
    if from < rules.len() {
        let rule = rules[from];
        assert(stands_for_one(rule, named));
        let k = choose|k: int|
            {
                let binding = (#[trigger] named[k]).1;
                &&& 0 <= k < named.len()
                &&& binding.rule_id == rule.id
                &&& rule.source == binding.source
                &&& rule.destination == binding.destination
                &&& binding.protocol == NetworkProtocol::Any ==> rule.protocol == 0
                &&& binding.protocol == NetworkProtocol::Tcp ==> rule.protocol == 6
                &&& binding.protocol == NetworkProtocol::Udp ==> rule.protocol == 17
                &&& binding.port matches Some(port) ==> rule.destination_port == port
                &&& binding.port is None ==> rule.destination_port == 0
            };
        binding_place_fits(named, rule.id, 0);
        let at = binding_place(named, rule.id, 0);
        assert(at == k) by {
            if at < k {
                assert(named[at].1.rule_id == named[k].1.rule_id);
            } else if at > k {
                assert(named[k].1.rule_id != rule.id);
            }
        }
        assert(meets_binding(rule, named[at].1));
        bound_rules_are_accepted(rules, named, index, from + 1);
    }
}

proof fn bound_events_are_accepted(plan: Plan, from: int)
    requires
        0 <= from <= plan.timeline.events.len(),
        !bindings_repeat(plan.bindings()),
        forall|event: int|
            0 <= event < plan.timeline.events.len() ==> stands_for_all(
                #[trigger] plan.timeline.events[event].rules,
                plan.bindings(),
            ),
    ensures
        bound_events_error(plan.timeline.events, plan.bindings(), from) is None,
    decreases plan.timeline.events.len() - from,
{
    if from < plan.timeline.events.len() {
        let rules = plan.timeline.events[from].rules;
        assert(stands_for_all(rules, plan.bindings()));
        bound_rules_are_accepted(rules, plan.bindings(), from as nat, 0);
        bound_events_are_accepted(plan, from + 1);
    }
}

/// Whether rules are as many as the bindings and each stands for one of them.
pub open spec fn stands_for_all(rules: Seq<Rule>, named: Seq<Named>) -> bool {
    &&& rules.len() == named.len()
    &&& forall|at: int| 0 <= at < rules.len() ==> stands_for_one(#[trigger] rules[at], named)
}

/// A plan can be run again exactly when it is of the version, its attach point
/// is known and is the target of its sound timeline, it has relations whose
/// numbers differ, and the rules of every event stand for its bindings.
pub proof fn whole_plans_are_rerun(plan: Plan)
    ensures
        plan.rerun_error() is None <==> {
            &&& plan.version == 1
            &&& plan.attach.concrete_error() is None
            &&& plan.timeline.error() is None
            &&& plan.timeline.target == Some(plan.attach.uri())
            &&& plan.selectors.len() > 0
            &&& !bindings_repeat(plan.bindings())
            &&& forall|event: int|
                0 <= event < plan.timeline.events.len() ==> stands_for_all(
                    #[trigger] plan.timeline.events[event].rules,
                    plan.bindings(),
                )
        },
{
    let events = plan.timeline.events;
    if plan.rerun_error() is None {
        assert forall|event: int| 0 <= event < events.len() implies stands_for_all(
            #[trigger] events[event].rules,
            plan.bindings(),
        ) by {
            bound_events_reach(plan, 0, event);
            assert forall|at: int| 0 <= at < events[event].rules.len() implies stands_for_one(
                #[trigger] events[event].rules[at],
                plan.bindings(),
            ) by {
                let rule = events[event].rules[at];
                let named = plan.bindings();
                bound_rules_reach(events[event].rules, named, event as nat, 0, at);
                let k = choose|k: int|
                    0 <= k < named.len() && (#[trigger] named[k]).1.rule_id == rule.id
                        && meets_binding(rule, named[k].1);
                assert(named[k].1.rule_id == rule.id);
            }
        }
    } else if plan.version == 1 && !bindings_repeat(plan.bindings()) && (forall|event: int|
        0 <= event < events.len() ==> stands_for_all(
            #[trigger] events[event].rules,
            plan.bindings(),
        )) {
        bound_events_are_accepted(plan, 0);
    }
}

/// Names are asked of the resolver, each by its own text: the destination of a
/// relation first, and then its source where the destination was found. What is
/// written as a network or an address is asked of nobody.
pub proof fn names_are_asked_of_the_resolver<R: DestinationResolver>(
    resolver: &R,
    experiment: Experiment,
    answers: Seq<Answers>,
    attach: Workload,
    i: int,
)
    requires
        experiment.resolved_by(resolver, answers, attach),
        experiment.attach_error(attach) is None,
        0 <= i < answers.len(),
        experiment.settlements(answers, i as nat) is Ok,
    ensures
        ({
            let relation = experiment.relations()[i];
            let (to, from) = answers[i];
            &&& literal(relation.destination.selector) is None ==> asked(
                resolver,
                relation.destination.selector,
                to,
            )
            &&& relation.source is Some && literal(relation.source->0) is None && resolution(
                relation.destination.selector,
                to,
            ) is Ok ==> asked(resolver, relation.source->0, from)
        }),
{
    assert(answered_by(resolver, experiment.relations()[i], answers[i]));
}

/// Whether an answer is one that the resolver gave for a text.
pub open spec fn asked<R: DestinationResolver>(
    resolver: &R,
    text: Seq<char>,
    answer: Answer,
) -> bool {
    exists|name: &str, given: Result<Vec<IpAddr>, String>|
        name@ == text && #[trigger] call_ensures(R::resolve, (resolver, name), given) && match (
            given,
            answer,
        ) {
            (Ok(addresses), Ok(list)) => addresses@.len() == list.len() && forall|k: int|
                0 <= k < list.len() ==> #[trigger] list[k] == addresses@[k]@,
            (Err(message), Err(words)) => message@ == words,
            _ => false,
        }
}

} // verus!
