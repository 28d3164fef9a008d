//! What is accepted and what is refused, and what an accepted rule asks for.

use vstd::prelude::*;
use crate::control::outage_of;
use crate::experiment_spec::{
    covers_exactly, incidents_error, named_fault, named_relation, names_repeat, selectors_error,
    faults_error, Authored, Destination, Experiment, FaultSpec, Incident, NetworkProtocol, Profile,
};
use crate::options::{
    bandwidth_reading, direction_error, duration_reading, egress_only, Direction, LossAlgorithm,
    Options, Protocol, RuleReading,
};
use crate::protocol::{
    event_rules_error, events_error, rule_repeats, repeats_id, Change, Rule, RuleSpec, Score,
};
use crate::rule::{Percent, RuleInput};
use crate::rule_store::{compiled, filed_under, grouping_error, repeats_source, ruleset_error};
use crate::scenario::{rules_error, scenario_error, ScenarioRule};
use crate::text::{blank, without_prefix};
use crate::words::names_ascend;
use crate::workload_spec::{Traffic, Workload};

verus! {

/// A rule is accepted exactly when its number has a counter, its source and its
/// destination are of one family, its algorithm is known, no rate exceeds the
/// whole, burst loss can begin and end, and a port goes with TCP or UDP. The
/// delay, the jitter, the bandwidth and the seed are free.
pub proof fn rules_are_accepted_exactly(rule: Rule)
    ensures
        rule.error() is None <==> {
            &&& rule.id < 1024
            &&& rule.source matches Some(source) ==> source.v4 == rule.destination.v4
            &&& rule.loss_algorithm <= 2
            &&& rule.drop_permyriad <= 10_000
            &&& rule.ge_enter_permyriad <= 10_000
            &&& rule.ge_recover_permyriad <= 10_000
            &&& rule.ge_good_loss_permyriad <= 10_000
            &&& rule.ge_bad_loss_permyriad <= 10_000
            &&& rule.duplicate_permyriad <= 10_000
            &&& rule.reorder_permyriad <= 10_000
            &&& rule.loss_algorithm == 2 ==> rule.ge_enter_permyriad > 0
                && rule.ge_recover_permyriad > 0
            &&& rule.destination_port != 0 ==> rule.protocol == 6 || rule.protocol == 17
        },
{
}

/// At least one rule, all of them valid, and no two of one number.
pub open spec fn sound_rules(rules: Seq<Rule>) -> bool {
    &&& rules.len() > 0
    &&& forall|i: int| 0 <= i < rules.len() ==> (#[trigger] rules[i]).error() is None
    &&& forall|i: int, j: int|
        0 <= i < j < rules.len() ==> (#[trigger] rules[i]).id != (#[trigger] rules[j]).id
}

proof fn sound_rules_pass(rules: Seq<Rule>, index: nat, from: int)
    requires
        sound_rules(rules),
        0 <= from <= rules.len(),
    ensures
        event_rules_error(rules, index, from) is None,
    decreases rules.len() - from,
{
    if from < rules.len() {
        assert(rules[from].error() is None);
        assert(!rule_repeats(rules, from)) by {
            if rule_repeats(rules, from) {
                let j = choose|j: int| 0 <= j < from && #[trigger] rules[j].id == rules[from].id;
                assert(rules[j].id != rules[from].id);
            }
        }
        sound_rules_pass(rules, index, from + 1);
    }
}

/// Whether the events of a timeline follow each other, each with sound rules.
pub open spec fn sound_events(events: Seq<Change>) -> bool {
    &&& forall|i: int| 0 < i < events.len() ==> events[i - 1].at_ms < (#[trigger] events[i]).at_ms
    &&& forall|i: int| 0 <= i < events.len() ==> sound_rules((#[trigger] events[i]).rules)
}

proof fn sound_events_pass(events: Seq<Change>, from: int)
    requires
        sound_events(events),
        0 <= from <= events.len(),
    ensures
        events_error(events, from) is None,
    decreases events.len() - from,
{
    if from < events.len() {
        assert(sound_rules(events[from].rules));
        if from > 0 {
            assert(events[from - 1].at_ms < events[from].at_ms);
        }
        sound_rules_pass(events[from].rules, from as nat, 0);
        sound_events_pass(events, from + 1);
    }
}

/// A timeline is accepted exactly when it is of the known version, begins with
/// an event at zero, moves forward with every event, lasts at least to the last
/// one, and puts sound rules in force with each.
pub proof fn timelines_are_accepted_exactly(timeline: Score)
    ensures
        timeline.error() is None <==> {
            &&& timeline.version == 1
            &&& timeline.events.len() > 0
            &&& timeline.events[0].at_ms == 0
            &&& timeline.events.last().at_ms <= timeline.duration_ms
            &&& sound_events(timeline.events)
        },
{
    if timeline.error() is None {
        crate::protocol::valid_timeline_moves_forward(timeline);
        assert forall|i: int| 0 <= i < timeline.events.len() implies sound_rules(
            (#[trigger] timeline.events[i]).rules,
        ) by {
            assert(crate::protocol::valid_ruleset(timeline.events[i].rules));
        }
    }
    if sound_events(timeline.events) {
        sound_events_pass(timeline.events, 0);
    }
}

/// Whether a percentage can be a rate: it lies within its range, and one above
/// zero does not round to nothing.
pub open spec fn representable(value: Percent) -> bool {
    value matches Percent::Within { positive, permyriad } && (positive ==> permyriad > 0)
}

/// The rules that users write are accepted exactly when all percentages can be
/// rates, a port goes with a protocol, jitter and reordering go with a delay,
/// no given time is zero, burst loss has its rates and stands alone, and what
/// comes out is an accepted rule.
pub proof fn written_rules_are_accepted_exactly(input: RuleInput)
    ensures
        input.error() is None <==> {
            &&& representable(input.loss)
            &&& representable(input.burst_recovery)
            &&& representable(input.burst_bad_loss)
            &&& representable(input.burst_good_loss)
            &&& representable(input.duplicate)
            &&& representable(input.reorder)
            &&& input.burst_loss matches Some(burst) ==> representable(burst)
            &&& input.destination_port != 0 ==> input.protocol != 0
            &&& input.jitter is Some || input.reorder.above_zero() ==> input.delay is Some
            &&& input.delay matches Some(delay) ==> delay.nanos > 0
            &&& input.jitter matches Some(jitter) ==> jitter.nanos > 0
            &&& input.burst_idle_reset matches Some(reset) ==> reset.nanos >= 1_000_000_000
            &&& input.burst_loss is Some ==> input.loss == (Percent::Within {
                positive: false,
                permyriad: 0,
            }) && input.loss_algorithm != 1
            &&& input.burst_loss is Some || input.loss_algorithm == 2 ==> input.burst_loss is Some
                && input.burst_loss->0.rate() > 0 && input.burst_recovery.rate() > 0
            &&& input.loss_algorithm <= 2
            &&& input.spec_of().error() is None
        },
{
}

/// What an accepted rule asks for is what was written: its rates in hundredths
/// of a percent, its times in nanoseconds, its bandwidth in bits per second,
/// and zero for what was left out. Burst loss brings its algorithm and its
/// rates with it; without it they are zero.
pub proof fn written_rules_ask_for_what_they_say(input: RuleInput)
    ensures
        ({
            let rule = input.spec_of();
            let bursts = input.burst_loss is Some || input.loss_algorithm == 2;
            &&& rule.id == input.id && rule.seed == input.seed
            &&& rule.source == input.source && rule.destination == input.destination
            &&& rule.protocol == input.protocol
            &&& rule.destination_port == input.destination_port
            &&& rule.drop_permyriad == input.loss.rate()
            &&& rule.duplicate_permyriad == input.duplicate.rate()
            &&& rule.reorder_permyriad == input.reorder.rate()
            &&& input.delay is None ==> rule.delay_ns == 0
            &&& input.delay matches Some(delay) ==> (delay.nanos <= u64::MAX ==> rule.delay_ns
                == delay.nanos) && (delay.nanos > u64::MAX ==> rule.delay_ns == u64::MAX)
            &&& input.jitter is None ==> rule.jitter_ns == 0
            &&& input.jitter matches Some(jitter) ==> (jitter.nanos <= u64::MAX ==> rule.jitter_ns
                == jitter.nanos) && (jitter.nanos > u64::MAX ==> rule.jitter_ns == u64::MAX)
            &&& input.bandwidth_bps is None ==> rule.bandwidth_bps == 0
            &&& input.bandwidth_bps matches Some(bits) ==> rule.bandwidth_bps == bits
            &&& bursts ==> rule.loss_algorithm == 2
            &&& !bursts ==> rule.loss_algorithm == input.loss_algorithm
            &&& input.burst_loss matches Some(burst) ==> rule.ge_enter_permyriad == burst.rate()
            &&& input.burst_loss is None ==> rule.ge_enter_permyriad == 0
            &&& bursts ==> rule.ge_recover_permyriad == input.burst_recovery.rate()
            &&& bursts ==> rule.ge_good_loss_permyriad == input.burst_good_loss.rate()
            &&& bursts ==> rule.ge_bad_loss_permyriad == input.burst_bad_loss.rate()
            &&& !bursts ==> rule.ge_recover_permyriad == 0 && rule.ge_good_loss_permyriad == 0
                && rule.ge_bad_loss_permyriad == 0
            &&& input.burst_idle_reset is None ==> rule.ge_idle_reset_secs == 0
            &&& input.burst_idle_reset matches Some(reset) ==> (reset.nanos < 0x1_0000_0000
                * 1_000_000_000 ==> rule.ge_idle_reset_secs * 1_000_000_000 <= reset.nanos < (
            rule.ge_idle_reset_secs + 1) * 1_000_000_000)
        }),
        forall|value: Percent| value matches Percent::Within { permyriad, .. } ==> #[trigger] value.rate() == permyriad,
{
}

/// The rule of a command line is that of its options, under number zero.
pub proof fn options_ask_for_what_they_say(options: Options, bandwidth_bps: Option<u64>)
    requires
        options.destination is Some,
    ensures
        ({
            let input = options.input_with(bandwidth_bps);
            &&& input.id == 0 && input.seed == options.seed
            &&& input.source == options.source && Some(input.destination) == options.destination
            &&& options.protocol == Protocol::Any ==> input.protocol == 0
            &&& options.protocol == Protocol::Tcp ==> input.protocol == 6
            &&& options.protocol == Protocol::Udp ==> input.protocol == 17
            &&& input.destination_port == options.port
            &&& input.loss == options.loss
            &&& options.loss_algorithm == LossAlgorithm::Hash ==> input.loss_algorithm == 0
            &&& options.loss_algorithm == LossAlgorithm::Random ==> input.loss_algorithm == 1
            &&& options.loss_algorithm == LossAlgorithm::GilbertElliott ==> input.loss_algorithm
                == 2
            &&& input.burst_loss == options.burst_loss
            &&& input.burst_recovery == options.burst_recovery
            &&& input.burst_bad_loss == options.burst_bad_loss
            &&& input.burst_good_loss == options.burst_good_loss
            &&& input.burst_idle_reset == options.burst_idle_reset
            &&& input.duplicate == options.duplicate && input.reorder == options.reorder
            &&& input.delay == options.delay && input.jitter == options.jitter
            &&& input.bandwidth_bps == bandwidth_bps
        }),
        options.bandwidth is None ==> options.reading() == RuleReading::Read(
            options.input_with(None),
        ),
        options.bandwidth matches Some(text) ==> (bandwidth_reading(text@) matches Ok(bits)
            ==> options.reading() == RuleReading::Read(options.input_with(Some(bits)))),
{
}

/// The options of a session are accepted exactly when no given time is zero and
/// either a scenario stands without an outage, or the inline rule is accepted
/// and works in the direction asked for.
pub proof fn options_are_accepted_exactly(options: Options)
    ensures
        options.error() is None <==> {
            &&& options.stats_interval.nanos > 0
            &&& options.duration matches Some(duration) ==> duration.nanos > 0
            &&& options.scenario is Some ==> options.outage_after is None
                && options.outage_duration is None
            &&& options.scenario is None ==> {
                &&& options.reading() matches RuleReading::Read(input)
                &&& input.error() is None
                &&& options.direction == Direction::Ingress ==> {
                    let rule = input.spec_of();
                    rule.delay_ns == 0 && rule.jitter_ns == 0 && rule.reorder_permyriad == 0
                        && rule.bandwidth_bps == 0 && rule.duplicate_permyriad == 0
                }
                &&& options.outage_duration matches Some(duration) ==> duration.nanos > 0
            }
        },
{
    if let RuleReading::Read(input) = options.reading() {
        let rules = seq![input.spec_of()];
        assert(rules[0] == input.spec_of());
    }
}

/// Rules work in a direction exactly when it is egress, or none of them needs
/// the queue or makes clones.
pub proof fn queues_and_clones_need_egress(direction: Direction, rules: Seq<RuleSpec>)
    ensures
        direction_error(direction, rules) is None <==> direction == Direction::Egress || forall|
            i: int,
        |
            0 <= i < rules.len() ==> (#[trigger] rules[i]).delay_ns == 0 && rules[i].jitter_ns == 0
                && rules[i].reorder_permyriad == 0 && rules[i].bandwidth_bps == 0
                && rules[i].duplicate_permyriad == 0,
{
    if direction == Direction::Ingress {
        if forall|i: int|
            0 <= i < rules.len() ==> (#[trigger] rules[i]).delay_ns == 0 && rules[i].jitter_ns == 0
                && rules[i].reorder_permyriad == 0 && rules[i].bandwidth_bps == 0
                && rules[i].duplicate_permyriad == 0 {
        } else {
            let i = choose|i: int|
                0 <= i < rules.len() && !((#[trigger] rules[i]).delay_ns == 0
                    && rules[i].jitter_ns == 0 && rules[i].reorder_permyriad == 0
                    && rules[i].bandwidth_bps == 0 && rules[i].duplicate_permyriad == 0);
            assert(egress_only(rules[i]));
        }
    }
}

/// What a rule of a scenario compiles to is what it says, with its times and its
/// bandwidth read from their texts.
pub proof fn scenario_rules_ask_for_what_they_say(rule: ScenarioRule)
    ensures
        rule.compilation() matches Ok(spec) ==> {
            &&& spec.id == rule.id && spec.seed == rule.seed
            &&& spec.source == rule.source && spec.destination == rule.destination
            &&& rule.protocol == Protocol::Any ==> spec.protocol == 0
            &&& rule.protocol == Protocol::Tcp ==> spec.protocol == 6
            &&& rule.protocol == Protocol::Udp ==> spec.protocol == 17
            &&& spec.destination_port == rule.port
            &&& spec.drop_permyriad == rule.loss.rate()
            &&& spec.duplicate_permyriad == rule.duplicate.rate()
            &&& spec.reorder_permyriad == rule.reorder.rate()
            &&& rule.delay is None ==> spec.delay_ns == 0
            &&& rule.delay matches Some(text) ==> (duration_reading(text@) matches Ok(delay) && (
            delay.nanos <= u64::MAX ==> spec.delay_ns == delay.nanos))
            &&& rule.jitter is None ==> spec.jitter_ns == 0
            &&& rule.jitter matches Some(text) ==> (duration_reading(text@) matches Ok(jitter) && (
            jitter.nanos <= u64::MAX ==> spec.jitter_ns == jitter.nanos))
            &&& rule.bandwidth is None ==> spec.bandwidth_bps == 0
            &&& rule.bandwidth matches Some(text) ==> bandwidth_reading(text@) == Ok::<
                u64,
                Seq<char>,
            >(spec.bandwidth_bps)
            &&& rule.burst_loss matches Some(burst) ==> spec.loss_algorithm == 2
                && spec.ge_enter_permyriad == burst.rate() && spec.ge_recover_permyriad
                == rule.burst_recovery.rate() && spec.ge_good_loss_permyriad
                == rule.burst_good_loss.rate() && spec.ge_bad_loss_permyriad
                == rule.burst_bad_loss.rate()
            &&& rule.burst_loss is None && rule.loss_algorithm == LossAlgorithm::Hash
                ==> spec.loss_algorithm == 0
            &&& rule.burst_loss is None && rule.loss_algorithm == LossAlgorithm::Random
                ==> spec.loss_algorithm == 1
            &&& spec.error() is None
        },
{
}

/// A scenario is accepted exactly when it has a rule and each of them compiles.
pub proof fn scenarios_are_accepted_exactly(rules: Seq<ScenarioRule>)
    ensures
        scenario_error(rules) is None <==> rules.len() > 0 && forall|i: int|
            0 <= i < rules.len() ==> (#[trigger] rules[i]).compilation() is Ok,
{
    compiled_rules_pass(rules, 0);
}

proof fn compiled_rules_pass(rules: Seq<ScenarioRule>, from: int)
    requires
        0 <= from <= rules.len(),
    ensures
        rules_error(rules, from) is None <==> forall|i: int|
            from <= i < rules.len() ==> (#[trigger] rules[i]).compilation() is Ok,
    decreases rules.len() - from,
{
    if from < rules.len() {
        compiled_rules_pass(rules, from + 1);
    }
}

/// A ruleset becomes a table exactly when it has between one and 1024 rules, all
/// of them valid, no two of one number, and no two of one destination prefix
/// and one source.
pub proof fn rulesets_are_accepted_exactly(specs: Seq<RuleSpec>)
    ensures
        ruleset_error(specs) is None <==> {
            &&& 0 < specs.len() <= 1024
            &&& forall|i: int| 0 <= i < specs.len() ==> (#[trigger] specs[i]).error() is None
            &&& forall|i: int, j: int|
                0 <= i < j < specs.len() ==> (#[trigger] specs[i]).id != (#[trigger] specs[j]).id
            &&& forall|i: int, j: int|
                0 <= i < j < specs.len() ==> !((#[trigger] specs[i]).destination@.truncated() == (
                #[trigger] specs[j]).destination@.truncated() && specs[i].source_bits()
                    == specs[j].source_bits())
        },
{
    grouping_passes_exactly(specs, 0);
    if ruleset_error(specs) is None {
        assert forall|i: int| 0 <= i < specs.len() implies (#[trigger] specs[i]).error() is None by {
            assert(fits_in(specs, i));
        }
        assert forall|i: int, j: int| 0 <= i < j < specs.len() implies (#[trigger] specs[i]).id != (
        #[trigger] specs[j]).id && !(specs[i].destination@.truncated()
            == specs[j].destination@.truncated() && specs[i].source_bits()
            == specs[j].source_bits()) by {
            assert(fits_in(specs, j));
            assert(filed_under(specs[i]) == specs[i].destination@.truncated());
        }
    } else if 0 < specs.len() <= 1024 {
        let j = choose|j: int| 0 <= j < specs.len() && !#[trigger] fits_in(specs, j);
        if repeats_id(specs, j) {
            let i = choose|i: int| 0 <= i < j && #[trigger] specs[i].id == specs[j].id;
            assert(specs[i].id == specs[j].id);
        } else if repeats_source(specs, j) {
            let i = choose|i: int|
                0 <= i < j && filed_under(#[trigger] specs[i]) == filed_under(specs[j])
                    && specs[i].source_bits() == specs[j].source_bits();
            assert(specs[i].destination@.truncated() == specs[j].destination@.truncated());
        } else {
            assert(specs[j].error() is Some);
        }
    }
}

/// Whether a rule goes with those before it.
spec fn fits_in(specs: Seq<RuleSpec>, j: int) -> bool {
    specs[j].error() is None && !repeats_id(specs, j) && !repeats_source(specs, j)
}

proof fn grouping_passes_exactly(specs: Seq<RuleSpec>, from: int)
    requires
        0 <= from <= specs.len(),
    ensures
        grouping_error(specs, from) is None <==> forall|j: int|
            from <= j < specs.len() ==> #[trigger] fits_in(specs, j),
    decreases specs.len() - from,
{
    if from < specs.len() {
        grouping_passes_exactly(specs, from + 1);
        if grouping_error(specs, from) is None {
            assert(fits_in(specs, from));
        } else if fits_in(specs, from) {
            assert(grouping_error(specs, from + 1) is Some);
        }
    }
}

/// The classifier's rule is the published one: all its rates and times, its
/// filters and its seed.
pub proof fn published_rules_keep_what_they_ask_for(
    rule: crate::common::FaultRule,
    spec: RuleSpec,
)
    requires
        compiled(rule, spec),
    ensures
        rule.id == spec.id && rule.seed == spec.seed,
        rule.drop_permyriad == spec.drop_permyriad,
        rule.loss_algorithm == spec.loss_algorithm,
        rule.ge_enter_permyriad == spec.ge_enter_permyriad,
        rule.ge_recover_permyriad == spec.ge_recover_permyriad,
        rule.ge_good_loss_permyriad == spec.ge_good_loss_permyriad,
        rule.ge_bad_loss_permyriad == spec.ge_bad_loss_permyriad,
        rule.ge_idle_reset_secs == spec.ge_idle_reset_secs,
        rule.duplicate_permyriad == spec.duplicate_permyriad,
        rule.reorder_permyriad == spec.reorder_permyriad,
        rule.delay_ns == spec.delay_ns && rule.jitter_ns == spec.jitter_ns,
        rule.bandwidth_bps == spec.bandwidth_bps,
        rule.protocol == spec.protocol && rule.destination_port == spec.destination_port,
        spec.destination@.v4 ==> rule.address_family == 4,
        !spec.destination@.v4 ==> rule.address_family == 6,
        spec.source is None ==> rule.source_prefix_len == 0,
        spec.source matches Some(source) ==> rule.source_prefix_len == source.prefix_len,
{
}

/// An outage changes nothing of a rule but its loss.
pub proof fn outages_change_the_loss_alone(rule: RuleSpec)
    ensures
        outage_of(rule).drop_permyriad == 10_000,
        outage_of(rule).loss_algorithm == 0,
        (RuleSpec {
            drop_permyriad: rule.drop_permyriad,
            loss_algorithm: rule.loss_algorithm,
            ..outage_of(rule)
        }) == rule,
{
}

/// A destination is accepted exactly when it names something, and its port is
/// one and goes with TCP or UDP.
pub proof fn destinations_are_accepted_exactly(destination: Destination)
    ensures
        destination.error() is None <==> {
            &&& !blank(destination.selector)
            &&& destination.port matches Some(port) ==> port > 0 && destination.protocol
                != NetworkProtocol::Any
        },
{
}

/// A relation is accepted exactly when it has a name and a destination, and a
/// source that is given says something.
pub proof fn relations_are_accepted_exactly(relation: Authored)
    ensures
        relation.error() is None <==> {
            &&& !blank(relation.name)
            &&& relation.destination.error() is None
            &&& relation.source matches Some(source) ==> source.len() > 0
        },
{
}

/// Faults are accepted exactly when no rate exceeds the whole.
pub proof fn faults_are_accepted_exactly(fault: FaultSpec, index: nat)
    ensures
        fault.error(index) is None <==> fault.drop_permyriad <= 10_000 && fault.duplicate_permyriad
            <= 10_000 && fault.reorder_permyriad <= 10_000,
{
}

proof fn faults_pass(faults: Seq<(Seq<char>, FaultSpec)>, index: nat, from: int)
    requires
        0 <= from <= faults.len(),
    ensures
        faults_error(faults, index, from) is None <==> forall|i: int|
            from <= i < faults.len() ==> (#[trigger] faults[i]).1.error(index) is None,
    decreases faults.len() - from,
{
    if from < faults.len() {
        faults_pass(faults, index, from + 1);
    }
}

/// Whether some fault has a name.
pub open spec fn some_fault(faults: Seq<(Seq<char>, FaultSpec)>, name: Seq<char>) -> bool {
    exists|j: int| 0 <= j < faults.len() && (#[trigger] faults[j]).0 == name
}

/// Whether some relation has a name.
pub open spec fn some_relation(selectors: Seq<Authored>, name: Seq<char>) -> bool {
    exists|i: int| 0 <= i < selectors.len() && (#[trigger] selectors[i]).name == name
}

/// Whether the faults of an event are sound: their rates are rates, and they are
/// named exactly once for every relation where relations are named, and not at
/// all where none is.
pub open spec fn sound_incident(
    incident: Incident,
    index: nat,
    selectors: Seq<Authored>,
    named: bool,
) -> bool {
    &&& incident.fault.error(index) is None
    &&& forall|i: int|
        0 <= i < incident.faults.len() ==> (#[trigger] incident.faults[i]).1.error(index) is None
    &&& !named ==> incident.faults.len() == 0
    &&& named ==> names_ascend(incident.faults)
    &&& named ==> forall|i: int|
        0 <= i < selectors.len() ==> some_fault(incident.faults, (#[trigger] selectors[i]).name)
    &&& named ==> forall|j: int|
        0 <= j < incident.faults.len() ==> some_relation(
            selectors,
            (#[trigger] incident.faults[j]).0,
        )
}

proof fn incidents_are_sound(
    incident: Incident,
    index: nat,
    previous: u64,
    duration_ms: u64,
    selectors: Seq<Authored>,
    named: bool,
)
    ensures
        incident.error_after(index, previous, duration_ms, selectors, named) is None <==> previous
            <= incident.at_ms <= duration_ms && sound_incident(incident, index, selectors, named),
{
    faults_pass(incident.faults, index, 0);
    let faults = incident.faults;
    assert forall|name: Seq<char>| #[trigger] named_fault(faults, name) == some_fault(
        faults,
        name,
    ) by {}
    assert forall|name: Seq<char>| #[trigger] named_relation(selectors, name) == some_relation(
        selectors,
        name,
    ) by {}
    if named && covers_exactly(faults, selectors) {
        assert forall|i: int| 0 <= i < selectors.len() implies some_fault(
            faults,
            (#[trigger] selectors[i]).name,
        ) by {
            assert(named_fault(faults, selectors[i].name));
        }
        assert forall|j: int| 0 <= j < faults.len() implies some_relation(
            selectors,
            (#[trigger] faults[j]).0,
        ) by {
            assert(named_relation(selectors, faults[j].0));
        }
    }
    if named && sound_incident(incident, index, selectors, named) {
        assert forall|i: int| 0 <= i < selectors.len() implies named_fault(
            faults,
            (#[trigger] selectors[i]).name,
        ) by {}
        assert forall|j: int| 0 <= j < faults.len() implies named_relation(
            selectors,
            (#[trigger] faults[j]).0,
        ) by {}
        assert(covers_exactly(faults, selectors));
    }
}

proof fn incidents_pass(
    events: Seq<Incident>,
    duration_ms: u64,
    selectors: Seq<Authored>,
    named: bool,
    from: int,
)
    requires
        0 <= from <= events.len(),
    ensures
        incidents_error(events, duration_ms, selectors, named, from) is None <==> forall|i: int|
            from <= i < events.len() ==> {
                &&& (#[trigger] events[i]).at_ms <= duration_ms
                &&& i > 0 ==> events[i - 1].at_ms <= events[i].at_ms
                &&& sound_incident(events[i], i as nat, selectors, named)
            },
    decreases events.len() - from,
{
    if from < events.len() {
        incidents_pass(events, duration_ms, selectors, named, from + 1);
        incidents_are_sound(
            events[from],
            from as nat,
            if from == 0 {
                0
            } else {
                events[from - 1].at_ms
            },
            duration_ms,
            selectors,
            named,
        );
    }
}

/// A profile is accepted exactly when it begins at zero, no event comes before
/// the one before it or behind the end, and the faults of each are sound.
pub proof fn profiles_are_accepted_exactly(profile: Profile, selectors: Seq<Authored>, named: bool)
    ensures
        profile.error(selectors, named) is None <==> {
            &&& profile.events.len() > 0
            &&& profile.events[0].at_ms == 0
            &&& forall|i: int|
                0 <= i < profile.events.len() ==> {
                    &&& (#[trigger] profile.events[i]).at_ms <= profile.duration_ms
                    &&& i > 0 ==> profile.events[i - 1].at_ms <= profile.events[i].at_ms
                    &&& sound_incident(profile.events[i], i as nat, selectors, named)
                }
        },
{
    incidents_pass(profile.events, profile.duration_ms, selectors, named, 0);
}

/// Generated traffic is accepted exactly when an HTTP request has a URL of its
/// scheme and times, and a command has a program and a pause.
pub proof fn traffic_is_accepted_exactly(traffic: Traffic)
    ensures
        traffic matches Traffic::Http { url, interval_ms, timeout_ms } ==> (traffic.error() is None
            <==> (without_prefix(url, "http://"@) is Some || without_prefix(url, "https://"@)
            is Some) && interval_ms > 0 && timeout_ms > 0),
        traffic matches Traffic::Command { program, interval_ms, .. } ==> (traffic.error() is None
            <==> !blank(program) && interval_ms > 0),
{
}

/// A source is accepted exactly when it names its interface and container, a
/// local one not by `auto`, and what would be started or created is named.
pub proof fn sources_are_accepted_exactly(source: Workload)
    ensures
        source matches Workload::Local { interface, process } ==> (source.error() is None <==> {
            &&& !blank(interface) && interface != "auto"@
            &&& process matches Some(value) ==> !blank(value.program) && names_ascend(
                value.environment,
            )
        }),
        source matches Workload::Docker { container, interface, provision, .. } ==> (
        source.error() is None <==> {
            &&& !blank(container) && !blank(interface)
            &&& provision matches Some(value) ==> !blank(value.image) && names_ascend(
                value.environment,
            )
        }),
        source matches Workload::Lxc { container, interface, provision, .. } ==> (source.error()
            is None <==> {
            &&& !blank(container) && !blank(interface)
            &&& provision matches Some(value) ==> !blank(value.distribution) && !blank(
                value.release,
            ) && !blank(value.architecture)
        }),
{
}

proof fn selectors_pass(selectors: Seq<Authored>, from: int)
    requires
        0 <= from <= selectors.len(),
    ensures
        selectors_error(selectors, from) is None <==> forall|i: int|
            from <= i < selectors.len() ==> (#[trigger] selectors[i]).error() is None,
    decreases selectors.len() - from,
{
    if from < selectors.len() {
        selectors_pass(selectors, from + 1);
    }
}

/// An experiment is accepted exactly when it is of the known version, has a
/// name, a source and either a destination or named relations, when those are
/// sound and named apart, and when its profile, its traffic and its extensions
/// are.
pub proof fn experiments_are_accepted_exactly(experiment: Experiment)
    ensures
        experiment.error() is None <==> {
            let relations = experiment.relations();
            &&& experiment.version == 1
            &&& !blank(experiment.name)
            &&& experiment.source.error() is None
            &&& experiment.destination is Some <==> experiment.selectors.len() == 0
            &&& forall|i: int| 0 <= i < relations.len() ==> (#[trigger] relations[i]).error() is None
            &&& forall|i: int, j: int|
                0 <= i < j < relations.len() ==> (#[trigger] relations[i]).name != (
                #[trigger] relations[j]).name
            &&& experiment.profile.error(relations, experiment.selectors.len() > 0) is None
            &&& experiment.traffic matches Some(traffic) ==> traffic.error() is None
            &&& names_ascend(experiment.extensions)
        },
        experiment.selectors.len() > 0 ==> experiment.relations() == experiment.selectors,
        experiment.selectors.len() == 0 ==> (experiment.destination matches Some(destination)
            ==> experiment.relations().len() == 1 && experiment.relations()[0].destination
            == destination && experiment.relations()[0].source is None),
{
    selectors_pass(experiment.relations(), 0);
    let relations = experiment.relations();
    if forall|i: int, j: int|
        0 <= i < j < relations.len() ==> (#[trigger] relations[i]).name != (
        #[trigger] relations[j]).name {
        assert(!names_repeat(relations));
    } else {
        let (i, j) = choose|i: int, j: int|
            0 <= i < j < relations.len() && (#[trigger] relations[i]).name == (
            #[trigger] relations[j]).name;
        assert(names_repeat(relations));
    }
}

} // verus!
