//! Laws of refusals: which reason is given, and which of several goes first.

use vstd::prelude::*;
use crate::experiment_spec::{Authored, Experiment, Incident, NetworkProtocol};
use crate::options::{direction_error, Direction};
use crate::protocol::{Change, Rule, RuleSpec, Score};
use crate::rule::{Percent, RuleInput};
use crate::rule_store::ruleset_error;
use crate::scenario::{encoding_of, scenario_error, Encoding, ScenarioRule};
use crate::text::{blank, digits, without_prefix};
use crate::workload_spec::{Container, Process, System, Traffic, Workload};

verus! {

/// Whether every share of a rule that comes before one of them is in bounds:
/// they are looked at in this order.
pub open spec fn shares_fit_up_to(rule: Rule, place: int) -> bool {
    &&& rule.id < 1024
    &&& rule.source matches Some(source) ==> source.v4 == rule.destination.v4
    &&& rule.loss_algorithm <= 2
    &&& place > 0 ==> rule.drop_permyriad <= 10_000
    &&& place > 1 ==> rule.ge_enter_permyriad <= 10_000
    &&& place > 2 ==> rule.ge_recover_permyriad <= 10_000
    &&& place > 3 ==> rule.ge_good_loss_permyriad <= 10_000
    &&& place > 4 ==> rule.ge_bad_loss_permyriad <= 10_000
    &&& place > 5 ==> rule.duplicate_permyriad <= 10_000
    &&& place > 6 ==> rule.reorder_permyriad <= 10_000
}

/// A rule is refused for the first thing that is wrong with it: its number, its
/// families, its algorithm, its shares in their order, a burst that cannot
/// begin or end, and a port without a protocol that has ports.
pub proof fn rules_are_refused_for_their_first_fault(rule: Rule)
    ensures
        rule.id >= 1024 ==> rule.error() == Some(
            "rule id "@ + digits(rule.id as nat) + " is outside STATS map bounds"@,
        ),
        rule.id < 1024 && (rule.source is Some && rule.source->0.v4 != rule.destination.v4)
            ==> rule.error() == Some(
            "rule "@ + digits(rule.id as nat) + " mixes IPv4 and IPv6 source/destination"@,
        ),
        rule.id < 1024 && (rule.source is Some ==> rule.source->0.v4 == rule.destination.v4)
            && rule.loss_algorithm > 2 ==> rule.error() == Some(
            "rule "@ + digits(rule.id as nat) + " has an unknown loss algorithm"@,
        ),
        shares_fit_up_to(rule, 0) && rule.drop_permyriad > 10_000 ==> rule.error() == Some(
            "rule "@ + digits(rule.id as nat) + (" has "@ + "a loss rate"@ + " above 100%"@),
        ),
        shares_fit_up_to(rule, 1) && rule.ge_enter_permyriad > 10_000 ==> rule.error() == Some(
            "rule "@ + digits(rule.id as nat) + (" has "@ + "GE enter"@ + " above 100%"@),
        ),
        shares_fit_up_to(rule, 2) && rule.ge_recover_permyriad > 10_000 ==> rule.error() == Some(
            "rule "@ + digits(rule.id as nat) + (" has "@ + "GE recovery"@ + " above 100%"@),
        ),
        shares_fit_up_to(rule, 3) && rule.ge_good_loss_permyriad > 10_000 ==> rule.error() == Some(
            "rule "@ + digits(rule.id as nat) + (" has "@ + "GE good-state loss"@ + " above 100%"@),
        ),
        shares_fit_up_to(rule, 4) && rule.ge_bad_loss_permyriad > 10_000 ==> rule.error() == Some(
            "rule "@ + digits(rule.id as nat) + (" has "@ + "GE bad-state loss"@ + " above 100%"@),
        ),
        shares_fit_up_to(rule, 5) && rule.duplicate_permyriad > 10_000 ==> rule.error() == Some(
            "rule "@ + digits(rule.id as nat) + (" has "@ + "duplication"@ + " above 100%"@),
        ),
        shares_fit_up_to(rule, 6) && rule.reorder_permyriad > 10_000 ==> rule.error() == Some(
            "rule "@ + digits(rule.id as nat) + (" has "@ + "reordering"@ + " above 100%"@),
        ),
        shares_fit_up_to(rule, 7) && rule.loss_algorithm == 2 && (rule.ge_enter_permyriad == 0
            || rule.ge_recover_permyriad == 0) ==> rule.error() == Some(
            "rule "@ + digits(rule.id as nat)
                + " requires non-zero GE enter and recovery probabilities"@,
        ),
        shares_fit_up_to(rule, 7) && (rule.loss_algorithm == 2 ==> rule.ge_enter_permyriad > 0
            && rule.ge_recover_permyriad > 0) && rule.destination_port > 0 && rule.protocol != 6
            && rule.protocol != 17 ==> rule.error() == Some(
            "rule "@ + digits(rule.id as nat) + " specifies a port without TCP or UDP"@,
        ),
{
}

/// A timeline is refused for its version, for being empty, for not beginning at
/// once and for ending before its last event, in this order.
pub proof fn timelines_are_refused_for_their_first_fault(timeline: Score)
    ensures
        timeline.version != 1 ==> timeline.error() is Some,
        timeline.version == 1 && timeline.events.len() == 0 ==> timeline.error() == Some(
            "timeline must contain at least one event"@,
        ),
        timeline.version == 1 && timeline.events.len() > 0 && timeline.events[0].at_ms > 0
            ==> timeline.error() == Some("timeline must begin at at_ms=0"@),
        timeline.version == 1 && timeline.events.len() > 0 && timeline.events[0].at_ms == 0
            && timeline.duration_ms < timeline.events.last().at_ms ==> timeline.error() == Some(
            "timeline duration ends before its final event"@,
        ),
{
}

/// An event is refused for its time, for having no rules, for the first rule
/// that is wrong and for a number that two rules bear.
pub proof fn events_are_refused_for_their_first_fault(event: Change, index: nat, previous: u64)
    ensures
        index > 0 && event.at_ms <= previous ==> event.error_after(index, previous) == Some(
            "timeline event "@ + digits(index) + " must occur after the previous event"@,
        ),
        (index == 0 || event.at_ms > previous) && event.rules.len() == 0 ==> event.error_after(
            index,
            previous,
        ) == Some("timeline event "@ + digits(index) + " has no rules"@),
        (index == 0 || event.at_ms > previous) && event.rules.len() > 0 && event.rules[0].error()
            is Some ==> event.error_after(index, previous) == event.rules[0].error(),
        (index == 0 || event.at_ms > previous) && event.rules.len() > 1 && event.rules[0].error()
            is None && event.rules[1].error() is None && event.rules[0].id == event.rules[1].id
            ==> event.error_after(index, previous) == Some(
            "timeline event "@ + digits(index) + (" repeats rule id "@ + digits(
                event.rules[1].id as nat,
            )),
        ),
{
    reveal_with_fuel(crate::protocol::event_rules_error, 3);
}

/// Whether a written share is one that can be told.
pub open spec fn tells(share: Percent) -> bool {
    share matches Percent::Within { positive, permyriad } && (positive ==> permyriad > 0)
}

/// Whether every share of a written rule can be told.
pub open spec fn tells_its_shares(input: RuleInput) -> bool {
    &&& tells(input.loss) && tells(input.burst_recovery) && tells(input.burst_bad_loss)
    &&& tells(input.burst_good_loss) && tells(input.duplicate) && tells(input.reorder)
    &&& input.burst_loss matches Some(share) ==> tells(share)
}

/// A written rule is refused for its first share that is out of bounds or too
/// small, and then for a port without a protocol, for jitter or reordering
/// without a delay, and for a delay or jitter of nothing.
pub proof fn written_rules_are_refused_for_their_first_fault(input: RuleInput)
    ensures
        input.loss is Outside ==> input.error() == Some(
            "rule "@ + digits(input.id as nat) + (" has "@ + "loss"@ + " outside 0..=100%"@),
        ),
        input.loss == (Percent::Within { positive: true, permyriad: 0 }) ==> input.error() == Some(
            "rule "@ + digits(input.id as nat) + (" has "@ + "loss"@
                + " below the representable minimum of 0.01%"@),
        ),
        tells_its_shares(input) && input.destination_port > 0 && input.protocol == 0
            ==> input.error() == Some(
            "rule "@ + digits(input.id as nat) + " specifies a port without TCP or UDP"@,
        ),
        tells_its_shares(input) && (input.destination_port == 0 || input.protocol != 0) ==> {
            &&& input.jitter is Some && input.delay is None ==> input.error() == Some(
                "rule "@ + digits(input.id as nat) + " uses jitter without delay"@,
            )
            &&& input.jitter is None && input.reorder.above_zero() && input.delay is None
                ==> input.error() == Some(
                "rule "@ + digits(input.id as nat) + " uses reordering without delay"@,
            )
            &&& input.delay is Some && input.delay->0.nanos == 0 ==> input.error() == Some(
                "rule "@ + digits(input.id as nat) + " has zero delay"@,
            )
            &&& input.delay is Some && input.delay->0.nanos > 0 && input.jitter is Some
                && input.jitter->0.nanos == 0 ==> input.error() == Some(
                "rule "@ + digits(input.id as nat) + " has zero jitter"@,
            )
        },
{
}

/// A written burst is refused for being forgotten within a second, for a loss
/// beside it, for random loss, for lacking its rate, and for one that can never
/// begin or end.
pub proof fn written_bursts_are_refused_for_their_first_fault(input: RuleInput)
    requires
        tells_its_shares(input),
        input.destination_port == 0,
        input.delay is None,
        input.jitter is None,
        !input.reorder.above_zero(),
    ensures
        input.burst_idle_reset is Some && input.burst_idle_reset->0.nanos < 1_000_000_000
            ==> input.error() == Some(
            "rule "@ + digits(input.id as nat) + " has burst_idle_reset below 1s"@,
        ),
        input.burst_idle_reset is None && input.burst_loss is Some && input.loss.above_zero()
            ==> input.error() == Some(
            "rule "@ + digits(input.id as nat)
                + " cannot combine loss with burst_loss; use burst_good_loss instead"@,
        ),
        input.burst_idle_reset is None && input.burst_loss is Some && input.loss == (
        Percent::Within { positive: false, permyriad: 0 }) && input.loss_algorithm == 1
            ==> input.error() == Some(
            "rule "@ + digits(input.id as nat)
                + " cannot combine burst_loss with the random loss algorithm"@,
        ),
        input.burst_idle_reset is None && input.burst_loss is None && input.loss_algorithm == 2
            ==> input.error() == Some(
            "rule "@ + digits(input.id as nat) + " uses gilbert-elliott without burst_loss"@,
        ),
        input.burst_idle_reset is None && input.burst_loss is Some && input.loss == (
        Percent::Within { positive: false, permyriad: 0 }) && input.loss_algorithm != 1 && (
        input.burst_loss->0.rate() == 0 || input.burst_recovery.rate() == 0) ==> input.error()
            == Some(
            "rule "@ + digits(input.id as nat) + " requires non-zero burst loss and recovery"@,
        ),
{
}

/// Rules are refused together for being none or too many, and in ingress for
/// what only egress can do.
pub proof fn rulesets_are_refused_for_their_size(rules: Seq<RuleSpec>, i: int)
    ensures
        rules.len() == 0 ==> ruleset_error(rules) == Some(
            "a scenario must contain at least one rule"@,
        ),
        rules.len() > 1024 ==> ruleset_error(rules) == Some(
            "a scenario may contain at most "@ + digits(1024) + " rules"@,
        ),
        0 < rules.len() <= 1024 && rules[0].error() is Some ==> ruleset_error(rules)
            == rules[0].error(),
        0 <= i < rules.len() && (rules[i].delay_ns > 0 || rules[i].bandwidth_bps > 0)
            ==> direction_error(Direction::Ingress, rules) == Some(
            "delay, jitter, duplication, reordering, and bandwidth require egress"@,
        ),
{
    reveal_with_fuel(crate::rule_store::grouping_error, 2);
}

/// A scenario is refused for being empty or for its first rule that is wrong;
/// how it is written is told by the ending of its name.
pub proof fn scenarios_are_refused_for_their_first_rule(rules: Seq<ScenarioRule>)
    ensures
        rules.len() == 0 ==> scenario_error(rules) == Some(
            "scenario must contain at least one rule"@,
        ),
        rules.len() > 0 && rules[0].compilation() is Err ==> scenario_error(rules) == Some(
            rules[0].compilation()->Err_0,
        ),
        encoding_of(Some("yaml"@)) == Some(Encoding::Yaml),
        encoding_of(Some("yml"@)) == Some(Encoding::Yaml),
        encoding_of(Some("json"@)) == Some(Encoding::Json),
        encoding_of(None) is None,
{
    reveal_strlit("yaml");
    reveal_strlit("yml");
    reveal_strlit("json");
    assert("yaml"@.len() == 4 && "yml"@.len() == 3 && "json"@[0] == 'j' && "yaml"@[0] == 'y');
    reveal_with_fuel(crate::scenario::rules_error, 2);
}

/// Only three endings of a name tell how a scenario is written.
pub proof fn other_endings_tell_nothing(ending: Seq<char>)
    ensures
        encoding_of(Some(ending)) is None <==> ending != "yaml"@ && ending != "yml"@ && ending
            != "json"@,
{
}

/// A destination is refused for being empty, for port 0, and for a port without
/// a protocol that has ports. A relation is refused for its name before that.
pub proof fn destinations_are_refused_for_their_first_fault(authored: Authored)
    ensures
        ({
            let destination = authored.destination;
            &&& blank(destination.selector) ==> destination.error() == Some(
                "destination selector must not be empty"@,
            )
            &&& !blank(destination.selector) && destination.port == Some(0u16)
                ==> destination.error() == Some("destination port must be non-zero when present"@)
            &&& !blank(destination.selector) && destination.port is Some && destination.port
                != Some(0u16) && destination.protocol == NetworkProtocol::Any
                ==> destination.error() == Some("destination port requires tcp or udp"@)
            &&& blank(authored.name) ==> authored.error() == Some(
                "selector name must not be empty"@,
            )
            &&& !blank(authored.name) && destination.error() is Some ==> authored.error()
                == destination.error()
            &&& !blank(authored.name) && destination.error() is None && authored.source == Some(
                Seq::<char>::empty(),
            ) ==> authored.error() == Some(
                "selector "@ + authored.name + " has an empty source"@,
            )
        }),
{
}

/// A fault is refused for its first share above all of it, with the number of
/// its event; an event for its time first.
pub proof fn incidents_are_refused_for_their_first_fault(
    incident: Incident,
    index: nat,
    previous: u64,
    duration: u64,
    relations: Seq<Authored>,
    named: bool,
)
    ensures
        ({
            let fault = incident.fault;
            let event = "profile event "@ + digits(index);
            &&& fault.drop_permyriad > 10_000 ==> fault.error(index) == Some(
                event + " has loss above 100%"@,
            )
            &&& fault.drop_permyriad <= 10_000 && fault.duplicate_permyriad > 10_000
                ==> fault.error(index) == Some(event + " has duplication above 100%"@)
            &&& fault.drop_permyriad <= 10_000 && fault.duplicate_permyriad <= 10_000
                && fault.reorder_permyriad > 10_000 ==> fault.error(index) == Some(
                event + " has reordering above 100%"@,
            )
            &&& incident.at_ms < previous ==> incident.error_after(
                index,
                previous,
                duration,
                relations,
                named,
            ) == Some(event + " is out of order"@)
            &&& previous <= incident.at_ms && incident.at_ms > duration ==> incident.error_after(
                index,
                previous,
                duration,
                relations,
                named,
            ) == Some(event + " exceeds duration"@)
            &&& previous <= incident.at_ms <= duration && fault.error(index) is Some
                ==> incident.error_after(index, previous, duration, relations, named)
                == fault.error(index)
            &&& previous <= incident.at_ms <= duration && fault.error(index) is None && !named
                && incident.faults.len() > 0 ==> incident.error_after(
                index,
                previous,
                duration,
                relations,
                named,
            ) == Some(event + " uses faults without selectors"@)
        }),
{
}

/// An experiment is refused for the first thing that is wrong with it: its
/// version, its name, its source, what it leads to, and then its profile.
pub proof fn experiments_are_refused_for_their_first_fault(experiment: Experiment)
    ensures
        experiment.version != 1 ==> experiment.error() == Some(
            "unsupported experiment version "@ + digits(experiment.version as nat),
        ),
        experiment.version == 1 && blank(experiment.name) ==> experiment.error() == Some(
            "experiment name must not be empty"@,
        ),
        experiment.version == 1 && !blank(experiment.name) && experiment.source.error() is Some
            ==> experiment.error() == experiment.source.error(),
        experiment.version == 1 && !blank(experiment.name) && experiment.source.error() is None ==> {
            &&& experiment.destination is Some && experiment.selectors.len() > 0
                ==> experiment.error() == Some("use either destination or selectors, not both"@)
            &&& experiment.destination is None && experiment.selectors.len() == 0
                ==> experiment.error() == Some("experiment requires destination or selectors"@)
        },
        experiment.profile.events.len() == 0 || experiment.profile.events[0].at_ms > 0
            ==> experiment.profile.error(experiment.relations(), experiment.selectors.len() > 0)
            == Some("profile must contain an event at 0ms"@),
{
}

/// An experiment with one destination has one relation, to it, from anywhere;
/// one with relations has just those.
pub proof fn destinations_are_the_default_relation(experiment: Experiment)
    ensures
        experiment.selectors.len() > 0 ==> experiment.relations() == experiment.selectors,
        experiment.selectors.len() == 0 ==> match experiment.destination {
            Some(destination) => {
                &&& experiment.relations().len() == 1
                &&& experiment.relations()[0].name == "default"@
                &&& experiment.relations()[0].source is None
                &&& experiment.relations()[0].destination == destination
            },
            None => experiment.relations().len() == 0,
        },
{
}

/// A source is refused for what it lacks: its interface or its container, the
/// program or the image that it starts, and for a local one also for an
/// interface that is left open.
pub proof fn sources_are_refused_for_what_they_lack(source: Workload)
    ensures
        source matches Workload::Local { interface, .. } ==> {
            &&& blank(interface) ==> source.error() == Some("source interface must not be empty"@)
            &&& !blank(interface) && interface == "auto"@ ==> source.error() == Some(
                "local source requires an explicit interface"@,
            )
        },
        source matches Workload::Docker { container, interface, .. } ==> {
            &&& blank(container) ==> source.error() == Some("source container must not be empty"@)
            &&& !blank(container) && blank(interface) ==> source.error() == Some(
                "source interface must not be empty"@,
            )
        },
        source matches Workload::Lxc { container, interface, .. } ==> {
            &&& blank(container) ==> source.error() == Some("source container must not be empty"@)
            &&& !blank(container) && blank(interface) ==> source.error() == Some(
                "source interface must not be empty"@,
            )
        },
{
}

/// What is started is refused without its program, its image or what makes a
/// system.
pub proof fn starts_are_refused_for_what_they_lack(
    process: Process,
    container: Container,
    system: System,
)
    ensures
        blank(process.program) ==> process.error() == Some(
            "local process program must not be empty"@,
        ),
        blank(container.image) ==> container.error() == Some(
            "Docker provision image must not be empty"@,
        ),
        blank(system.distribution) || blank(system.release) || blank(system.architecture)
            ==> system.error() == Some(
            "LXC provision distribution, release, and architecture are required"@,
        ),
{
}

/// Traffic is refused for an address that is none, a program that is missing,
/// and for an interval or a wait of nothing.
pub proof fn traffic_is_refused_for_what_it_lacks(traffic: Traffic)
    ensures
        traffic matches Traffic::Http { url, interval_ms, timeout_ms } ==> {
            let web = without_prefix(url, "http://"@) is Some || without_prefix(url, "https://"@)
                is Some;
            &&& !web ==> traffic.error() == Some(
                "HTTP traffic URL must begin with http:// or https://"@,
            )
            &&& web && (interval_ms == 0 || timeout_ms == 0) ==> traffic.error() == Some(
                "HTTP traffic interval and timeout must be non-zero"@,
            )
        },
        traffic matches Traffic::Command { program, interval_ms, .. } ==> {
            &&& blank(program) ==> traffic.error() == Some(
                "traffic command program must not be empty"@,
            )
            &&& !blank(program) && interval_ms == 0 ==> traffic.error() == Some(
                "traffic command interval must be non-zero"@,
            )
        },
{
}

} // verus!
