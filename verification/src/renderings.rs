//! Laws of how values stand for what is computed with: results for outcomes,
//! lists for their items, and records for their fields.

use vstd::prelude::*;
use crate::common::FlowKey;
use crate::driver::times_of;
use crate::json::text_result;
use crate::net::{address_literal, network_literal, IpNet, Network};
use crate::packet::{shows, Parsed, ParsedPacket, ShortPacket};
use crate::plan::{plans, Plan, ResolvedExperiment};
use crate::protocol::{first_error, reports, rules_of, RuleSpec, Timeline, TimelineEvent};
use crate::recorder::ids_of;
use crate::selection::literal;
use crate::text::{optional_text, texts};
use crate::workload_spec::{pairs, TrafficSpec};

verus! {

/// A result reports no fault exactly when it is well, and a fault exactly when
/// it fails with that fault's words.
pub proof fn results_report_their_fault(
    result: Result<(), String>,
    wanted: Option<Seq<char>>,
    other: Option<Seq<char>>,
)
    ensures
        reports(result, None) <==> result is Ok,
        wanted matches Some(words) ==> (reports(result, wanted) <==> result is Err
            && result->Err_0@ == words),
        first_error(wanted, other) is None <==> wanted is None && other is None,
        wanted is Some ==> first_error(wanted, other) == wanted,
        wanted is None ==> first_error(wanted, other) == other,
{
}

/// A text result and an optional text stand for their text, or for their
/// failure or lack of it.
pub proof fn text_results_stand_for_their_text(
    result: Result<String, String>,
    text: Option<String>,
)
    ensures
        result matches Ok(value) ==> text_result(result) == Ok::<Seq<char>, Seq<char>>(value@),
        result matches Err(value) ==> text_result(result) == Err::<Seq<char>, Seq<char>>(value@),
        text matches Some(value) ==> optional_text(text) == Some(value@),
        text is None ==> optional_text(text) is None,
{
}

/// Lists stand for their items, each in its place.
pub proof fn lists_stand_for_their_items(
    words: Seq<String>,
    rules: Seq<RuleSpec>,
    events: Seq<TimelineEvent>,
    entries: Seq<(String, String)>,
    i: int,
)
    ensures
        texts(words).len() == words.len(),
        0 <= i < words.len() ==> texts(words)[i] == words[i]@,
        rules_of(rules).len() == rules.len(),
        0 <= i < rules.len() ==> rules_of(rules)[i] == rules[i]@,
        ids_of(rules).len() == rules.len(),
        0 <= i < rules.len() ==> ids_of(rules)[i] == rules[i].id,
        times_of(events).len() == events.len(),
        0 <= i < events.len() ==> times_of(events)[i] == events[i].at_ms,
        pairs(entries).len() == entries.len(),
        0 <= i < entries.len() ==> pairs(entries)[i].0 == entries[i].0@ && pairs(entries)[i].1
            == entries[i].1@,
{
}

/// A rule stands for itself, field by field.
pub proof fn rules_stand_for_their_fields(rule: RuleSpec)
    ensures
        rule@.id == rule.id && rule@.seed == rule.seed,
        rule@.destination == rule.destination@,
        rule.source is None <==> rule@.source is None,
        rule.source matches Some(source) ==> rule@.source == Some(source@),
        rule@.protocol == rule.protocol && rule@.destination_port == rule.destination_port,
        rule@.loss_algorithm == rule.loss_algorithm,
        rule@.drop_permyriad == rule.drop_permyriad,
        rule@.ge_enter_permyriad == rule.ge_enter_permyriad,
        rule@.ge_recover_permyriad == rule.ge_recover_permyriad,
        rule@.ge_good_loss_permyriad == rule.ge_good_loss_permyriad,
        rule@.ge_bad_loss_permyriad == rule.ge_bad_loss_permyriad,
        rule@.ge_idle_reset_secs == rule.ge_idle_reset_secs,
        rule@.duplicate_permyriad == rule.duplicate_permyriad,
        rule@.reorder_permyriad == rule.reorder_permyriad,
        rule@.delay_ns == rule.delay_ns && rule@.jitter_ns == rule.jitter_ns,
        rule@.bandwidth_bps == rule.bandwidth_bps,
{
}

/// A timeline stands for its events, each at its time with its rules.
pub proof fn timelines_stand_for_their_events(timeline: Timeline, i: int, k: int)
    ensures
        timeline@.version == timeline.version && timeline@.kind == timeline.kind,
        timeline@.duration_ms == timeline.duration_ms,
        timeline@.name == optional_text(timeline.name),
        timeline@.target == optional_text(timeline.target),
        timeline@.events.len() == timeline.events@.len(),
        0 <= i < timeline.events@.len() ==> {
            let event = timeline.events@[i];
            &&& timeline@.events[i].at_ms == event.at_ms
            &&& timeline@.events[i].rules.len() == event.rules@.len()
            &&& 0 <= k < event.rules@.len() ==> timeline@.events[i].rules[k] == event.rules@[k]@
        },
{
}

/// A flow stands for where its packets come from and lead to.
pub proof fn flows_stand_for_their_ends(flow: FlowKey)
    ensures
        flow@.source == flow.source_address@,
        flow@.destination == flow.destination_address@,
        flow@.source_port == flow.source_port,
        flow@.destination_port == flow.destination_port,
        flow@.protocol == flow.protocol,
        flow@.family == flow.address_family,
{
}

/// A packet is shown for what was read in it, and for nothing or as cut off
/// where that is what was read.
pub proof fn packets_are_shown_as_read(flow: FlowKey, packet: ParsedPacket, parsed: Parsed)
    ensures
        shows(Ok(Some((flow, packet))), Ok(Some(parsed))) ==> flow@ == parsed.flow && packet
            == parsed.packet,
        shows(Ok(None), Ok(None)),
        !shows(Ok(None), Ok(Some(parsed))),
        !shows(Ok(Some((flow, packet))), Ok(None)),
        !shows(Err(ShortPacket), Ok(Some(parsed))),
        !shows(Ok(Some((flow, packet))), Err(ShortPacket)),
        !shows(Ok(None), Err(ShortPacket)),
{
}

/// A plan is the one that is wanted and says nothing of a run yet; where none
/// can be made there is none.
pub proof fn plans_are_as_wanted(plan: ResolvedExperiment, wanted: Plan, message: String)
    ensures
        plans(Ok(plan), Ok(wanted)) <==> plan@ == wanted && plan.environment is None
            && plan.effective_environment is None && plan.execution is None && plan.execution_error
            is None,
        plans(Err(message), Err(message@)),
        !plans(Err(message), Ok(wanted)),
        !plans(Ok(plan), Err(message@)),
{
}

/// A text is a network where it is written as one, and a single host where it
/// is written as an address; anything else must be resolved.
pub proof fn literals_are_networks_or_hosts(text: Seq<char>, network: Network)
    ensures
        network_literal(text) == Some(network) ==> literal(text) == Some(network),
        network_literal(text) is None ==> match address_literal(text) {
            Some(address) => {
                &&& literal(text) matches Some(host)
                &&& host.octets == address.octets && host.v4 == address.v4
                &&& address.v4 ==> host.prefix_len == 32
                &&& !address.v4 ==> host.prefix_len == 128
            },
            None => literal(text) is None,
        },
{
}

/// A network stands for its address and length.
pub proof fn networks_stand_for_their_address(network: IpNet)
    ensures
        network@.v4 == network.addr.v4,
        network@.octets == network.addr.octets@,
        network@.prefix_len == network.prefix_len,
{
}

/// Traffic and its target stand for what was written of them.
pub proof fn traffic_stands_for_what_was_written(traffic: TrafficSpec)
    ensures
        match traffic {
            TrafficSpec::Http { url, interval_ms, timeout_ms } => {
                &&& traffic@ matches crate::workload_spec::Traffic::Http {
                    url: address,
                    interval_ms: every,
                    timeout_ms: wait,
                }
                &&& address == url@ && every == interval_ms && wait == timeout_ms
            },
            TrafficSpec::Command { program, args, interval_ms } => {
                &&& traffic@ matches crate::workload_spec::Traffic::Command {
                    program: name,
                    args: words,
                    interval_ms: every,
                }
                &&& name == program@ && words == texts(args@) && every == interval_ms
            },
        },
{
}

} // verus!
