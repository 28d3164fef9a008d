//! What the counters of a session add up to, and what is reported of them.

use vstd::prelude::*;
use crate::attachment::attaches_without_qdisc;
use crate::common::{DiagnosticStats, RuleStats};
use crate::control::{ControlCommand, ControlPlane};
use crate::options::direction_error;
use crate::rule_store::{following, ruleset_error};
use crate::socket::{path_error, reply_error, LoopReply, PathState};
use crate::stats::{
    fits, snapshot_after, total, CounterDelta, Previous, StatsEvent, StatsSnapshot,
};

verus! {

/// The sum of one counter over the processors.
pub open spec fn sum_of<T>(values: Seq<T>, counter: spec_fn(T) -> u64) -> int
    decreases values.len(),
{
    if values.len() == 0 {
        0
    } else {
        sum_of(values.drop_last(), counter) + counter(values.last())
    }
}

/// The total of a rule is, counter by counter, the sum over the processors.
pub proof fn totals_are_sums(values: Seq<RuleStats>)
    requires
        fits(values),
    ensures
        total(values).matched == sum_of(values, |stats: RuleStats| stats.matched),
        total(values).dropped == sum_of(values, |stats: RuleStats| stats.dropped),
        total(values).matched_segments == sum_of(values, |stats: RuleStats| stats.matched_segments),
        total(values).dropped_segments == sum_of(values, |stats: RuleStats| stats.dropped_segments),
        total(values).matched_bytes == sum_of(values, |stats: RuleStats| stats.matched_bytes),
        total(values).dropped_bytes == sum_of(values, |stats: RuleStats| stats.dropped_bytes),
        total(values).gso_skbs == sum_of(values, |stats: RuleStats| stats.gso_skbs),
        total(values).duplicated == sum_of(values, |stats: RuleStats| stats.duplicated),
        total(values).reordered == sum_of(values, |stats: RuleStats| stats.reordered),
        total(values).delayed == sum_of(values, |stats: RuleStats| stats.delayed),
        total(values).pacing_dropped == sum_of(values, |stats: RuleStats| stats.pacing_dropped),
    decreases values.len(),
{
    if values.len() > 0 {
        totals_are_sums(values.drop_last());
    }
}

/// The total of all reasons is, counter by counter, the sum over the
/// processors.
pub proof fn diagnostic_totals_are_sums(values: Seq<DiagnosticStats>)
    requires
        fits(values),
    ensures
        total(values).seen == sum_of(values, |stats: DiagnosticStats| stats.seen),
        total(values).duplicate_bypass == sum_of(values, |stats: DiagnosticStats| stats.duplicate_bypass),
        total(values).non_ip == sum_of(values, |stats: DiagnosticStats| stats.non_ip),
        total(values).malformed == sum_of(values, |stats: DiagnosticStats| stats.malformed),
        total(values).no_rules == sum_of(values, |stats: DiagnosticStats| stats.no_rules),
        total(values).destination_miss == sum_of(values, |stats: DiagnosticStats| stats.destination_miss),
        total(values).source_miss == sum_of(values, |stats: DiagnosticStats| stats.source_miss),
        total(values).protocol_miss == sum_of(values, |stats: DiagnosticStats| stats.protocol_miss),
        total(values).fragment_port_miss == sum_of(values, |stats: DiagnosticStats| stats.fragment_port_miss),
        total(values).port_miss == sum_of(values, |stats: DiagnosticStats| stats.port_miss),
        total(values).invalid_rule == sum_of(values, |stats: DiagnosticStats| stats.invalid_rule),
    decreases values.len(),
{
    if values.len() > 0 {
        diagnostic_totals_are_sums(values.drop_last());
    }
}

/// What a counter gained since an earlier reading; nothing where it fell.
pub open spec fn gain(now: u64, before: u64) -> int {
    if now >= before {
        now - before
    } else {
        0
    }
}

/// A report holds the totals of its rule and what each of them gained since the
/// report before it, over the time between the two.
pub proof fn reports_hold_totals_and_gains(
    rule_id: u32,
    totals: RuleStats,
    previous: Previous<RuleStats>,
    elapsed_ms: u64,
)
    ensures
        ({
            let report = snapshot_after(rule_id, totals, previous, elapsed_ms);
            &&& report.rule_id == rule_id && report.elapsed_ms == elapsed_ms
            &&& report.interval_ms == gain(elapsed_ms, previous.elapsed_ms)
            &&& report.matched == totals.matched
            &&& report.dropped == totals.dropped
            &&& report.matched_segments == totals.matched_segments
            &&& report.dropped_segments == totals.dropped_segments
            &&& report.matched_bytes == totals.matched_bytes
            &&& report.dropped_bytes == totals.dropped_bytes
            &&& report.gso_skbs == totals.gso_skbs
            &&& report.duplicated == totals.duplicated
            &&& report.reordered == totals.reordered
            &&& report.delayed == totals.delayed
            &&& report.pacing_dropped == totals.pacing_dropped
            &&& report.matched_delta == gain(totals.matched, previous.total.matched)
            &&& report.dropped_delta == gain(totals.dropped, previous.total.dropped)
            &&& report.matched_segments_delta == gain(totals.matched_segments, previous.total.matched_segments)
            &&& report.dropped_segments_delta == gain(totals.dropped_segments, previous.total.dropped_segments)
            &&& report.matched_bytes_delta == gain(totals.matched_bytes, previous.total.matched_bytes)
            &&& report.dropped_bytes_delta == gain(totals.dropped_bytes, previous.total.dropped_bytes)
            &&& report.gso_skbs_delta == gain(totals.gso_skbs, previous.total.gso_skbs)
            &&& report.duplicated_delta == gain(totals.duplicated, previous.total.duplicated)
            &&& report.reordered_delta == gain(totals.reordered, previous.total.reordered)
            &&& report.delayed_delta == gain(totals.delayed, previous.total.delayed)
            &&& report.pacing_dropped_delta == gain(totals.pacing_dropped, previous.total.pacing_dropped)
        }),
{
}

/// What each reason gained since an earlier reading.
pub proof fn diagnostic_gains_are_told(now: DiagnosticStats, before: DiagnosticStats)
    ensures
        now.since(before).seen == gain(now.seen, before.seen),
        now.since(before).duplicate_bypass == gain(now.duplicate_bypass, before.duplicate_bypass),
        now.since(before).non_ip == gain(now.non_ip, before.non_ip),
        now.since(before).malformed == gain(now.malformed, before.malformed),
        now.since(before).no_rules == gain(now.no_rules, before.no_rules),
        now.since(before).destination_miss == gain(now.destination_miss, before.destination_miss),
        now.since(before).source_miss == gain(now.source_miss, before.source_miss),
        now.since(before).protocol_miss == gain(now.protocol_miss, before.protocol_miss),
        now.since(before).fragment_port_miss == gain(now.fragment_port_miss, before.fragment_port_miss),
        now.since(before).port_miss == gain(now.port_miss, before.port_miss),
        now.since(before).invalid_rule == gain(now.invalid_rule, before.invalid_rule),
{
}

/// The shares and rates of a report: losses as shares of what was matched, in
/// packets, segments and bytes, over the session and over the interval; every
/// other effect as a share of the packets of the interval; and rates over the
/// time of the interval.
pub proof fn reports_tell_shares_and_rates(report: StatsSnapshot)
    ensures
        ({
            let event = StatsEvent::of(report);
            &&& event.snapshot == report
            &&& event.skb_loss.part == report.dropped && event.skb_loss.total == report.matched
            &&& event.loss == event.skb_loss
            &&& event.segment_loss.part == report.dropped_segments
            &&& event.segment_loss.total == report.matched_segments
            &&& event.byte_loss.part == report.dropped_bytes
            &&& event.byte_loss.total == report.matched_bytes
            &&& event.skb_loss_interval.part == report.dropped_delta
            &&& event.skb_loss_interval.total == report.matched_delta
            &&& event.segment_loss_interval.part == report.dropped_segments_delta
            &&& event.segment_loss_interval.total == report.matched_segments_delta
            &&& event.byte_loss_interval.part == report.dropped_bytes_delta
            &&& event.byte_loss_interval.total == report.matched_bytes_delta
            &&& event.gso_interval.part == report.gso_skbs_delta
            &&& event.duplicated_interval.part == report.duplicated_delta
            &&& event.reordered_interval.part == report.reordered_delta
            &&& event.delayed_interval.part == report.delayed_delta
            &&& event.pacing_dropped_interval.part == report.pacing_dropped_delta
            &&& event.gso_interval.total == report.matched_delta
            &&& event.duplicated_interval.total == report.matched_delta
            &&& event.reordered_interval.total == report.matched_delta
            &&& event.delayed_interval.total == report.matched_delta
            &&& event.pacing_dropped_interval.total == report.matched_delta
            &&& event.matched_packets.amount == report.matched_delta
            &&& event.dropped_packets.amount == report.dropped_delta
            &&& event.wire_bytes.amount == report.matched_bytes_delta
            &&& event.dropped_bytes.amount == report.dropped_bytes_delta
            &&& event.matched_packets.interval_ms == report.interval_ms
            &&& event.dropped_packets.interval_ms == report.interval_ms
            &&& event.wire_bytes.interval_ms == report.interval_ms
            &&& event.dropped_bytes.interval_ms == report.interval_ms
        }),
{
}

/// A stop is always carried out; new rules are exactly when they work in the
/// direction of the session and make a table.
pub proof fn commands_are_carried_out_exactly(plane: ControlPlane, command: ControlCommand)
    ensures
        command == ControlCommand::Stop ==> plane.command_error(command) is None,
        command matches ControlCommand::ReplaceRules(rules) ==> (plane.command_error(command)
            is None <==> direction_error(plane.direction, rules@) is None && ruleset_error(rules@)
            is None),
{
}

/// Generations count up by one and never take the number zero.
pub proof fn generations_count_up(generation: u32)
    ensures
        generation < u32::MAX ==> following(generation) == generation + 1,
        generation == u32::MAX ==> following(generation) == 1,
        following(generation) != 0,
        following(generation) != generation,
{
}

/// A command that was not carried out is answered by an error, and one that was
/// never is; a control path is taken over only where nothing lives.
pub proof fn failures_are_answered(reply: LoopReply, path: Seq<char>, found: PathState)
    ensures
        reply_error(reply) is None <==> reply matches LoopReply::Done(_),
        reply matches LoopReply::Refused(message) ==> reply_error(reply) == Some(message@),
        path_error(path, found) is None <==> found == PathState::Absent || found
            == PathState::Stale,
{
}

/// Kernels from 6.6 on attach without a queueing discipline of their own.
pub proof fn newer_kernels_need_no_qdisc(major: u8, minor: u8)
    ensures
        attaches_without_qdisc(major, minor) <==> major * 256 + minor >= 6 * 256 + 6,
{
}

} // verus!
