//! What rules do to packets, in terms of their rates, times and draws.

use vstd::prelude::*;
use crate::classifier::{
    burst_decision, burst_seconds, burst_state, counted, diagnosed, impairment_plan, index_attempt,
    marked_action, pace_attempt, reservation, rest_is_told_across_the_wrap, rested, takes_index,
    treated, verdict, Account, Action, Answers, BurstState, Diagnostic, IndexStep, PaceStep,
    PacketMarks, SkBuff,
};
use crate::common::{
    burst_step, draw, hash_drops, later, packet_delay, rule_word, sample_drops, wire_time,
    DiagnosticStats, FaultRule, Flow, RuleStats, BURST_LOSS_DOMAIN, DUPLICATE_DOMAIN, JITTER_DOMAIN,
    REORDER_DOMAIN, TRANSITION_DOMAIN,
};

verus! {

/// The two-state loss process follows its four rates. A flow changes its state
/// exactly when its transition draw lies below the rate of leaving that state:
/// a full rate of recovery ends every burst at once, and none never does. In
/// the state that follows, the packet is lost exactly when its loss draw lies
/// below the loss rate of that state.
pub proof fn bursts_follow_their_rates(flow: Flow, packet_index: u64, rule: FaultRule)
    ensures
        // Out of the bad state.
        !burst_step(flow, packet_index, true, rule).0 <==> draw(
            flow,
            packet_index,
            rule,
            TRANSITION_DOMAIN,
        ) % 10_000 < rule.ge_recover_permyriad,
        rule.ge_recover_permyriad >= 10_000 ==> !burst_step(flow, packet_index, true, rule).0,
        rule.ge_recover_permyriad == 0 ==> burst_step(flow, packet_index, true, rule).0,
        // Into the bad state.
        burst_step(flow, packet_index, false, rule).0 <==> draw(
            flow,
            packet_index,
            rule,
            TRANSITION_DOMAIN,
        ) % 10_000 < rule.ge_enter_permyriad,
        rule.ge_enter_permyriad >= 10_000 ==> burst_step(flow, packet_index, false, rule).0,
        rule.ge_enter_permyriad == 0 ==> !burst_step(flow, packet_index, false, rule).0,
        // Loss in the state that follows, whichever state was before.
        forall|bad: bool| #[trigger]
            burst_step(flow, packet_index, bad, rule).0 ==> (burst_step(
                flow,
                packet_index,
                bad,
                rule,
            ).1 <==> draw(flow, packet_index, rule, BURST_LOSS_DOMAIN) % 10_000
                < rule.ge_bad_loss_permyriad),
        forall|bad: bool|
            !(#[trigger] burst_step(flow, packet_index, bad, rule)).0 ==> (burst_step(
                flow,
                packet_index,
                bad,
                rule,
            ).1 <==> draw(flow, packet_index, rule, BURST_LOSS_DOMAIN) % 10_000
                < rule.ge_good_loss_permyriad),
{
}

/// A flow that rested for the reset time decides as one in the good state; one
/// that did not rest, or that has no packet behind it, decides as it is. Every
/// decision moves the sequence by one and remembers its second and its state.
pub proof fn rest_forgets_the_bad_state(
    flow: Flow,
    state: BurstState,
    seconds: int,
    rule: FaultRule,
)
    requires
        0 <= state.seconds < 0x1_0000_0000,
        0 <= state.sequence < 0x8000_0000,
        0 <= seconds < 0x8000_0000,
    ensures
        ({
            let now = (state.seconds + seconds) % 0x1_0000_0000;
            let (after, lost) = burst_decision(flow, state, now, rule);
            let index = state.sequence as u64;
            &&& state.seconds > 0 && 0 < rule.ge_idle_reset_secs <= seconds ==> (after.bad, lost)
                == burst_step(flow, index, false, rule)
            &&& state.seconds == 0 || rule.ge_idle_reset_secs == 0 || seconds
                < rule.ge_idle_reset_secs ==> (after.bad, lost) == burst_step(
                flow,
                index,
                state.bad,
                rule,
            )
            &&& after.seconds == now
            &&& state.sequence < 0x7fff_ffff ==> after.sequence == state.sequence + 1
            &&& state.sequence == 0x7fff_ffff ==> after.sequence == 0
        }),
{
    let now = (state.seconds + seconds) % 0x1_0000_0000;
    let next = (state.sequence + 1) % 0x8000_0000;
    rest_is_known(state, seconds, now, rule);
    assert(state.sequence < 0x7fff_ffff ==> next == state.sequence + 1);
    assert(state.sequence == 0x7fff_ffff ==> next == 0);
    let (after, lost) = burst_decision(flow, state, now, rule);
    let rests = rested(state, now, rule);
    assert((after.bad, lost) == burst_step(
        flow,
        state.sequence as u64,
        state.bad && !rests,
        rule,
    ));
    assert(after.sequence == next && after.seconds == now);
}

#[verifier::spinoff_prover]
proof fn rest_is_known(state: BurstState, seconds: int, now: int, rule: FaultRule)
    requires
        0 <= state.seconds < 0x1_0000_0000,
        0 <= seconds < 0x8000_0000,
        now == (state.seconds + seconds) % 0x1_0000_0000,
    ensures
        rested(state, now, rule) <==> state.seconds > 0 && 0 < rule.ge_idle_reset_secs <= seconds,
{
    if state.seconds > 0 {
        rest_is_told_across_the_wrap(state, rule, seconds);
    }
}

/// The second of the burst clock is that of the time, and wraps only where 32
/// bits do; a word keeps the state in its highest bit.
pub proof fn burst_words_keep_time(now_ns: u64, word: u64)
    ensures
        now_ns < 0x1_0000_0000 * 1_000_000_000 ==> burst_seconds(now_ns) * 1_000_000_000 <= now_ns
            < (burst_seconds(now_ns) + 1) * 1_000_000_000,
        burst_state(word).bad <==> word >= 0x8000_0000_0000_0000,
        burst_state(0) == (BurstState { bad: false, seconds: 0, sequence: 0 }),
{
}

/// Seeded loss takes a packet exactly when its draw lies below the rate, and a
/// random sample falls exactly when it lies in the share of all samples that
/// the rate asks for.
pub proof fn losses_follow_their_rate(
    flow: Flow,
    packet_index: u64,
    rule: FaultRule,
    sample: u32,
    rate: u32,
)
    ensures
        hash_drops(flow, packet_index, rule) <==> draw(flow, packet_index, rule, 0) % 10_000
            < rule.drop_permyriad,
        sample_drops(rate, sample) <==> sample * 10_000 < rate * 0x1_0000_0000,
{
    let w = rule_word(rule);
    assert(0u64 ^ w == w) by (bit_vector);
}

/// Which packets a rule loses: under seeded loss those whose draw at their place
/// in the flow lies below the rate, under random loss those whose sample does,
/// under burst loss those that the process takes, and none under any other
/// algorithm. A lost packet is dropped, keeps its timestamp, and is neither
/// cloned nor delayed.
pub proof fn rules_lose_by_their_algorithm(
    flow: Flow,
    rule: FaultRule,
    tstamp: u64,
    answers: Answers,
)
    ensures
        ({
            let (marks, leaves) = treated(flow, rule, tstamp, answers);
            &&& rule.loss_algorithm == 0 ==> (marks.dropped <==> draw(
                flow,
                answers.packet_index,
                rule,
                0,
            ) % 10_000 < rule.drop_permyriad)
            &&& rule.loss_algorithm == 1 ==> (marks.dropped <==> answers.sample * 10_000
                < rule.drop_permyriad * 0x1_0000_0000)
            &&& rule.loss_algorithm == 2 ==> (marks.dropped <==> answers.burst_lost)
            &&& rule.loss_algorithm > 2 ==> !marks.dropped
            &&& marks.dropped ==> leaves == tstamp && !marks.duplicated && !marks.delayed
                && !marks.reordered && !marks.pacing_dropped
            &&& marks.dropped || marks.pacing_dropped <==> marked_action(marks) == Action::Drop
        }),
{
    losses_follow_their_rate(
        flow,
        answers.packet_index,
        rule,
        answers.sample,
        rule.drop_permyriad,
    );
    losses_follow_their_rate(flow, 0, rule, answers.sample, rule.drop_permyriad);
}

/// A rule numbers the packets of a flow when something that it draws depends on
/// their place: an impairment, or seeded loss at some rate.
pub proof fn draws_need_a_place(rule: FaultRule)
    ensures
        takes_index(rule) <==> rule.duplicate_permyriad > 0 || rule.reorder_permyriad > 0
            || rule.delay_ns > 0 || rule.jitter_ns > 0 || rule.bandwidth_bps > 0 || (
        rule.loss_algorithm == 0 && rule.drop_permyriad > 0),
        rule.impairs() <==> rule.duplicate_permyriad > 0 || rule.reorder_permyriad > 0
            || rule.delay_ns > 0 || rule.jitter_ns > 0 || rule.bandwidth_bps > 0,
{
}

/// Jitter moves a delay by the packet's draw: the distance from the configured
/// delay is the draw modulo one more than the jitter, above for an even draw
/// and below for an odd one, as far as numbers reach. So draws with different
/// remainders give different distances, and no jitter means the delay itself.
pub proof fn jitter_moves_delays_by_its_draw(
    flow: Flow,
    packet_index: u64,
    other_index: u64,
    rule: FaultRule,
)
    ensures
        rule.jitter_ns == 0 ==> packet_delay(flow, packet_index, rule, false) == rule.delay_ns,
        0 < rule.jitter_ns <= rule.delay_ns && rule.delay_ns + rule.jitter_ns <= u64::MAX ==> {
            let sample = draw(flow, packet_index, rule, JITTER_DOMAIN);
            let other = draw(flow, other_index, rule, JITTER_DOMAIN);
            let delay = packet_delay(flow, packet_index, rule, false);
            let other_delay = packet_delay(flow, other_index, rule, false);
            &&& sample % 2 == 0 ==> delay - rule.delay_ns == sample as int % (rule.jitter_ns + 1)
            &&& sample % 2 == 1 ==> rule.delay_ns - delay == sample as int % (rule.jitter_ns + 1)
            &&& sample as int % (rule.jitter_ns + 1) != other as int % (rule.jitter_ns + 1)
                ==> delay != other_delay
        },
        rule.jitter_ns > 0 ==> {
            let sample = draw(flow, packet_index, rule, JITTER_DOMAIN);
            let room = if rule.jitter_ns == u64::MAX {
                u64::MAX as int
            } else {
                rule.jitter_ns + 1
            };
            let moved = sample as int % room;
            let delay = packet_delay(flow, packet_index, rule, false);
            &&& sample % 2 == 0 && rule.delay_ns + moved <= u64::MAX ==> delay == rule.delay_ns
                + moved
            &&& sample % 2 == 0 && rule.delay_ns + moved > u64::MAX ==> delay == u64::MAX
            &&& sample % 2 == 1 && moved <= rule.delay_ns ==> delay == rule.delay_ns - moved
            &&& sample % 2 == 1 && moved > rule.delay_ns ==> delay == 0
        },
        packet_delay(flow, packet_index, rule, true) == 0,
{
    let sample = draw(flow, packet_index, rule, JITTER_DOMAIN);
    let other = draw(flow, other_index, rule, JITTER_DOMAIN);
    assert((sample & 1 == 0) == (sample % 2 == 0)) by (bit_vector);
    assert((other & 1 == 0) == (other % 2 == 0)) by (bit_vector);
    if rule.jitter_ns > 0 {
        let room = crate::common::capped_sum(rule.jitter_ns, 1);
        assert(sample % room < room && other % room < room);
        assert(sample as int % room as int == (sample % room) as int);
        assert(other as int % room as int == (other % room) as int);
    }
}

/// The impairments of a packet are those of the rule's rates: it overtakes
/// exactly when its reorder draw lies below the reorder rate, and is cloned
/// exactly when its duplication draw lies below the duplication rate. A packet
/// that overtakes asks to leave at its base time; every other waits its delay.
/// The base is the later of now and the deadline that the packet came with.
pub proof fn impairments_follow_their_rates(
    flow: Flow,
    packet_index: u64,
    rule: FaultRule,
    now: u64,
    tstamp: u64,
)
    ensures
        ({
            let plan = impairment_plan(flow, packet_index, rule, now, tstamp);
            let delay = packet_delay(flow, packet_index, rule, false);
            &&& plan.reordered <==> draw(flow, packet_index, rule, REORDER_DOMAIN) % 10_000
                < rule.reorder_permyriad
            &&& rule.reorder_permyriad >= 10_000 ==> plan.reordered
            &&& rule.reorder_permyriad == 0 ==> !plan.reordered
            &&& plan.duplicate <==> draw(flow, packet_index, rule, DUPLICATE_DOMAIN) % 10_000
                < rule.duplicate_permyriad
            &&& rule.duplicate_permyriad >= 10_000 ==> plan.duplicate
            &&& rule.duplicate_permyriad == 0 ==> !plan.duplicate
            &&& plan.base >= now && plan.base >= tstamp && (plan.base == now || plan.base == tstamp)
            &&& plan.reordered ==> plan.requested == plan.base
            &&& !plan.reordered && plan.base + delay <= u64::MAX ==> plan.requested == plan.base
                + delay
            &&& !plan.reordered && plan.base + delay > u64::MAX ==> plan.requested == u64::MAX
        }),
{
}

/// What becomes of an impaired packet that is not lost. Without a place on the
/// link, for itself or for its clone, it is dropped by pacing and counted so.
/// Otherwise it leaves at its place, marked as reordered when it was drawn so,
/// as duplicated when its clone went out, and as delayed when one of them
/// leaves behind the base time.
pub proof fn queued_packets_leave_at_their_place(
    flow: Flow,
    rule: FaultRule,
    tstamp: u64,
    answers: Answers,
)
    requires
        rule.impairs(),
        !treated(flow, rule, tstamp, answers).0.dropped,
    ensures
        ({
            let plan = impairment_plan(flow, answers.packet_index, rule, answers.now_ns, tstamp);
            let (marks, leaves) = treated(flow, rule, tstamp, answers);
            let placed = answers.first is Some && (plan.duplicate ==> answers.second is Some);
            &&& marks.reordered == plan.reordered
            &&& marks.pacing_dropped <==> !placed
            &&& !placed ==> leaves == tstamp && !marks.duplicated
            &&& !placed ==> (marks.delayed <==> answers.first is Some && answers.first->0
                > plan.base)
            &&& placed ==> {
                &&& marks.duplicated <==> plan.duplicate && answers.cloned
                &&& marks.delayed <==> answers.first->0 > plan.base || (plan.duplicate
                    && answers.cloned && answers.second->0 > plan.base)
                &&& plan.duplicate || answers.first->0 >= tstamp ==> leaves == answers.first->0
                &&& !plan.duplicate && answers.first->0 < tstamp ==> leaves == tstamp
            }
            &&& marks.delayed ==> answers.first is Some
        }),
{
}

/// A place on a link is the time that was asked for, or the time at which the
/// link becomes free if that is later, and nothing later still; the link is
/// then taken for exactly as long as the packet occupies it.
pub proof fn places_are_the_first_that_are_free(clock: u64, requested: u64, occupied: u64, left: usize)
    ensures
        ({
            let (delivery, next) = reservation(clock, requested, occupied);
            &&& delivery == requested || delivery == clock
            &&& delivery >= requested && delivery >= clock
            &&& delivery + occupied <= u64::MAX ==> next == delivery + occupied
            &&& delivery + occupied > u64::MAX ==> next == u64::MAX
            &&& left > 0 ==> pace_attempt(clock, requested, occupied, left) == (
            PaceStep::Exchange { observed: clock, delivery, next, left: (left - 1) as usize })
            &&& left == 0 ==> pace_attempt(clock, requested, occupied, left) == PaceStep::Done(None)
        }),
{
}

/// A link of some bandwidth is taken for the bits of a packet over that
/// bandwidth, to the nanosecond below; lengths beyond a billion bytes take as
/// long as a billion, and a link without a limit takes no time.
pub proof fn links_are_taken_for_the_bits(packet_len: u32, bandwidth_bps: u64)
    ensures
        bandwidth_bps == 0 ==> wire_time(packet_len, bandwidth_bps) == 0,
        bandwidth_bps > 0 && packet_len <= 1_000_000_000 ==> {
            &&& wire_time(packet_len, bandwidth_bps) * bandwidth_bps <= packet_len * 8
                * 1_000_000_000
            &&& packet_len * 8 * 1_000_000_000 < (wire_time(packet_len, bandwidth_bps) + 1)
                * bandwidth_bps
        },
        packet_len > 1_000_000_000 ==> wire_time(packet_len, bandwidth_bps) == wire_time(
            1_000_000_000,
            bandwidth_bps,
        ),
{
    if bandwidth_bps > 0 && packet_len <= 1_000_000_000 {
        crate::common::wire_time_respects_bandwidth(packet_len, bandwidth_bps, bandwidth_bps);
    }
}

/// The number of a packet is taken by moving the counter of its flow by one, and
/// where every exchange was lost the number last seen is used and the counter
/// still moves.
pub proof fn numbers_move_by_one(observed: u64, left: usize)
    ensures
        left == 0 ==> index_attempt(observed, left) == (IndexStep::Done {
            index: observed,
            advance: true,
        }),
        left > 0 && observed < u64::MAX ==> index_attempt(observed, left) == (IndexStep::Exchange {
            observed,
            next: (observed + 1) as u64,
            left: (left - 1) as usize,
        }),
        left > 0 && observed == u64::MAX ==> index_attempt(observed, left) == (
        IndexStep::Exchange { observed, next: 0, left: (left - 1) as usize }),
{
}

/// What is counted of a packet that a rule handled, while the counters have
/// room: one packet, its segments and its bytes; the same again as lost when it
/// was lost, and one for everything else that became of it.
pub proof fn packets_are_counted_for_what_they_are(
    stats: RuleStats,
    segments: u32,
    bytes: u32,
    marks: PacketMarks,
)
    requires
        stats.matched < u64::MAX,
        stats.dropped < u64::MAX,
        stats.matched_segments + segments <= u64::MAX,
        stats.dropped_segments + segments <= u64::MAX,
        stats.matched_bytes + bytes <= u64::MAX,
        stats.dropped_bytes + bytes <= u64::MAX,
        stats.gso_skbs < u64::MAX,
        stats.duplicated < u64::MAX,
        stats.reordered < u64::MAX,
        stats.delayed < u64::MAX,
        stats.pacing_dropped < u64::MAX,
    ensures
        ({
            let after = counted(stats, segments, bytes, marks);
            &&& after.matched - stats.matched == 1
            &&& after.matched_segments - stats.matched_segments == segments
            &&& after.matched_bytes - stats.matched_bytes == bytes
            &&& after.dropped - stats.dropped == if marks.dropped { 1int } else { 0 }
            &&& after.dropped_segments - stats.dropped_segments == if marks.dropped {
                segments as int
            } else {
                0
            }
            &&& after.dropped_bytes - stats.dropped_bytes == if marks.dropped {
                bytes as int
            } else {
                0
            }
            &&& after.gso_skbs - stats.gso_skbs == if segments > 1 { 1int } else { 0 }
            &&& after.duplicated - stats.duplicated == if marks.duplicated { 1int } else { 0 }
            &&& after.reordered - stats.reordered == if marks.reordered { 1int } else { 0 }
            &&& after.delayed - stats.delayed == if marks.delayed { 1int } else { 0 }
            &&& after.pacing_dropped - stats.pacing_dropped == if marks.pacing_dropped {
                1int
            } else {
                0
            }
        }),
{
}

/// A packet that a rule handled counts for its segments, at least one, and for
/// its bytes on the wire where they are known and else for its own length.
pub proof fn verdicts_count_segments_and_bytes(bytes: Seq<u8>, skb: SkBuff, answers: Answers)
    requires
        bytes.len() <= u32::MAX,
    ensures
        verdict(bytes, skb, answers).account matches Account::Rule(counting) ==> {
            &&& skb.gso_segs > 0 ==> counting.segments == skb.gso_segs
            &&& skb.gso_segs == 0 ==> counting.segments == 1
            &&& skb.wire_len > 0 ==> counting.bytes == skb.wire_len
            &&& skb.wire_len == 0 ==> counting.bytes == bytes.len()
        },
{
}

/// The sum of all reasons that are counted.
pub open spec fn reasons(stats: DiagnosticStats) -> int {
    stats.seen + stats.duplicate_bypass + stats.non_ip + stats.malformed + stats.no_rules
        + stats.destination_miss + stats.source_miss + stats.protocol_miss
        + stats.fragment_port_miss + stats.port_miss + stats.invalid_rule
}

/// The counter of a reason.
pub open spec fn count_of(stats: DiagnosticStats, reason: Diagnostic) -> u64 {
    match reason {
        Diagnostic::Seen => stats.seen,
        Diagnostic::DuplicateBypass => stats.duplicate_bypass,
        Diagnostic::NonIp => stats.non_ip,
        Diagnostic::Malformed => stats.malformed,
        Diagnostic::NoRules => stats.no_rules,
        Diagnostic::DestinationMiss => stats.destination_miss,
        Diagnostic::SourceMiss => stats.source_miss,
        Diagnostic::ProtocolMiss => stats.protocol_miss,
        Diagnostic::FragmentPortMiss => stats.fragment_port_miss,
        Diagnostic::PortMiss => stats.port_miss,
        Diagnostic::InvalidRule => stats.invalid_rule,
    }
}

/// A reason moves its own counter by one, and no other.
pub proof fn reasons_are_counted_apart(
    stats: DiagnosticStats,
    reason: Diagnostic,
    other: Diagnostic,
)
    requires
        count_of(stats, reason) < u64::MAX,
    ensures
        count_of(diagnosed(stats, reason), reason) == count_of(stats, reason) + 1,
        other != reason ==> count_of(diagnosed(stats, reason), other) == count_of(stats, other),
        reasons(diagnosed(stats, reason)) == reasons(stats) + 1,
{
}

} // verus!
