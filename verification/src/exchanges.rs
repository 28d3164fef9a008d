//! Laws of what the dataplane and the control loop are asked for, stated of
//! their answers.

use vstd::prelude::*;
use crate::attachment::{decide_removal, filter_args, AddOutcome, ClsactGuard, Listing, Removal};
use crate::classifier::{
    action_for, be_bytes, burst_decision, burst_seconds, burst_state, burst_word, clone_mark,
    delivery_time_exchanged, gilbert_elliott_exchanged, next_gilbert_elliott_decision,
    next_packet_index, packet_index_exchanged, plan_impairments, port_source,
    remember_fragment_ports, reserve_delivery_time, select_rule, Action, BurstStep, Diagnostic,
    FlowStateKey, FragmentPorts, ImpairmentPlan, IndexStep, PaceStep, PacketMarks, PortReading,
    PortSource, RuleMatch, Selected,
};
use crate::common::{
    draw, gilbert_elliott_step, seeded_delay_ns, serialization_delay_ns, FaultRule, FlowKey,
};
use crate::control::{initial_command, schedule, ControlCommand, OutageWindow, Scheduled};
use crate::duration::Duration;
use crate::experiment_spec::FaultSpec;
use crate::net::IpNet;
use crate::packet::ParsedPacket;
use crate::protocol::{optional_network, Request, Response, RuleSpec};
use crate::socket::{claim_path, serve_reply, serve_request, LoopReply, PathState, Pending, Serving};
use crate::protocol::ControlState;
use crate::stats::{encode_msgpack, Rate, Share, StatsSnapshot};
use crate::text::texts;

verus! {

/// TCP and UDP packets have ports, which stand in their header or, for a later
/// fragment, with the first one; the ports of a first fragment are remembered.
/// Packets of every other protocol have none.
pub proof fn ports_come_with_their_protocol(flow: &FlowKey, packet: &ParsedPacket)
    ensures
        call_requires(port_source, (flow, packet)),
        forall|r: PortSource| #[trigger]
            call_ensures(port_source, (flow, packet), r) ==> {
                &&& r == PortSource::Absent <==> flow.protocol != 6 && flow.protocol != 17
                &&& flow.protocol == 6 || flow.protocol == 17 ==> {
                    &&& packet.non_initial_fragment ==> r == PortSource::Cached
                    &&& !packet.non_initial_fragment ==> r == (PortSource::Header {
                        remember: packet.fragmented,
                    })
                }
            },
{
}

/// A burst begins with its rate of entry and ends with its rate of recovery,
/// and each state loses with its own rate.
pub proof fn bursts_begin_and_end(flow: &FlowKey, index: u64, bad: bool, rule: &FaultRule)
    ensures
        call_requires(gilbert_elliott_step, (flow, index, bad, rule)),
        forall|r: (bool, bool)| #[trigger]
            call_ensures(gilbert_elliott_step, (flow, index, bad, rule), r) ==> {
                let moves = draw(flow@, index, *rule, 0x7472_616e_7369_7469) % 10_000;
                let loses = draw(flow@, index, *rule, 0x6c6f_7373_5f67_6500) % 10_000;
                &&& bad && moves < rule.ge_recover_permyriad ==> !r.0
                &&& bad && moves >= rule.ge_recover_permyriad ==> r.0
                &&& !bad && moves < rule.ge_enter_permyriad ==> r.0
                &&& !bad && moves >= rule.ge_enter_permyriad ==> !r.0
                &&& r.0 ==> (r.1 <==> loses < rule.ge_bad_loss_permyriad)
                &&& !r.0 ==> (r.1 <==> loses < rule.ge_good_loss_permyriad)
            },
{
}

/// A delay is moved by its jitter: by what is drawn up to it, later for an even
/// draw and sooner for an odd one. Without jitter it is the rule's own, and a
/// packet that is sent ahead of others has none.
pub proof fn delays_move_by_what_is_drawn(
    flow: &FlowKey,
    index: u64,
    rule: &FaultRule,
    reordered: bool,
)
    ensures
        call_requires(seeded_delay_ns, (flow, index, rule, reordered)),
        forall|r: u64| #[trigger]
            call_ensures(seeded_delay_ns, (flow, index, rule, reordered), r) ==> {
                let sample = draw(flow@, index, *rule, 0x6a69_7474_6572_0000);
                &&& reordered ==> r == 0
                &&& !reordered && rule.jitter_ns == 0 ==> r == rule.delay_ns
                &&& !reordered && 0 < rule.jitter_ns < u64::MAX ==> {
                    let moved = sample as int % (rule.jitter_ns + 1);
                    &&& sample % 2 == 0 && rule.delay_ns + moved <= u64::MAX ==> r == rule.delay_ns
                        + moved
                    &&& sample % 2 == 0 && rule.delay_ns + moved > u64::MAX ==> r == u64::MAX
                    &&& sample % 2 == 1 && moved <= rule.delay_ns ==> r == rule.delay_ns - moved
                    &&& sample % 2 == 1 && moved > rule.delay_ns ==> r == 0
                }
            },
{
    let sample = draw(flow@, index, *rule, 0x6a69_7474_6572_0000);
    assert(sample & 1 == sample % 2) by (bit_vector);
}

/// A packet is sent ahead of others, or doubled, with the rate of each, and
/// asks to leave after its delay from the later of now and when it would leave
/// anyway.
pub proof fn impairments_are_drawn(selected: &Selected, index: u64, now: u64, tstamp: u64)
    ensures
        call_requires(plan_impairments, (selected, index, now, tstamp)),
        forall|r: ImpairmentPlan| #[trigger]
            call_ensures(plan_impairments, (selected, index, now, tstamp), r) ==> {
                let rule = selected.rule;
                let flow = selected.key.flow@;
                &&& r.reordered <==> draw(flow, index, rule, 0x7265_6f72_6465_7200) % 10_000
                    < rule.reorder_permyriad
                &&& r.duplicate <==> draw(flow, index, rule, 0x6475_706c_6963_6174) % 10_000
                    < rule.duplicate_permyriad
                &&& r.base >= now && r.base >= tstamp && (r.base == now || r.base == tstamp)
                &&& r.reordered ==> r.requested == r.base
                &&& !r.reordered && rule.jitter_ns == 0 && r.base + rule.delay_ns <= u64::MAX
                    ==> r.requested == r.base + rule.delay_ns
            },
{
}

/// A rule that stands for a fault does all that the fault does.
pub proof fn rules_do_what_their_fault_does(
    fault: &FaultSpec,
    id: u32,
    source: Option<IpNet>,
    destination: IpNet,
    protocol: u8,
    port: u16,
)
    ensures
        call_requires(FaultSpec::rule_for, (fault, id, source, destination, protocol, port)),
        forall|r: RuleSpec| #[trigger]
            call_ensures(
                FaultSpec::rule_for,
                (fault, id, source, destination, protocol, port),
                r,
            ) ==> {
                let rule = r@;
                &&& rule.id == id
                &&& rule.source == optional_network(source)
                &&& rule.destination == destination@
                &&& rule.protocol == protocol
                &&& rule.destination_port == port
                &&& rule.drop_permyriad == fault.drop_permyriad
                &&& rule.duplicate_permyriad == fault.duplicate_permyriad
                &&& rule.reorder_permyriad == fault.reorder_permyriad
                &&& rule.delay_ns == fault.delay_ns
                &&& rule.jitter_ns == fault.jitter_ns
                &&& rule.bandwidth_bps == fault.bandwidth_bps
                &&& fault.seed != 0 ==> rule.seed == fault.seed
                &&& fault.seed == 0 ==> rule.seed == 1
                &&& rule.loss_algorithm == 0
            },
{
}

/// A packet takes the number that stands there and moves it on by one. It tries
/// twice against others and then takes what it found; a flow that is not known
/// counts from zero.
pub proof fn numbers_are_taken_in_turn(observed: u64, left: usize, actual: u64)
    ensures
        forall|r: IndexStep| #[trigger]
            call_ensures(next_packet_index, (None::<u64>,), r) ==> r == (IndexStep::Done {
                index: 0,
                advance: false,
            }),
        forall|r: IndexStep| #[trigger]
            call_ensures(next_packet_index, (Some(observed),), r) ==> {
                &&& r matches IndexStep::Exchange { observed: seen, next, left: more }
                &&& seen == observed
                &&& observed < u64::MAX ==> next == observed + 1
                &&& observed == u64::MAX ==> next == 0
                &&& more == 1
            },
        forall|r: IndexStep| #[trigger]
            call_ensures(packet_index_exchanged, (observed, left, actual, true), r) ==> r == (
            IndexStep::Done { index: observed, advance: false }),
        forall|r: IndexStep| #[trigger]
            call_ensures(packet_index_exchanged, (observed, left, actual, false), r) ==> {
                &&& left == 0 ==> r == (IndexStep::Done { index: actual, advance: true })
                &&& left > 0 ==> {
                    &&& r matches IndexStep::Exchange { observed: seen, next, left: more }
                    &&& seen == actual
                    &&& actual < u64::MAX ==> next == actual + 1
                    &&& more == left - 1
                }
            },
{
}

/// A burst goes on from what is known of its flow. It tries twice against
/// others and then loses nothing, as does a flow of which nothing is known; a
/// decision stands once it is written.
pub proof fn bursts_go_on_from_what_is_known(
    key: &FlowStateKey,
    rule: &FaultRule,
    now_ns: u64,
    word: u64,
    lost: bool,
    left: usize,
)
    ensures
        forall|r: BurstStep| #[trigger]
            call_ensures(next_gilbert_elliott_decision, (key, rule, now_ns, None::<u64>), r) ==> r
                == BurstStep::Done(false),
        forall|r: BurstStep| #[trigger]
            call_ensures(next_gilbert_elliott_decision, (key, rule, now_ns, Some(word)), r) ==> {
                let (after, loses) = burst_decision(
                    key.flow@,
                    burst_state(word),
                    burst_seconds(now_ns),
                    *rule,
                );
                &&& r matches BurstStep::Exchange { observed, next, lost: stated, left: more }
                &&& observed == word
                &&& next == burst_word(after)
                &&& stated == loses
                &&& more == 1
            },
        forall|r: BurstStep| #[trigger]
            call_ensures(
                gilbert_elliott_exchanged,
                (key, rule, now_ns, lost, left, word, true),
                r,
            ) ==> r == BurstStep::Done(lost),
        forall|r: BurstStep| #[trigger]
            call_ensures(
                gilbert_elliott_exchanged,
                (key, rule, now_ns, lost, left, word, false),
                r,
            ) ==> (left == 0 ==> r == BurstStep::Done(false)) && (left > 0 ==> (r matches
                BurstStep::Exchange { observed, left: more, .. } && observed == word && more
                == left - 1)),
{
}

/// A packet on a link without a bound leaves when it asks to. On a bounded one
/// it leaves when the link is free, which it then takes for its bits; it tries
/// twice against others and is given up after that, or where the link has no
/// clock.
pub proof fn links_are_taken_in_turn(
    requested: u64,
    length: u32,
    bps: u64,
    clock: u64,
    delivery: u64,
    left: usize,
    taken: u64,
)
    requires
        call_ensures(serialization_delay_ns, (length, bps), taken),
    ensures
        forall|r: PaceStep, known: Option<u64>| #[trigger]
            call_ensures(reserve_delivery_time, (requested, length, 0u64, known), r) ==> r
                == PaceStep::Done(Some(requested)),
        bps > 0 ==> forall|r: PaceStep| #[trigger]
            call_ensures(reserve_delivery_time, (requested, length, bps, None::<u64>), r) ==> r
                == PaceStep::Done(None),
        bps > 0 ==> forall|r: PaceStep| #[trigger]
            call_ensures(reserve_delivery_time, (requested, length, bps, Some(clock)), r) ==> {
                &&& r matches PaceStep::Exchange { observed, delivery: leaves, next, left: more }
                &&& observed == clock
                &&& leaves >= requested && leaves >= clock && (leaves == requested || leaves
                    == clock)
                &&& leaves + taken <= u64::MAX ==> next == leaves + taken
                &&& more == 1
            },
        forall|r: PaceStep| #[trigger]
            call_ensures(
                delivery_time_exchanged,
                (requested, length, bps, delivery, left, clock, true),
                r,
            ) ==> r == PaceStep::Done(Some(delivery)),
        forall|r: PaceStep| #[trigger]
            call_ensures(
                delivery_time_exchanged,
                (requested, length, bps, delivery, left, clock, false),
                r,
            ) ==> (left == 0 ==> r == PaceStep::Done(None)) && (left > 0 ==> (r matches
                PaceStep::Exchange { observed, delivery: leaves, left: more, .. } && observed
                == clock && leaves >= requested && leaves >= clock && more == left - 1)),
{
}

/// A rule takes a packet whose ports it names, or any where it names none. A
/// rule whose number is not below 1024 is none.
pub proof fn selected_rules_stand_in_the_table(
    flow: &FlowKey,
    matched: &RuleMatch,
    ports: (u16, u16),
)
    ensures
        forall|r: Result<Selected, Diagnostic>| #[trigger]
            call_ensures(select_rule, (flow, matched, PortReading::Header(Ok(ports))), r) ==> {
                let named = matched.rule.destination_port;
                &&& named != 0 && named != ports.1 ==> r == Err::<Selected, Diagnostic>(
                    Diagnostic::PortMiss,
                )
                &&& (named == 0 || named == ports.1) && matched.rule.id >= 1024 ==> r == Err::<
                    Selected,
                    Diagnostic,
                >(Diagnostic::InvalidRule)
                &&& (named == 0 || named == ports.1) && matched.rule.id < 1024 ==> {
                    &&& r matches Ok(selected)
                    &&& selected.rule == matched.rule
                    &&& selected.key.rule_id == matched.rule.id
                    &&& selected.key.generation == matched.generation
                    &&& selected.key.flow@.source_port == ports.0
                    &&& selected.key.flow@.destination_port == ports.1
                    &&& selected.key.flow@.source == flow@.source
                    &&& selected.key.flow@.destination == flow@.destination
                    &&& selected.key.flow@.protocol == flow@.protocol
                    &&& selected.key.flow@.family == flow@.family
                }
            },
{
}

/// Ports are remembered with the time at which they were seen; a clone is told
/// by its highest bit, and what is marked as lost or given up is not let
/// through.
pub proof fn marks_tell_what_becomes_of_packets(
    ports: (u16, u16),
    now_ns: u64,
    mark: u32,
    marks: &PacketMarks,
)
    ensures
        forall|r: FragmentPorts| #[trigger]
            call_ensures(remember_fragment_ports, (ports, now_ns), r) ==> r.seen_ns == now_ns
                && r.source_port == ports.0 && r.destination_port == ports.1,
        forall|r: u32| #[trigger]
            call_ensures(clone_mark, (mark,), r) ==> (mark < 0x8000_0000 ==> r == mark
                + 0x8000_0000) && (mark >= 0x8000_0000 ==> r == mark),
        forall|r: Action| #[trigger]
            call_ensures(action_for, (marks,), r) ==> (r == Action::Drop <==> marks.dropped
                || marks.pacing_dropped),
{
}

/// Four bytes stand for a number, the highest first.
pub proof fn bytes_stand_highest_first(n: u32)
    ensures
        be_bytes(n).len() == 4,
        n == be_bytes(n)[0] * 0x100_0000 + be_bytes(n)[1] * 0x1_0000 + be_bytes(n)[2] * 0x100
            + be_bytes(n)[3],
{
    let a = n / 0x100_0000;
    let b = n / 0x1_0000 % 256;
    let c = n / 256 % 256;
    let d = n % 256;
    assert(n == a * 0x100_0000 + b * 0x1_0000 + c * 0x100 + d && a < 256) by (bit_vector)
        requires
            a == n / 0x100_0000,
            b == n / 0x1_0000 % 256,
            c == n / 256 % 256,
            d == n % 256,
    ;
}

/// A frame announces the length of what it carries in its first four bytes.
pub proof fn frames_carry_their_payload(payload: &Vec<u8>)
    ensures
        forall|r: Result<Vec<u8>, String>| #[trigger]
            call_ensures(encode_msgpack, (payload,), r) ==> (r is Ok <==> payload@.len()
                <= u32::MAX) && (r matches Ok(frame) ==> frame@.len() == payload@.len() + 4
                && frame@.subrange(4, frame@.len() as int) == payload@ && frame@[0] * 0x100_0000
                + frame@[1] * 0x1_0000 + frame@[2] * 0x100 + frame@[3] == payload@.len()),
{
    assert forall|r: Result<Vec<u8>, String>| #[trigger]
        call_ensures(encode_msgpack, (payload,), r) && r is Ok implies r->Ok_0@.len()
        == payload@.len() + 4 && r->Ok_0@.subrange(4, r->Ok_0@.len() as int) == payload@
        && r->Ok_0@[0] * 0x100_0000 + r->Ok_0@[1] * 0x1_0000 + r->Ok_0@[2] * 0x100 + r->Ok_0@[3]
        == payload@.len() by {
        let n = payload@.len() as u32;
        bytes_stand_highest_first(n);
        assert(r->Ok_0@ == be_bytes(n) + payload@);
        assert(r->Ok_0@.subrange(4, r->Ok_0@.len() as int) =~= payload@);
    }
}

/// A session that ends after a time is stopped then. An outage loses everything
/// from its start to its end, when the rule is as it was.
pub proof fn sessions_follow_their_schedule(
    rule: &RuleSpec,
    time: Duration,
    window: OutageWindow,
)
    requires
        window.after.nanos + window.duration.nanos <= u128::MAX,
    ensures
        forall|r: Vec<Scheduled>| #[trigger]
            call_ensures(schedule, (rule, None::<Duration>, None::<OutageWindow>), r) ==> r@.len()
                == 0,
        forall|r: Vec<Scheduled>| #[trigger]
            call_ensures(schedule, (rule, Some(time), None::<OutageWindow>), r) ==> r@.len() == 1
                && r@[0].at == time && r@[0].command == ControlCommand::Stop,
        forall|r: Vec<Scheduled>| #[trigger]
            call_ensures(schedule, (rule, Some(time), Some(window)), r) ==> r@.len() == 3
                && r@[0].at == time && r@[0].command == ControlCommand::Stop && loses_all(
                r@[1],
                window.after.nanos as int,
                *rule,
            ) && brings_back(r@[2], window.after.nanos + window.duration.nanos, *rule),
        forall|r: Vec<Scheduled>| #[trigger]
            call_ensures(schedule, (rule, None::<Duration>, Some(window)), r) ==> r@.len() == 2
                && loses_all(r@[0], window.after.nanos as int, *rule) && brings_back(
                r@[1],
                window.after.nanos + window.duration.nanos,
                *rule,
            ),
{
}

/// Whether a command replaces a rule by one that loses every packet, at a time.
pub open spec fn loses_all(scheduled: Scheduled, at: int, rule: RuleSpec) -> bool {
    &&& scheduled.at.nanos == at
    &&& scheduled.command matches ControlCommand::ReplaceRules(rules)
    &&& rules@.len() == 1
    &&& rules@[0].drop_permyriad == 10_000
    &&& rules@[0].loss_algorithm == 0
    &&& rules@[0].destination == rule.destination && rules@[0].source == rule.source
    &&& rules@[0].id == rule.id && rules@[0].protocol == rule.protocol
    &&& rules@[0].destination_port == rule.destination_port
}

/// Whether a command puts a rule back in force, at a time.
pub open spec fn brings_back(scheduled: Scheduled, at: int, rule: RuleSpec) -> bool {
    &&& scheduled.at.nanos == at
    &&& scheduled.command matches ControlCommand::ReplaceRules(rules)
    &&& rules@.len() == 1
    &&& rules@[0] == rule
}

/// A ping and a question for the state are answered at once, with the number of
/// the request and the rules in force; rules and a stop go to the control loop.
pub proof fn requests_are_served(state: &ControlState, id: u64, rules: Vec<RuleSpec>)
    ensures
        forall|r: Serving| #[trigger]
            call_ensures(serve_request, (Request::Ping { id }, state), r) ==> r == Serving::Reply(
                Response::Pong { id },
            ),
        forall|r: Serving| #[trigger]
            call_ensures(serve_request, (Request::GetState { id }, state), r) ==> (r matches
                Serving::Reply(Response::State { id: answered, state: shown }) && answered == id
                && shown.rules@ == state.rules@),
        forall|r: Serving| #[trigger]
            call_ensures(serve_request, (Request::ReplaceRules { id, rules }, state), r) ==> (
            r matches Serving::Submit(ControlCommand::ReplaceRules(given), pending) && given@
                == rules@ && pending.id == id && !pending.stopping),
        forall|r: Serving| #[trigger]
            call_ensures(serve_request, (Request::Stop { id }, state), r) ==> (r matches
                Serving::Submit(ControlCommand::Stop, pending) && pending.id == id
                && pending.stopping),
        forall|r: ControlCommand| #[trigger]
            call_ensures(initial_command, (rules,), r) ==> (r matches
                ControlCommand::ReplaceRules(given) && given@ == rules@),
{
}

/// What the control loop did is answered with the number of the request: the
/// rules in force, that it stops, or what went wrong.
pub proof fn replies_are_passed_on(pending: &Pending, state: ControlState, message: String)
    ensures
        forall|r: Response| #[trigger]
            call_ensures(serve_reply, (pending, LoopReply::Done(state)), r) ==> if pending.stopping {
                r == (Response::Stopping { id: pending.id })
            } else {
                r == (Response::Applied { id: pending.id, state })
            },
        forall|r: Response| #[trigger]
            call_ensures(serve_reply, (pending, LoopReply::Refused(message)), r) ==> (r matches
                Response::Error { id, message: told } && id == Some(pending.id) && told@
                == message@),
        forall|r: Response| #[trigger]
            call_ensures(serve_reply, (pending, LoopReply::TimedOut), r) ==> (r matches
                Response::Error { id, message: told } && id == Some(pending.id) && told@
                == "control loop response timed out"@),
{
}

/// A control path is claimed where nothing stands, or a socket that nobody
/// listens on, which is removed; anything else is left alone.
pub proof fn paths_are_claimed_when_free(path: &str)
    ensures
        forall|r: Result<bool, String>| #[trigger]
            call_ensures(claim_path, (path, PathState::Absent), r) ==> r == Ok::<bool, String>(
                false,
            ),
        forall|r: Result<bool, String>| #[trigger]
            call_ensures(claim_path, (path, PathState::Stale), r) ==> r == Ok::<bool, String>(true),
        forall|r: Result<bool, String>| #[trigger]
            call_ensures(claim_path, (path, PathState::Active), r) ==> r is Err,
        forall|r: Result<bool, String>| #[trigger]
            call_ensures(claim_path, (path, PathState::Occupied), r) ==> r is Err,
{
}

/// Whether a listing shows nothing but white bytes.
pub open spec fn shows_nothing(output: Seq<u8>) -> bool {
    forall|i: int|
        0 <= i < output.len() ==> seq![32u8, 9, 10, 12, 13].contains(#[trigger] output[i])
}

proof fn white_bytes_are_known(byte: u8)
    ensures
        crate::attachment::ascii_blank(byte) <==> seq![32u8, 9, 10, 12, 13].contains(byte),
{
    let white = seq![32u8, 9, 10, 12, 13];
    assert(white[0] == 32 && white[1] == 9 && white[2] == 10 && white[3] == 12 && white[4] == 13);
}

/// A qdisc that the session added is its own, and one that was there is not. It
/// is taken away exactly when both directions were listed and show nothing.
pub proof fn qdiscs_are_taken_away_when_empty(
    interface: &str,
    cause: String,
    ingress: &Listing,
    egress: &Listing,
)
    ensures
        forall|r: Result<Option<ClsactGuard>, String>| #[trigger]
            call_ensures(ClsactGuard::install, (interface, AddOutcome::Added), r) ==> (r matches
                Ok(Some(guard)) && guard.interface@ == interface@),
        forall|r: Result<Option<ClsactGuard>, String>| #[trigger]
            call_ensures(ClsactGuard::install, (interface, AddOutcome::Exists), r) ==> (r matches
                Ok(None)),
        forall|r: Result<Option<ClsactGuard>, String>| #[trigger]
            call_ensures(ClsactGuard::install, (interface, AddOutcome::Failed(cause)), r) ==> r
                is Err,
        forall|r: Removal| #[trigger]
            call_ensures(decide_removal, (ingress, egress), r) ==> {
                &&& r == Removal::Remove <==> ingress.success && egress.success && shows_nothing(
                    ingress.stdout@,
                ) && shows_nothing(egress.stdout@)
                &&& ingress.success && !shows_nothing(ingress.stdout@) ==> r
                    == Removal::OthersRemain
                &&& !ingress.success ==> r == Removal::Unknown
                &&& ingress.success && shows_nothing(ingress.stdout@) && !egress.success ==> r
                    == Removal::Unknown
            },
{
    assert forall|byte: u8| crate::attachment::ascii_blank(byte) <==> seq![
        32u8,
        9,
        10,
        12,
        13,
    ].contains(byte) by {
        white_bytes_are_known(byte);
    }
}

/// Filters are listed for one direction of an interface, and the qdisc is taken
/// off its interface.
pub proof fn filters_are_listed_by_direction(
    guard: &ClsactGuard,
    interface: &str,
    direction: &str,
)
    ensures
        forall|r: Vec<String>| #[trigger]
            call_ensures(filter_args, (interface, direction), r) ==> texts(r@).len() == 5 && texts(
                r@,
            )[0] == "filter"@ && texts(r@)[1] == "show"@ && texts(r@)[2] == "dev"@ && texts(r@)[3]
                == interface@ && texts(r@)[4] == direction@,
        forall|r: Vec<String>| #[trigger]
            call_ensures(ClsactGuard::remove_args, (guard,), r) ==> texts(r@).len() == 5 && texts(
                r@,
            )[0] == "qdisc"@ && texts(r@)[1] == "del"@ && texts(r@)[2] == "dev"@ && texts(r@)[3]
                == guard.interface@ && texts(r@)[4] == "clsact"@,
{
}

/// Losses are shares of what was matched, in packets, segments and bytes, over
/// all time and over the last interval.
pub proof fn losses_are_shares_of_what_was_matched(snapshot: &StatsSnapshot, value: u64)
    ensures
        forall|r: Share| #[trigger]
            call_ensures(StatsSnapshot::loss_percent, (snapshot,), r) ==> r.part == snapshot.dropped
                && r.total == snapshot.matched,
        forall|r: Share| #[trigger]
            call_ensures(StatsSnapshot::skb_loss_percent, (snapshot,), r) ==> r.part
                == snapshot.dropped && r.total == snapshot.matched,
        forall|r: Share| #[trigger]
            call_ensures(StatsSnapshot::segment_loss_percent, (snapshot,), r) ==> r.part
                == snapshot.dropped_segments && r.total == snapshot.matched_segments,
        forall|r: Share| #[trigger]
            call_ensures(StatsSnapshot::byte_loss_percent, (snapshot,), r) ==> r.part
                == snapshot.dropped_bytes && r.total == snapshot.matched_bytes,
        forall|r: Share| #[trigger]
            call_ensures(StatsSnapshot::skb_loss_interval_percent, (snapshot,), r) ==> r.part
                == snapshot.dropped_delta && r.total == snapshot.matched_delta,
        forall|r: Share| #[trigger]
            call_ensures(StatsSnapshot::segment_loss_interval_percent, (snapshot,), r) ==> r.part
                == snapshot.dropped_segments_delta && r.total == snapshot.matched_segments_delta,
        forall|r: Share| #[trigger]
            call_ensures(StatsSnapshot::byte_loss_interval_percent, (snapshot,), r) ==> r.part
                == snapshot.dropped_bytes_delta && r.total == snapshot.matched_bytes_delta,
        forall|r: Rate| #[trigger]
            call_ensures(StatsSnapshot::per_second, (snapshot, value), r) ==> r.amount == value
                && r.interval_ms == snapshot.interval_ms,
{
}

} // verus!
