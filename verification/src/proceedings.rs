//! Laws of a run: when its events come, what is recorded of them, and what the
//! answers on its control channel mean.

use vstd::prelude::*;
use crate::driver::{
    can_generate, follows, rule_impairs, starts_traffic, status_shown, traffic_fault, Progress,
    TrafficPlan,
};
use crate::driver::Generator;
use crate::duration::Duration;
use crate::json::{json_elements, json_string, json_text, json_unsigned, json_with};
use crate::observed::{agent_error, applied_request, impaired, phase_of, snapshot_moment};
use crate::playback::{changed_rules, message_of, Message};
use crate::protocol::RuleSpec;
use crate::recorder::{
    millis_of, noted, observed, rule_numbered, seen_since, sighting, ObservationRecorder,
    PendingObservation, Sighting,
};
use crate::text::digits;
use crate::traffic::{inside, traffic_call, TrafficStatus};

verus! {

/// An event comes once its millisecond is there and nothing awaits an answer;
/// it is then the one that awaits one, under the number after its own, and the
/// next one is up. Until then nothing moves.
pub proof fn events_come_in_their_time(progress: Progress, elapsed: Duration)
    requires
        progress.wf(),
        progress.times.len() < u64::MAX,
    ensures
        progress.due(elapsed) <==> progress.pending is None && progress.next
            < progress.times.len() && elapsed.nanos as int >= progress.times[progress.next] as int
            * 1_000_000,
        ({
            let after = progress.after_time(elapsed);
            &&& after.times == progress.times
            &&& after.duration_ms == progress.duration_ms
            &&& progress.due(elapsed) ==> {
                &&& after.next == progress.next + 1
                &&& after.pending matches Some((id, index))
                &&& index == progress.next
                &&& id as int == progress.next + 1
            }
            &&& !progress.due(elapsed) ==> after == progress
        }),
{
}

/// An answer is taken where it bears the number that awaits one, and frees the
/// way for the next event; any other answer changes nothing.
pub proof fn answers_free_the_way(progress: Progress, id: u64, number: u64, index: int)
    ensures
        progress.pending == Some((number, index)) ==> {
            &&& progress.answered_by(id) <==> id == number
            &&& id == number ==> progress.after_acknowledgement(id) == (Progress {
                pending: None,
                ..progress
            })
            &&& id != number ==> progress.after_acknowledgement(id) == progress
        },
        progress.pending is None ==> !progress.answered_by(id) && progress.after_acknowledgement(id)
            == progress,
{
}

/// A run is over exactly when its whole time has passed, every event was handed
/// out and nothing awaits an answer.
pub proof fn runs_end_when_all_is_done(progress: Progress, elapsed: Duration)
    requires
        progress.wf(),
    ensures
        progress.complete(elapsed) <==> elapsed.nanos as int >= progress.duration_ms as int
            * 1_000_000 && progress.next >= progress.times.len() && progress.pending is None,
{
}

/// Traffic starts with the answer to the first event alone, where it was
/// planned and is sound. It follows its plan: the command that it was given,
/// inside the workload, each time after its interval.
pub proof fn traffic_follows_its_plan(
    progress: Progress,
    plan: TrafficPlan,
    id: u64,
    generator: Generator,
)
    ensures
        plan is None ==> !starts_traffic(progress, plan, id) && traffic_fault(plan) is None
            && !can_generate(plan),
        plan matches Some((attach, traffic)) ==> {
            &&& traffic_fault(plan) == traffic.error()
            &&& can_generate(plan) <==> traffic.error() is None
            &&& starts_traffic(progress, plan, id) <==> {
                &&& progress.pending matches Some((number, index))
                &&& number == id
                &&& index == 0
                &&& traffic.error() is None
            }
            &&& follows(generator, plan) <==> {
                &&& generator.invocation@ == inside(attach, traffic_call(traffic))
                &&& generator.interval_ms == traffic.interval()
            }
        },
{
}

/// What traffic has done is shown once it runs; before, or with nothing known,
/// zeros stand there.
pub proof fn traffic_is_shown_once_it_runs(runs: bool, status: Option<TrafficStatus>)
    ensures
        runs && status is Some ==> status_shown(runs, status) == status->0,
        !runs || status is None ==> {
            let shown = status_shown(runs, status);
            shown.attempts == 0 && shown.succeeded == 0 && shown.failed == 0 && shown.last_error
                is None
        },
{
}

/// A rule impairs exactly when it loses, doubles, swaps or holds up packets or
/// bounds how many go through. A loss in bursts counts where the rule loses in
/// bursts and either state loses anything.
pub proof fn rules_impair_by_any_fault(rule: RuleSpec)
    ensures
        rule.drop_permyriad > 0 ==> rule_impairs(rule),
        rule.duplicate_permyriad > 0 ==> rule_impairs(rule),
        rule.reorder_permyriad > 0 ==> rule_impairs(rule),
        rule.delay_ns > 0 ==> rule_impairs(rule),
        rule.jitter_ns > 0 ==> rule_impairs(rule),
        rule.bandwidth_bps > 0 ==> rule_impairs(rule),
        rule.loss_algorithm == 2 && rule.ge_good_loss_permyriad > 0 ==> rule_impairs(rule),
        rule.loss_algorithm == 2 && rule.ge_bad_loss_permyriad > 0 ==> rule_impairs(rule),
        rule_impairs(rule) && rule.drop_permyriad == 0 && rule.duplicate_permyriad == 0
            && rule.reorder_permyriad == 0 && rule.delay_ns == 0 && rule.jitter_ns == 0
            && rule.bandwidth_bps == 0 ==> rule.loss_algorithm == 2 && rule.ge_good_loss_permyriad
            + rule.ge_bad_loss_permyriad > 0,
{
}

/// A run shows that it impairs while any of the rules in force does. Rules that
/// leave everything alone connect with the first event and observe after it.
pub proof fn phases_follow_the_rules(rules: Seq<RuleSpec>, index: int, i: int)
    ensures
        0 <= i < rules.len() && rule_impairs(rules[i]) ==> phase_of(impaired(rules), index)
            == "Impair"@,
        (forall|k: int| 0 <= k < rules.len() ==> !rule_impairs(#[trigger] rules[k])) && index == 0
            ==> phase_of(impaired(rules), index) == "Connect"@,
        (forall|k: int| 0 <= k < rules.len() ==> !rule_impairs(#[trigger] rules[k])) && index > 0
            ==> phase_of(impaired(rules), index) == "Observe"@,
{
}

/// A time is told in the whole milliseconds that have passed.
pub proof fn milliseconds_are_whole(duration: Duration)
    ensures
        duration.nanos < (u64::MAX as int + 1) * 1_000_000 ==> {
            &&& millis_of(duration) as int * 1_000_000 <= duration.nanos
            &&& duration.nanos < (millis_of(duration) as int + 1) * 1_000_000
        },
        duration.nanos >= (u64::MAX as int + 1) * 1_000_000 ==> millis_of(duration) == u64::MAX,
{
}

/// A snapshot is taken when it was asked for, and at the end of the run where
/// that comes before.
pub proof fn snapshots_come_within_the_run(moment: u64, duration_ms: u64)
    ensures
        snapshot_moment(None, duration_ms) is None,
        snapshot_moment(Some(moment), duration_ms) matches Some(taken) && taken <= moment && taken
            <= duration_ms && (taken == moment || taken == duration_ms),
{
}

/// A line is a sighting of a rule where it is one of counters and names the
/// rule, and one of misses where it says so. Every other line is none.
pub proof fn lines_are_sighted_for_what_they_are(line: Seq<char>, text: Seq<char>, id: u32)
    ensures
        sighting(line) == Sighting::Rule(id, text) <==> json_text(line) == Ok::<
            Seq<char>,
            Seq<char>,
        >(text) && json_string(line, "type"@) == Some("stats"@) && json_unsigned(line, "rule_id"@)
            == Some(id as u64),
        sighting(line) == Sighting::Misses(text) <==> json_text(line) == Ok::<Seq<char>, Seq<char>>(
            text,
        ) && json_string(line, "type"@) == Some("diagnostics"@),
{
    reveal_strlit("stats");
    reveal_strlit("diagnostics");
    assert("stats"@.len() == 5 && "diagnostics"@.len() == 11);
}

/// An observation of a rule goes behind those before it. It says when it was
/// made, while which event was in force and how the rule stood then, and it may
/// span a change where it is the rule's first one since, or before any event.
pub proof fn observations_tell_what_was_in_force(
    after: ObservationRecorder,
    before: ObservationRecorder,
    line: Seq<char>,
    text: Seq<char>,
    id: u32,
    elapsed: Duration,
    place: int,
)
    requires
        noted(after, before, line, elapsed),
        json_text(line) == Ok::<Seq<char>, Seq<char>>(text),
        json_string(line, "type"@) == Some("stats"@),
        json_unsigned(line, "rule_id"@) == Some(id as u64),
    ensures
        after.rule_observations@.len() == before.rule_observations@.len() + 1,
        forall|i: int|
            0 <= i < before.rule_observations@.len() ==> #[trigger] after.rule_observations@[i]
                == before.rule_observations@[i],
        ({
            let last = after.rule_observations@[before.rule_observations@.len() as int];
            &&& last.stats@ == text
            &&& last.observed_at_ms == millis_of(elapsed)
            &&& last.active_event_index == before.active_event_index
            &&& before.active_event_index is None ==> last.interval_may_span_rule_change
            &&& before.active_event_index is Some ==> (last.interval_may_span_rule_change
                <==> !before.observed_since_apply@.contains(id))
            &&& last.configured_rule is None ==> forall|i: int|
                0 <= i < before.active_rules@.len() ==> (#[trigger] before.active_rules@[i]).id
                    != id
            &&& last.configured_rule matches Some(rule) ==> rule.id == id
                && before.active_rules@.contains(rule)
        }),
        before.active_event_index is Some ==> seen_since(before, line).contains(id),
        before.observed_since_apply@.contains(id) ==> seen_since(before, line)
            == before.observed_since_apply@,
        after.selection_diagnostics == before.selection_diagnostics,
        after.final_diagnostics == before.final_diagnostics,
{
    lines_are_sighted_for_what_they_are(line, text, id);
    let old_list = before.rule_observations@;
    let new_list = after.rule_observations@;
    assert(new_list.drop_last() == old_list);
    assert forall|i: int| 0 <= i < old_list.len() implies #[trigger] new_list[i]
        == old_list[i] by {
        assert(new_list.drop_last()[i] == new_list[i]);
    }
    numbered_rules_are_found(before.active_rules@, id, 0);
    let seen = before.observed_since_apply@;
    if before.active_event_index is Some && !seen.contains(id) {
        assert(seen.push(id)[seen.len() as int] == id);
    }
}

/// A rule is found by its number, the first that bears it, or none does.
pub proof fn numbered_rules_are_found(rules: Seq<RuleSpec>, id: u32, from: int)
    requires
        0 <= from <= rules.len(),
    ensures
        match rule_numbered(rules, id, from) {
            Some(rule) => rule.id == id && exists|i: int|
                from <= i < rules.len() && #[trigger] rules[i] == rule && (forall|k: int|
                    from <= k < i ==> (#[trigger] rules[k]).id != id),
            None => forall|i: int| from <= i < rules.len() ==> (#[trigger] rules[i]).id != id,
        },
    decreases rules.len() - from,
{
    if from < rules.len() {
        if rules[from].id == id {
            assert(rules[from] == rules[from]);
        } else {
            numbered_rules_are_found(rules, id, from + 1);
            if rule_numbered(rules, id, from) is Some {
                let i = choose|i: int|
                    from + 1 <= i < rules.len() && #[trigger] rules[i] == rule_numbered(
                        rules,
                        id,
                        from + 1,
                    )->0 && (forall|k: int| from + 1 <= k < i ==> (#[trigger] rules[k]).id != id);
                assert(rules[i] == rule_numbered(rules, id, from)->0);
            }
        }
    }
}

/// Misses are kept as they came, with their time and the event in force, and
/// the last ones are the final ones; the observations of rules stay.
pub proof fn misses_are_kept_in_order(
    after: ObservationRecorder,
    before: ObservationRecorder,
    line: Seq<char>,
    text: Seq<char>,
    elapsed: Duration,
)
    requires
        noted(after, before, line, elapsed),
        json_text(line) == Ok::<Seq<char>, Seq<char>>(text),
        json_string(line, "type"@) == Some("diagnostics"@),
    ensures
        after.selection_diagnostics@.len() == before.selection_diagnostics@.len() + 1,
        forall|i: int|
            0 <= i < before.selection_diagnostics@.len()
                ==> #[trigger] after.selection_diagnostics@[i] == before.selection_diagnostics@[i],
        ({
            let last = after.selection_diagnostics@[before.selection_diagnostics@.len() as int];
            &&& last.diagnostics@ == text
            &&& last.observed_at_ms == millis_of(elapsed)
            &&& last.active_event_index == before.active_event_index
        }),
        after.final_diagnostics matches Some(kept) && kept@ == text,
        after.rule_observations == before.rule_observations,
        after.final_rule_stats == before.final_rule_stats,
        seen_since(before, line) == before.observed_since_apply@,
{
    lines_are_sighted_for_what_they_are(line, text, 0);
    let old_list = before.selection_diagnostics@;
    let new_list = after.selection_diagnostics@;
    assert(new_list.drop_last() == old_list);
    assert forall|i: int| 0 <= i < old_list.len() implies #[trigger] new_list[i]
        == old_list[i] by {
        assert(new_list.drop_last()[i] == new_list[i]);
    }
}

/// A line that is neither of counters nor of misses leaves every observation
/// alone.
pub proof fn other_lines_are_not_observed(
    after: ObservationRecorder,
    before: ObservationRecorder,
    line: Seq<char>,
    elapsed: Duration,
)
    requires
        noted(after, before, line, elapsed),
        json_text(line) is Err || (json_string(line, "type"@) != Some("stats"@) && json_string(
            line,
            "type"@,
        ) != Some("diagnostics"@)),
    ensures
        after.rule_observations == before.rule_observations,
        after.selection_diagnostics == before.selection_diagnostics,
        after.final_rule_stats == before.final_rule_stats,
        after.final_diagnostics == before.final_diagnostics,
        seen_since(before, line) == before.observed_since_apply@,
{
}

/// What is recorded of an event that is acknowledged: its place, when it was
/// scheduled, asked for and applied, and the numbers of its rules, which are in
/// force from then on; no rule was observed under them yet.
pub proof fn applied_events_are_recorded(
    after: ObservationRecorder,
    before: ObservationRecorder,
    pending: PendingObservation,
    elapsed: Duration,
)
    requires
        after.activates(before, pending, elapsed),
    ensures
        after.active_event_index == Some(pending.event_index),
        after.active_rules@ == pending.rules@,
        forall|id: u32| !(#[trigger] after.observed_since_apply@.contains(id)),
        after.applied_events@.len() == before.applied_events@.len() + 1,
        forall|i: int|
            0 <= i < before.applied_events@.len() ==> #[trigger] after.applied_events@[i]
                == before.applied_events@[i],
        ({
            let last = after.applied_events@[before.applied_events@.len() as int];
            &&& last.event_index == pending.event_index
            &&& last.scheduled_at_ms == pending.scheduled_at_ms
            &&& last.requested_at_ms == pending.requested_at_ms
            &&& last.applied_at_ms == millis_of(elapsed)
            &&& last.rule_ids@.len() == pending.rules@.len()
            &&& forall|i: int|
                0 <= i < pending.rules@.len() ==> #[trigger] last.rule_ids@[i]
                    == pending.rules@[i].id
        }),
{
    let old_list = before.applied_events@;
    let new_list = after.applied_events@;
    assert(new_list.drop_last() == old_list);
    assert forall|i: int| 0 <= i < old_list.len() implies #[trigger] new_list[i]
        == old_list[i] by {
        assert(new_list.drop_last()[i] == new_list[i]);
    }
}

/// An answer to a request is one that bears its number and says that it was
/// applied or failed. A failure is told with the event's place and its message.
pub proof fn answers_bear_their_number(reply: Message, id: u64, index: nat, text: Seq<char>)
    ensures
        reply.answers(id) <==> reply.id == Some(id) && (reply.kind == Some("applied"@)
            || reply.kind == Some("error"@)),
        reply.kind != Some("error"@) ==> reply.event_error(index) is None,
        reply.kind == Some("error"@) && reply.message == Some(text) ==> reply.event_error(index)
            == Some("timeline event "@ + digits(index) + " failed: "@ + text),
        reply.kind == Some("error"@) && reply.message is None ==> reply.event_error(index) == Some(
            "timeline event "@ + digits(index) + " failed: "@ + "unknown error"@,
        ),
{
}

/// An answer is read from the members that it has under their names.
pub proof fn answers_are_read_by_name(line: Seq<char>, text: Seq<char>)
    ensures
        json_text(line) is Err ==> message_of(line) is Err,
        json_text(line) == Ok::<Seq<char>, Seq<char>>(text) ==> {
            &&& message_of(line) matches Ok(reply)
            &&& reply.id == json_unsigned(line, "id"@)
            &&& reply.kind == json_string(line, "type"@)
            &&& reply.message == json_string(line, "message"@)
            &&& reply.text == text
        },
{
}

/// A new loss is written into the first rule of the state that was told, and
/// every other rule stays; without a state or a rule there is nothing to write
/// to.
pub proof fn losses_change_the_first_rule(line: Seq<char>, rules: Seq<Seq<char>>, rate: u32)
    ensures
        json_text(line) is Ok && json_string(line, "type"@) == Some("state"@) && json_elements(
            line,
            "/state/rules"@,
        ) == Some(rules) && rules.len() > 0 ==> match json_with(
            rules[0],
            "drop_permyriad"@,
            rate as u64,
        ) {
            Some(first) => {
                &&& changed_rules(line, rate) matches Ok(changed)
                &&& changed.len() == rules.len()
                &&& changed[0] == first
                &&& forall|i: int| 0 < i < rules.len() ==> #[trigger] changed[i] == rules[i]
            },
            None => changed_rules(line, rate) is Err,
        },
        json_elements(line, "/state/rules"@) is None ==> changed_rules(line, rate) is Err,
        json_elements(line, "/state/rules"@) == Some(Seq::<Seq<char>>::empty()) ==> changed_rules(
            line,
            rate,
        ) is Err,
        json_string(line, "type"@) != Some("state"@) ==> changed_rules(line, rate) is Err,
{
}

/// While a run is watched, an error on the channel is told with its message,
/// and what was applied is known by its number.
pub proof fn watched_answers_are_told_apart(line: Seq<char>, text: Seq<char>, id: u64)
    ensures
        json_string(line, "type"@) == Some("error"@) && json_string(line, "message"@) == Some(text)
            ==> agent_error(line) == Some("timeline event failed: "@ + text),
        json_string(line, "type"@) == Some("error"@) && json_string(line, "message"@) is None
            ==> agent_error(line) == Some("timeline event failed: "@ + "unknown agent error"@),
        json_string(line, "type"@) != Some("error"@) ==> agent_error(line) is None,
        applied_request(line) == Some(id) <==> json_string(line, "type"@) == Some("applied"@)
            && json_unsigned(line, "id"@) == Some(id),
{
}

/// Times of each unit stand for their nanoseconds.
pub proof fn times_stand_for_nanoseconds(count: u64)
    ensures
        Duration::of_secs(count).nanos == count * 1_000_000_000,
        Duration::of_millis(count).nanos == count * 1_000_000,
        Duration::of_micros(count).nanos == count * 1_000,
{
}

} // verus!
