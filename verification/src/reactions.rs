//! Laws of what changes with time: what each step does to what is kept, and
//! what it leaves alone.

use vstd::prelude::*;
use crate::classifier::{update_stats, PacketMarks};
use crate::common::RuleStats;
use crate::console::{App, KeyEffect};
use crate::control::ControlPlane;
use crate::driver::{ApplyEvent, TimelineDriver};
use crate::duration::Duration;
use crate::observed::{ObservedRun, RunStep};
use crate::playback::{play_step, PlayStep};
use crate::protocol::{Request, RuleSpec};
use crate::recorder::ObservationRecorder;
use crate::rule_store::Generation;
use crate::stats::{StatsReporter, StatsSnapshot};
use crate::text::digits;
use crate::traffic::TrafficStatus;

verus! {

/// An attempt is counted once, by whether it succeeded. The last error is the
/// reason why a command could not be run, and stays until there is another.
pub proof fn attempts_are_counted(result: Result<bool, String>)
    ensures
        forall|status: &mut TrafficStatus, r: ()| #[trigger]
            call_ensures(TrafficStatus::record, (status, result), r) ==> {
                let before = *status;
                let after = *final(status);
                &&& after.attempts == before.attempts + 1
                &&& result == Ok::<bool, String>(true) ==> after.succeeded == before.succeeded + 1
                &&& result != Ok::<bool, String>(true) ==> after.succeeded == before.succeeded
                &&& after.attempts == after.succeeded + after.failed
                &&& result is Ok ==> after.last_error == before.last_error
                &&& result matches Err(message) ==> after.last_error == Some(message)
            },
{
}

/// A request bears the next number, which no other one bears, and asks for what
/// the key did: the state, the given rules or a stop.
pub proof fn requests_bear_the_next_number(rules: Vec<RuleSpec>)
    ensures
        forall|app: &mut App, r: Option<Request>| #[trigger]
            call_ensures(App::request, (app, KeyEffect::GetState, rules), r) ==> r == Some(
                Request::GetState { id: (*app).next_id },
            ) && (*final(app)).next_id == (*app).next_id + 1,
        forall|app: &mut App, r: Option<Request>| #[trigger]
            call_ensures(App::request, (app, KeyEffect::ReplaceRules, rules), r) ==> r == Some(
                Request::ReplaceRules { id: (*app).next_id, rules },
            ) && (*final(app)).next_id == (*app).next_id + 1,
        forall|app: &mut App, r: Option<Request>| #[trigger]
            call_ensures(App::request, (app, KeyEffect::Stop, rules), r) ==> r == Some(
                Request::Stop { id: (*app).next_id },
            ) && (*final(app)).next_id == (*app).next_id + 1,
        forall|app: &mut App, r: Option<Request>| #[trigger]
            call_ensures(App::request, (app, KeyEffect::Nothing, rules), r) ==> r is None,
        forall|app: &mut App, r: Option<Request>| #[trigger]
            call_ensures(App::request, (app, KeyEffect::Quit, rules), r) ==> r is None,
{
    assert forall|app: &mut App, r: Option<Request>, effect: KeyEffect| #[trigger]
        call_ensures(App::request, (app, effect, rules), r) implies (*final(app)).next_id
        == (*app).next_id + 1 by {
        assert((*final(app))@.next_id == (*app)@.next_id + 1);
    }
}

/// What was asked for is shown as pending, by its name and number.
pub proof fn sent_requests_are_shown(id: u64)
    ensures
        forall|app: &mut App, r: ()| #[trigger]
            call_ensures(App::sent, (app, KeyEffect::Stop, id), r) ==> (*final(app)).status@
                == "stop"@ + " #"@ + digits(id as nat) + " pending"@,
        forall|app: &mut App, r: ()| #[trigger]
            call_ensures(App::sent, (app, KeyEffect::ReplaceRules, id), r) ==> (*final(app)).status@
                == "replace_rules"@ + " #"@ + digits(id as nat) + " pending"@,
        forall|app: &mut App, r: ()| #[trigger]
            call_ensures(App::sent, (app, KeyEffect::GetState, id), r) ==> (*final(app)).status@
                == "get_state"@ + " #"@ + digits(id as nat) + " pending"@,
{
    assert forall|app: &mut App, effect: KeyEffect, r: ()| #[trigger]
        call_ensures(App::sent, (app, effect, id), r) implies (*final(app)).status@
        == crate::console::request_name(effect) + " #"@ + digits(id as nat) + " pending"@ by {
        assert((*final(app))@.status == (*final(app)).status@);
    }
}

/// A packet is counted in the statistics of its rule once, with its segments
/// and bytes, and as lost where it was marked so.
pub proof fn counters_move_with_packets(segments: u32, bytes: u32, marks: &PacketMarks)
    ensures
        forall|stats: &mut RuleStats, r: ()| #[trigger]
            call_ensures(update_stats, (stats, segments, bytes, marks), r) ==> {
                let before = *stats;
                let after = *final(stats);
                &&& before.matched < u64::MAX ==> after.matched == before.matched + 1
                &&& before.matched_segments + segments <= u64::MAX ==> after.matched_segments
                    == before.matched_segments + segments
                &&& before.matched_bytes + bytes <= u64::MAX ==> after.matched_bytes
                    == before.matched_bytes + bytes
                &&& marks.dropped && before.dropped < u64::MAX ==> after.dropped == before.dropped
                    + 1
                &&& marks.dropped && before.dropped_bytes + bytes <= u64::MAX
                    ==> after.dropped_bytes == before.dropped_bytes + bytes
                &&& !marks.dropped ==> after.dropped == before.dropped && after.dropped_bytes
                    == before.dropped_bytes && after.dropped_segments == before.dropped_segments
                &&& !marks.duplicated ==> after.duplicated == before.duplicated
                &&& !marks.reordered ==> after.reordered == before.reordered
                &&& !marks.delayed ==> after.delayed == before.delayed
                &&& !marks.pacing_dropped ==> after.pacing_dropped == before.pacing_dropped
                &&& marks.duplicated && before.duplicated < u64::MAX ==> after.duplicated
                    == before.duplicated + 1
                &&& marks.reordered && before.reordered < u64::MAX ==> after.reordered
                    == before.reordered + 1
                &&& marks.delayed && before.delayed < u64::MAX ==> after.delayed == before.delayed
                    + 1
                &&& marks.pacing_dropped && before.pacing_dropped < u64::MAX
                    ==> after.pacing_dropped == before.pacing_dropped + 1
            },
{
}

/// A driver hands an event out once its time is there, with its number, place,
/// time and rules as the timeline has them, and keeps the timeline.
pub proof fn drivers_hand_out_their_events<'a>(elapsed: Duration)
    ensures
        forall|driver: &mut TimelineDriver<'a>, r: Option<ApplyEvent>|
            (*driver).progress().wf() && #[trigger] call_ensures(
                TimelineDriver::<'a>::next_at,
                (driver, elapsed),
                r,
            ) ==> {
                let before = (*driver).progress();
                &&& (*final(driver)).events() == (*driver).events()
                &&& r is Some <==> before.pending is None && before.next < before.times.len()
                    && elapsed.nanos >= before.times[before.next] * 1_000_000
                &&& r matches Some(event) ==> {
                    &&& event.index == before.next
                    &&& event.id == before.next + 1
                    &&& event.at_ms == (*driver).events()[before.next].at_ms
                    &&& event.rules@ == (*driver).events()[before.next].rules@
                }
            },
{
}

/// An answer that bears the awaited number names its event; one that bears
/// another is refused; with nothing awaited it is passed over.
pub proof fn drivers_take_their_answers<'a>(id: u64)
    ensures
        forall|driver: &mut TimelineDriver<'a>, r: Result<Option<usize>, String>|
            (*driver).progress().wf() && #[trigger] call_ensures(
                TimelineDriver::<'a>::acknowledge,
                (driver, id),
                r,
            ) ==> match (*driver).progress().pending {
                None => r == Ok::<Option<usize>, String>(None) && (*final(driver)).progress()
                    == (*driver).progress(),
                Some((number, index)) => {
                    &&& r is Ok <==> id == number
                    &&& r matches Ok(named) ==> (named matches Some(place) && place == index)
                        && (*final(driver)).progress().pending is None
                    &&& r is Err ==> (*final(driver)).progress() == (*driver).progress()
                },
            },
{
}

/// An event that was sent is awaited from then on, with its place, its time,
/// when it was asked for and its rules; what was observed stays.
pub proof fn sent_events_are_awaited(event: &ApplyEvent, elapsed: Duration, sent_at: Duration)
    ensures
        forall|recorder: &mut ObservationRecorder, r: ()| #[trigger]
            call_ensures(ObservationRecorder::requested, (recorder, event, elapsed, sent_at), r)
                ==> {
                let before = *recorder;
                let after = *final(recorder);
                &&& after.pending matches Some(pending)
                &&& pending.event_index == event.index
                &&& pending.scheduled_at_ms == event.at_ms
                &&& pending.rules@ == event.rules@
                &&& pending.sent_at == sent_at
                &&& elapsed.nanos / 1_000_000 <= u64::MAX ==> pending.requested_at_ms
                    == elapsed.nanos / 1_000_000
                &&& after.applied_events == before.applied_events
                &&& after.rule_observations == before.rule_observations
                &&& after.selection_diagnostics == before.selection_diagnostics
                &&& after.active_rules == before.active_rules
            },
{
}

/// An answer ends what was awaited, and its rules are in force from then on;
/// with nothing awaited nothing changes.
pub proof fn answered_events_are_in_force(index: usize, elapsed: Duration)
    ensures
        forall|recorder: &mut ObservationRecorder, r: ()| #[trigger]
            call_ensures(ObservationRecorder::applied, (recorder, index, elapsed), r) ==> {
                let before = *recorder;
                let after = *final(recorder);
                &&& after.pending is None
                &&& after.rule_observations == before.rule_observations
                &&& before.pending is None ==> after == before
                &&& before.pending matches Some(pending) ==> {
                    &&& after.active_event_index == Some(pending.event_index)
                    &&& after.active_rules@ == pending.rules@
                    &&& after.applied_events@.len() == before.applied_events@.len() + 1
                }
            },
{
}

/// A report tells what a rule came to since the last one of the same rule, and
/// is remembered for the next; other rules keep theirs.
pub proof fn reports_follow_each_other(rule_id: u32, total: RuleStats, elapsed_ms: u64)
    ensures
        forall|reporter: &mut StatsReporter, r: StatsSnapshot| #[trigger]
            call_ensures(StatsReporter::snapshot, (reporter, rule_id, total, elapsed_ms), r) ==> {
                let before = (*reporter).previous@;
                let after = (*final(reporter)).previous@;
                &&& r.rule_id == rule_id && r.elapsed_ms == elapsed_ms
                &&& r.matched == total.matched && r.dropped == total.dropped
                &&& after.dom().contains(rule_id)
                &&& after[rule_id].total == total && after[rule_id].elapsed_ms == elapsed_ms
                &&& forall|other: u32| other != rule_id && #[trigger] before.dom().contains(other)
                    ==> after.dom().contains(other) && after[other] == before[other]
                &&& !before.dom().contains(rule_id) ==> r.matched_delta == total.matched
                    && r.interval_ms == elapsed_ms
                &&& before.dom().contains(rule_id) && before[rule_id].total.matched
                    <= total.matched ==> r.matched_delta == total.matched
                    - before[rule_id].total.matched
                &&& before.dom().contains(rule_id) && before[rule_id].elapsed_ms <= elapsed_ms
                    ==> r.interval_ms == elapsed_ms - before[rule_id].elapsed_ms
            },
{
}

/// Rules that were published are those in force, in their generation.
pub proof fn published_rules_are_in_force(rules: Vec<RuleSpec>, generation: Generation)
    ensures
        forall|plane: &mut ControlPlane, r: ()| #[trigger]
            call_ensures(ControlPlane::published, (plane, rules, generation), r) ==> {
                &&& (*final(plane)).active_rules@ == rules@
                &&& (*final(plane)).store.current() == generation.number
                &&& (*final(plane)).store.active() == generation.rule_ids@
                &&& (*final(plane)).direction == (*plane).direction
            },
{
}

/// A watched run is given up where an answer has not come in its time. It ends
/// once its timeline is over, when it is told to, or when its snapshot is due
/// and nothing is awaited; until then it goes on.
pub proof fn watched_runs_end_in_time<'a>(
    run: &ObservedRun<'a>,
    elapsed: Duration,
    now: Duration,
    timeout: Duration,
    cancelled: bool,
)
    ensures
        forall|r: RunStep| #[trigger]
            call_ensures(ObservedRun::<'a>::step, (run, elapsed, now, timeout, cancelled), r) ==> {
                let waited = run.recorder().pending;
                let late = waited is Some && now.nanos >= waited->0.sent_at.nanos + timeout.nanos;
                let shown = run.snapshot() is Some && elapsed.nanos >= run.snapshot()->0
                    * 1_000_000 && waited is None;
                &&& r == RunStep::TimedOut <==> late
                &&& r == RunStep::Finished <==> !late && (run.progress().complete(elapsed)
                    || cancelled || shown)
                &&& r == RunStep::Continue <==> !late && !run.progress().complete(elapsed)
                    && !cancelled && !shown
            },
{
}

/// A timeline that is played hands its events out in their time, and is over
/// once nothing is due and all of it was done.
pub proof fn played_timelines_end_when_done<'a>(elapsed: Duration)
    ensures
        forall|driver: &mut TimelineDriver<'a>, r: PlayStep|
            (*driver).progress().wf() && #[trigger] call_ensures(
                play_step,
                (driver, elapsed),
                r,
            ) ==> {
                let before = (*driver).progress();
                let due = before.pending is None && before.next < before.times.len()
                    && elapsed.nanos >= before.times[before.next] * 1_000_000;
                &&& r is Apply <==> due
                &&& r == PlayStep::Finished <==> !due && before.complete(elapsed)
                &&& r == PlayStep::Wait <==> !due && !before.complete(elapsed)
            },
{
}

} // verus!
