//! Laws of small decisions: that each can be asked for anything, and what its
//! answers come to.

use vstd::prelude::*;
use crate::agent::{
    after_attempt, awaits_engine, engine_result, is_disconnect, settle_proxy, socket_path, Attempt,
    ConnectStep, ProxyEnd, StreamError,
};
use crate::classifier::{
    counted_bytes, counted_segments, loss_marks, pace_key, Action, PacketMarks,
};
use crate::common::PaceKey;
use crate::container::asks_again;
use crate::control::{failed_command, Failure};
use crate::duration::Duration;
use crate::execution::ExperimentExecution;
use crate::lab::{transfer_succeeds, ClientSpec};
use crate::launcher::{resolved_sidecar_path, stops_session, Mode};
use crate::observed::check_snapshot;
use crate::pacing::{ensure_success, PacingGuard};
use crate::playback::{closed_message, loss_rate};
use crate::protocol::encode_line;
use crate::recorder::ObservationRecorder;
use crate::rule::Percent;
use crate::session::{reap, ChildState, Reaping};
use crate::text::{digits, texts, trimmed};
use crate::traffic::{attempt_step, nap, AttemptStep};
use crate::workload_spec::validate_non_zero;

verus! {

/// A packet counts for the segments that it was put together from, and for one
/// where that is not told; for its bytes on the wire, and for those at hand
/// where that is not told.
pub proof fn packets_count_for_what_they_carry(segments: u32, wire: u32, length: u32)
    ensures
        call_requires(counted_segments, (segments,)),
        forall|r: u32| #[trigger]
            call_ensures(counted_segments, (segments,), r) ==> r >= 1 && (segments >= 1 ==> r
                == segments) && r <= segments + 1,
        call_requires(counted_bytes, (wire, length)),
        forall|r: u32| #[trigger]
            call_ensures(counted_bytes, (wire, length), r) ==> (wire > 0 ==> r == wire) && (wire
                == 0 ==> r == length),
{
}

/// A packet that is lost is marked as lost and as nothing else, and lets the
/// packet go nowhere; one that is not lost bears no mark.
pub proof fn losses_are_marked_alone(lost: bool, action: Action)
    ensures
        call_requires(loss_marks, (lost,)),
        forall|r: PacketMarks| #[trigger]
            call_ensures(loss_marks, (lost,), r) ==> (r.dropped <==> lost) && !r.duplicated
                && !r.reordered && !r.delayed && !r.pacing_dropped,
        call_requires(Action::code, (action,)),
        forall|r: i32| #[trigger]
            call_ensures(Action::code, (action,), r) ==> (r == 3 <==> action == Action::Pass) && (r
                == 2 <==> action == Action::Drop),
{
}

/// Places in a queue belong to one rule in one generation.
pub proof fn queues_belong_to_rules(rule: u32, generation: u32)
    ensures
        call_requires(pace_key, (rule, generation)),
        forall|r: PaceKey| #[trigger]
            call_ensures(pace_key, (rule, generation), r) ==> r.rule_id == rule && r.generation
                == generation,
{
}

/// A process that ended needs nothing. One that runs is waited for until the
/// deadline and ended by force after it, as is one of which nothing is known.
pub proof fn processes_are_waited_for_until_the_deadline(before_deadline: bool)
    ensures
        forall|r: Reaping| #[trigger]
            call_ensures(reap, (ChildState::Ended, before_deadline), r) ==> r == Reaping::Done,
        forall|r: Reaping| #[trigger]
            call_ensures(reap, (ChildState::Running, before_deadline), r) ==> (r == Reaping::Wait
                <==> before_deadline) && (r == Reaping::Kill <==> !before_deadline),
        forall|r: Reaping| #[trigger]
            call_ensures(reap, (ChildState::Unknown, before_deadline), r) ==> r == Reaping::Kill,
{
}

/// An attempt that ended is counted by how it ended, also where the generator
/// was told to end; one under way is then ended by force.
pub proof fn attempts_end_with_the_generator(success: bool, cancelled: bool)
    ensures
        forall|r: AttemptStep| #[trigger]
            call_ensures(attempt_step, (Some(success), cancelled), r) ==> r == AttemptStep::Ended(
                success,
            ),
        forall|r: AttemptStep| #[trigger]
            call_ensures(attempt_step, (None::<bool>, cancelled), r) ==> (r == AttemptStep::Kill
                <==> cancelled) && (r == AttemptStep::Wait <==> !cancelled),
{
}

/// The generator never sleeps longer than it has to, nor longer than a
/// twentieth of a second at a time.
pub proof fn naps_are_short(remaining: Duration)
    ensures
        call_requires(nap, (remaining,)),
        forall|r: Duration| #[trigger]
            call_ensures(nap, (remaining,), r) ==> r.nanos <= remaining.nanos && r.nanos
                <= 50_000_000 && (r.nanos == remaining.nanos || r.nanos == 50_000_000),
{
}

/// The agent tries a hundred times to reach its engine. It gives up at once
/// where the engine has ended, and says why.
pub proof fn engines_are_tried_a_hundred_times(made: usize, status: String, socket: &str)
    ensures
        forall|r: ConnectStep| #[trigger]
            call_ensures(after_attempt, (made, Attempt::Connected, socket), r) ==> r
                == ConnectStep::Connected,
        forall|r: ConnectStep| #[trigger]
            call_ensures(after_attempt, (made, Attempt::NotYet, socket), r) ==> (r
                == ConnectStep::Retry <==> made < 100) && (r is Failed <==> made >= 100),
        forall|r: ConnectStep| #[trigger]
            call_ensures(after_attempt, (made, Attempt::Exited(status), socket), r) ==> (r matches
                ConnectStep::Failed(message) && message@
                == "faultline-engine exited before opening control socket: "@ + status@),
{
}

/// The engine settles how a session ends. Where the input ended first, what
/// follows in a moment settles it.
pub proof fn sessions_end_with_what_settles_them(first: ProxyEnd, next: ProxyEnd)
    ensures
        forall|r: bool| #[trigger]
            call_ensures(awaits_engine, (first,), r) ==> (r <==> first == ProxyEnd::Engine),
        forall|r: ProxyEnd| #[trigger]
            call_ensures(settle_proxy, (first, Some(next)), r) ==> (first == ProxyEnd::Input ==> r
                == next) && (first != ProxyEnd::Input ==> r == first),
        forall|r: ProxyEnd| #[trigger]
            call_ensures(settle_proxy, (first, None::<ProxyEnd>), r) ==> r == first,
        forall|r: bool| #[trigger]
            call_ensures(is_disconnect, (StreamError::BrokenPipe,), r) ==> r,
        forall|r: bool| #[trigger]
            call_ensures(is_disconnect, (StreamError::ConnectionReset,), r) ==> r,
        forall|r: bool| #[trigger]
            call_ensures(is_disconnect, (StreamError::Other,), r) ==> !r,
{
}

/// An engine that ended well is no failure, and one that did not is named with
/// how it ended. Its socket bears the number of its process.
pub proof fn engines_are_told_by_how_they_end(success: bool, status: &str, process: u32)
    ensures
        forall|r: Result<(), String>| #[trigger]
            call_ensures(engine_result, (success, status), r) ==> (r is Ok <==> success) && (
            r matches Err(message) ==> message@ == "faultline-engine engine exited with "@
                + status@),
        forall|r: String| #[trigger]
            call_ensures(socket_path, (process,), r) ==> r@ == "/tmp/faultline-agent-"@ + digits(
                process as nat,
            ) + ".sock"@,
{
}

/// The queue is taken away from where it stands: the root of its interface,
/// under its own handle. What fails says so with the complaint.
pub proof fn queues_are_taken_away_by_their_handle(
    guard: &PacingGuard,
    operation: &str,
    success: bool,
    stderr: &str,
)
    ensures
        forall|r: Vec<String>| #[trigger]
            call_ensures(PacingGuard::remove_args, (guard,), r) ==> r@.len() == 7 && texts(r@)[0]
                == "qdisc"@ && texts(r@)[1] == "del"@ && texts(r@)[2] == "dev"@ && texts(r@)[3]
                == guard.interface@ && texts(r@)[4] == "root"@ && texts(r@)[5] == "handle"@
                && texts(r@)[6] == "7fff:"@,
        forall|r: Result<(), String>| #[trigger]
            call_ensures(ensure_success, (operation, success, stderr), r) ==> (r is Ok <==> success)
                && (r matches Err(message) ==> message@ == operation@ + " failed: "@ + trimmed(
                stderr@,
            ) + ". faultline-engine does not replace an existing root qdisc"@),
{
    assert forall|r: Vec<String>| #[trigger]
        call_ensures(PacingGuard::remove_args, (guard,), r) implies r@.len() == 7 by {
        assert(texts(r@).len() == r@.len());
    }
}

/// Interfaces are asked for twenty times at most, until they are found.
pub proof fn interfaces_are_asked_for_twenty_times(attempt: u32, found: bool)
    ensures
        call_requires(asks_again, (attempt, found)),
        forall|r: bool| #[trigger]
            call_ensures(asks_again, (attempt, found), r) ==> (r <==> !found && attempt < 19),
{
}

/// A failure is answered where somebody asked, and ends the engine otherwise.
pub proof fn failures_are_answered_to_those_who_asked(message: String, answerable: bool)
    ensures
        forall|r: Failure| #[trigger]
            call_ensures(failed_command, (message, answerable), r) ==> (answerable ==> r
                == Failure::Answer(message)) && (!answerable ==> r == Failure::Abort(message)),
{
}

/// A time is told in whole milliseconds or in nanoseconds, up to what a number
/// holds.
pub proof fn long_times_are_capped(time: &Duration)
    ensures
        forall|r: u64| #[trigger]
            call_ensures(Duration::as_millis_capped, (time,), r) ==> if time.nanos / 1_000_000
                <= u64::MAX {
                r * 1_000_000 <= time.nanos < (r + 1) * 1_000_000
            } else {
                r == u64::MAX
            },
        forall|r: u64| #[trigger]
            call_ensures(Duration::as_nanos_capped, (time,), r) ==> if time.nanos <= u64::MAX {
                r == time.nanos
            } else {
                r == u64::MAX
            },
{
}

/// A transfer succeeds where every byte came and it took as long as was asked;
/// between two requests a client pauses, but not after the last.
pub proof fn transfers_need_every_byte(
    received: u64,
    bytes: u64,
    elapsed: u128,
    least: u128,
    client: &ClientSpec,
    index: u32,
)
    ensures
        call_requires(transfer_succeeds, (received, bytes, elapsed, least)),
        forall|r: bool| #[trigger]
            call_ensures(transfer_succeeds, (received, bytes, elapsed, least), r) ==> (r
                <==> received == bytes && least <= elapsed),
        forall|r: bool| #[trigger]
            call_ensures(ClientSpec::pauses_after, (client, index), r) ==> (r
                <==> client.interval_ms > 0 && index + 1 < client.requests),
{
}

/// A session that is the caller's own is stopped at the end, except where it
/// was only asked to change a loss. A plan goes beside its manifest.
pub proof fn own_sessions_are_stopped(mode: Mode, owned: bool, path: &str)
    ensures
        forall|r: bool| #[trigger]
            call_ensures(stops_session, (mode, owned), r) ==> (r <==> owned && !(mode
                == Mode::SetLoss)),
        forall|r: String| #[trigger]
            call_ensures(resolved_sidecar_path, (path,), r) ==> r@ == path@ + ".resolved.json"@,
{
}

/// A snapshot at time 0 is refused, and no other.
pub proof fn snapshots_need_some_time(after_ms: Option<u64>)
    ensures
        forall|r: Result<(), String>| #[trigger]
            call_ensures(check_snapshot, (after_ms,), r) ==> (r is Err <==> after_ms == Some(0u64)),
{
}

/// A loss that is set must be a share, and is then its ten-thousandths. What is
/// given in ten-thousandths is a share up to all of it.
pub proof fn losses_are_shares(loss: Percent, permyriad: u32, index: usize)
    ensures
        forall|r: Result<u32, String>| #[trigger]
            call_ensures(loss_rate, (loss,), r) ==> (r is Err <==> loss is Outside) && (r matches
                Ok(rate) ==> rate == loss.rate()),
        forall|r: Percent| #[trigger]
            call_ensures(Percent::of, (permyriad,), r) ==> (permyriad <= 10_000 ==> r.rate()
                == permyriad && (r.above_zero() <==> permyriad > 0)) && (r is Outside <==> permyriad
                > 10_000),
        forall|r: String| #[trigger]
            call_ensures(closed_message, (index,), r) ==> r@
                == "control channel closed while applying timeline event "@ + digits(index as nat),
{
}

/// A line is what was encoded with a line feed behind it.
pub proof fn lines_end_with_a_line_feed(encoded: Vec<u8>)
    ensures
        forall|r: Vec<u8>| #[trigger]
            call_ensures(encode_line, (encoded,), r) ==> r@.len() == encoded@.len() + 1 && r@.last()
                == 10 && r@.drop_last() == encoded@,
{
    assert forall|r: Vec<u8>| #[trigger] call_ensures(encode_line, (encoded,), r) implies r@.len()
        == encoded@.len() + 1 && r@.last() == 10 && r@.drop_last() == encoded@ by {
        assert(r@.drop_last() =~= encoded@);
    }
}

/// Zero is refused with the given message, and nothing else is.
pub proof fn zero_is_refused(value: u64, message: &str)
    ensures
        forall|r: Result<(), String>| #[trigger]
            call_ensures(validate_non_zero, (value, message), r) ==> (r is Ok <==> value > 0) && (
            r matches Err(told) ==> told@ == message@),
{
}

/// An event is given up once its time for an answer has run out since it was
/// sent, and not where nothing awaits one.
pub proof fn answers_are_awaited_for_their_time(
    recorder: &ObservationRecorder,
    now: Duration,
    timeout: Duration,
)
    ensures
        forall|r: bool| #[trigger]
            call_ensures(
                ObservationRecorder::acknowledgement_timed_out,
                (recorder, now, timeout),
                r,
            ) ==> match recorder.pending {
                Some(pending) => r <==> now.nanos - pending.sent_at.nanos >= timeout.nanos as int,
                None => !r,
            },
        forall|r: bool| #[trigger]
            call_ensures(ObservationRecorder::has_pending, (recorder,), r) ==> (r
                <==> recorder.pending is Some),
{
}

/// What is recorded of a run is all that was observed, from when it began to
/// when it ended.
pub proof fn records_hold_what_was_observed(
    recorder: ObservationRecorder,
    started: u64,
    completed: u64,
)
    ensures
        forall|r: ExperimentExecution| #[trigger]
            call_ensures(ObservationRecorder::finish, (recorder, started, completed), r)
                ==> r.started_at_unix_ms == started && r.completed_at_unix_ms == completed
                && r.applied_events@ == recorder.applied_events@ && r.rule_observations@
                == recorder.rule_observations@ && r.selection_diagnostics@
                == recorder.selection_diagnostics@ && r.final_rule_stats@
                == recorder.final_rule_stats@ && r.final_diagnostics == recorder.final_diagnostics,
{
}

} // verus!
