//! Laws of what stands where nothing was said, and of what follows from what
//! was.

use vstd::prelude::*;
use crate::control::OutageWindow;
use crate::driver::check_loaded;
use crate::duration::Duration;
use crate::environment::{capture_environment, offloads_in, qdiscs_in, switches};
use crate::execution::ExecutionEnvironment;
use crate::json::text_result;
use crate::lab::upload_result;
use crate::net::IpNet;
use crate::options::{
    needs_pacing, pacing_required, queue_needed, Direction, LossAlgorithm, Options, Protocol,
};
use crate::playback::{loss_outcome, Reply};
use crate::protocol::{default_rule_seed, ControlTimeouts, RuleSpec, Timeline, TimelineKind};
use crate::scenario::{decode_as, default_seed, Encoding, ScenarioRule};
use crate::session::validate_running_container;
use crate::text::{digits, lines_from, optional_text, texts, trimmed};
use crate::traffic::rest_after;
use crate::workload_spec::{
    default_interface, default_traffic_interval_ms, default_traffic_timeout_ms, default_true,
    AttachSpec,
};

verus! {

/// A rule that holds packets back needs a queue: for a delay, jitter,
/// reordering or a bandwidth, and for nothing else.
pub proof fn packets_are_held_back_in_a_queue(
    rules: &Vec<RuleSpec>,
    control_socket: bool,
    direction: Direction,
    i: int,
)
    ensures
        0 <= i < rules@.len() && (rules@[i].delay_ns > 0 || rules@[i].jitter_ns > 0
            || rules@[i].reorder_permyriad > 0 || rules@[i].bandwidth_bps > 0) ==> queue_needed(
            rules@,
            control_socket,
            direction,
        ),
        control_socket && direction == Direction::Egress ==> queue_needed(
            rules@,
            control_socket,
            direction,
        ),
        (forall|k: int|
            0 <= k < rules@.len() ==> (#[trigger] rules@[k]).delay_ns == 0 && rules@[k].jitter_ns
                == 0 && rules@[k].reorder_permyriad == 0 && rules@[k].bandwidth_bps == 0) && !(
        control_socket && direction == Direction::Egress) ==> !queue_needed(
            rules@,
            control_socket,
            direction,
        ),
        forall|r: bool| #[trigger]
            call_ensures(pacing_required, (rules, control_socket, direction), r) ==> r
                == queue_needed(rules@, control_socket, direction),
{
    if 0 <= i < rules@.len() && (rules@[i].delay_ns > 0 || rules@[i].jitter_ns > 0
        || rules@[i].reorder_permyriad > 0 || rules@[i].bandwidth_bps > 0) {
        assert(needs_pacing(rules@[i]));
    }
}

/// Options that say nothing more lose nothing, hold nothing back, look outwards
/// at every protocol and report every second. A burst that they ask for is left
/// with one packet in four and loses everything while it lasts.
pub proof fn options_start_harmless(
    interface: String,
    destination: Option<IpNet>,
    scenario: Option<String>,
)
    ensures
        forall|r: Options| #[trigger]
            call_ensures(Options::new, (interface, destination, scenario), r) ==> {
                &&& r.interface == interface && r.destination == destination && r.scenario
                    == scenario
                &&& r.source is None && r.port == 0 && r.protocol == Protocol::Any
                &&& r.direction == Direction::Egress
                &&& r.loss.rate() == 0 && !r.loss.above_zero()
                &&& r.loss_algorithm == LossAlgorithm::Hash && r.seed == 1
                &&& r.duplicate.rate() == 0 && r.reorder.rate() == 0
                &&& r.delay is None && r.jitter is None && r.bandwidth is None
                &&& r.burst_loss is None && r.burst_idle_reset is None
                &&& r.burst_recovery.rate() == 2_500 && r.burst_recovery.above_zero()
                &&& r.burst_bad_loss.rate() == 10_000 && r.burst_good_loss.rate() == 0
                &&& r.stats_interval.nanos == 1_000_000_000
                &&& r.duration is None && r.outage_after is None && r.outage_duration is None
                &&& r.control_socket is None
            },
{
}

/// A rule of a scenario that says nothing more is as harmless.
pub proof fn scenario_rules_start_harmless(id: u32, destination: IpNet)
    ensures
        forall|r: ScenarioRule| #[trigger]
            call_ensures(ScenarioRule::new, (id, destination), r) ==> {
                &&& r.id == id && r.destination == destination && r.source is None
                &&& r.protocol == Protocol::Any && r.port == 0 && r.seed == 1
                &&& r.loss.rate() == 0 && r.loss_algorithm == LossAlgorithm::Hash
                &&& r.duplicate.rate() == 0 && r.reorder.rate() == 0
                &&& r.delay is None && r.jitter is None && r.bandwidth is None
                &&& r.burst_loss is None && r.burst_idle_reset is None
                &&& r.burst_recovery.rate() == 2_500
                &&& r.burst_bad_loss.rate() == 10_000 && r.burst_good_loss.rate() == 0
            },
        forall|r: u32| #[trigger] call_ensures(default_seed, (), r) ==> r == 1,
        forall|r: u32| #[trigger] call_ensures(default_rule_seed, (), r) ==> r == 1,
{
}

/// What a manifest leaves out: an interface is left open, traffic is tried every
/// second and waits two, and what was created goes away. Control waits five
/// seconds for an answer and one for an end.
pub proof fn manifests_leave_out_the_usual()
    ensures
        forall|r: String| #[trigger] call_ensures(default_interface, (), r) ==> r@ == "auto"@,
        forall|r: bool| #[trigger] call_ensures(default_true, (), r) ==> r,
        forall|r: u64| #[trigger]
            call_ensures(default_traffic_interval_ms, (), r) ==> r == 1_000,
        forall|r: u64| #[trigger]
            call_ensures(default_traffic_timeout_ms, (), r) ==> r == 2_000,
        forall|r: ControlTimeouts| #[trigger]
            call_ensures(<ControlTimeouts as Default>::default, (), r) ==> {
                &&& r.acknowledgement.nanos == 5_000_000_000
                &&& r.state.nanos == 5_000_000_000
                &&& r.control_loop.nanos == 5_000_000_000
                &&& r.shutdown.nanos == 1_000_000_000
            },
{
}

/// An outage needs its start and its length.
pub proof fn outages_need_both_ends(options: &Options)
    ensures
        forall|r: Option<OutageWindow>| #[trigger]
            call_ensures(Options::outage, (options,), r) ==> match (
                options.outage_after,
                options.outage_duration,
            ) {
                (Some(after), Some(length)) => r matches Some(window) && window.after == after
                    && window.duration == length,
                _ => r is None,
            },
{
}

/// A timeline that is loaded must be sound and of the kind that was asked for.
pub proof fn loaded_timelines_are_of_their_kind(
    timeline: &Timeline,
    kind: TimelineKind,
    path: &str,
)
    ensures
        forall|r: Result<(), String>| #[trigger]
            call_ensures(check_loaded, (timeline, kind, path), r) ==> (r is Ok
                <==> timeline@.error() is None && timeline.kind == kind) && (timeline@.error()
                is Some ==> (r matches Err(message) && timeline@.error() == Some(message@))),
{
}

/// A change of a loss took place exactly when it was answered as applied.
pub proof fn changed_losses_are_answered(reply: &Reply)
    ensures
        forall|r: Result<(), String>| #[trigger]
            call_ensures(loss_outcome, (reply,), r) ==> (r is Ok <==> reply@.kind == Some(
                "applied"@,
            )) && (r matches Err(message) ==> message@ == "control update failed: "@
                + reply@.text),
{
}

/// A file is read as its ending says, and refused without a known one.
pub proof fn files_are_read_by_their_ending(subject: &str, ending: &str)
    ensures
        forall|r: Result<Encoding, String>| #[trigger]
            call_ensures(decode_as, (subject, Some(ending)), r) ==> {
                &&& ending@ == "yaml"@ || ending@ == "yml"@ ==> r == Ok::<Encoding, String>(
                    Encoding::Yaml,
                )
                &&& ending@ == "json"@ ==> r == Ok::<Encoding, String>(Encoding::Json)
                &&& ending@ != "yaml"@ && ending@ != "yml"@ && ending@ != "json"@ ==> r is Err
            },
        forall|r: Result<Encoding, String>| #[trigger]
            call_ensures(decode_as, (subject, None::<&str>), r) ==> r is Err,
{
    reveal_strlit("yaml");
    reveal_strlit("yml");
    reveal_strlit("json");
    assert("yaml"@[0] == 'y' && "yml"@[0] == 'y' && "json"@[0] == 'j');
}

/// The generator rests for what is left of its interval, and an upload is whole
/// or told how far it came.
pub proof fn generators_rest_for_what_is_left(
    interval: Duration,
    elapsed: Duration,
    received: u64,
    bytes: u64,
)
    ensures
        call_requires(rest_after, (interval, elapsed)),
        forall|r: Duration| #[trigger]
            call_ensures(rest_after, (interval, elapsed), r) ==> (elapsed.nanos <= interval.nanos
                ==> r.nanos + elapsed.nanos == interval.nanos) && (elapsed.nanos > interval.nanos
                ==> r.nanos == 0),
        forall|r: Result<(), String>| #[trigger]
            call_ensures(upload_result, (received, bytes), r) ==> (r is Ok <==> received == bytes)
                && (r matches Err(message) ==> message@ == "upload ended after "@ + digits(
                received as nat,
            ) + " of "@ + digits(bytes as nat) + " bytes"@),
{
}

/// A container must be among those that run, by its very name.
pub proof fn containers_must_run(runtime: &str, container: &str, running: &Vec<String>)
    ensures
        forall|r: Result<(), String>| #[trigger]
            call_ensures(validate_running_container, (runtime, container, running), r) ==> (r is Ok
                <==> exists|i: int| 0 <= i < running@.len() && (#[trigger] running@[i])@
                == container@),
{
}

/// What is captured of the machine: its kernel without the white around it, its
/// offloads and its queues, each where it was told, and a complaint for each
/// that was not.
pub proof fn environments_hold_what_was_told(
    attach: &AttachSpec,
    at: u64,
    version: &str,
    kernel: Result<String, String>,
    offloads: Result<String, String>,
    qdiscs: Result<String, String>,
)
    ensures
        forall|r: ExecutionEnvironment| #[trigger]
            call_ensures(capture_environment, (attach, at, version, kernel, offloads, qdiscs), r)
                ==> {
                &&& r.captured_at_unix_ms == at
                &&& r.target@ == attach@.uri()
                &&& r.interface@ == attach@.interface()
                &&& r.faultline_version@ == version@
                &&& kernel is Err ==> r.kernel_release is None
                &&& kernel matches Ok(text) ==> optional_text(r.kernel_release) == Some(
                    trimmed(text@),
                )
                &&& offloads is Err ==> r.offloads@.len() == 0
                &&& offloads matches Ok(text) ==> switches(r.offloads@) == offloads_in(
                    lines_from(text@, 0),
                    lines_from(text@, 0).len(),
                )
                &&& qdiscs is Err ==> r.qdiscs is None
                &&& kernel is Ok && offloads is Ok && qdiscs_in(text_result(qdiscs)) is Ok
                    ==> r.diagnostics@.len() == 0
                &&& kernel is Err && offloads is Err && qdiscs is Err ==> r.diagnostics@.len() == 3
            },
{
    assert forall|r: ExecutionEnvironment| #[trigger]
        call_ensures(
            capture_environment,
            (attach, at, version, kernel, offloads, qdiscs),
            r,
        ) implies {
        &&& offloads is Err ==> r.offloads@.len() == 0
        &&& kernel is Ok && offloads is Ok && qdiscs_in(text_result(qdiscs)) is Ok
            ==> r.diagnostics@.len() == 0
        &&& kernel is Err && offloads is Err && qdiscs is Err ==> r.diagnostics@.len() == 3
    } by {
        assert(switches(r.offloads@).len() == r.offloads@.len());
        assert(texts(r.diagnostics@).len() == r.diagnostics@.len());
    }
}

} // verus!
