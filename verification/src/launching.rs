//! Laws of how a session is launched: what is read and written, what the engine
//! is told, and what the session then does.

use vstd::prelude::*;
use crate::agent::{Direction, Options};
use crate::console::Screen;
use crate::container::{container_source, names_in, Runtime};
use crate::driver::kind_name;
use crate::invocation::ProcessOutput;
use crate::launcher::{
    check_output, first_network, initial_destination, session_mode, session_target, Launch, Mode,
};
use crate::net::Network;
use crate::plan::ResolvedExperiment;
use crate::protocol::{Response, Timeline, TimelineKind};
use crate::recorder::ObservationRecorder;
use crate::session::unseen;
use crate::socket::response_id;
use crate::text::{digits, lines_from, optional_text, trimmed};
use crate::workload_spec::Workload;

verus! {

/// A launch that asks for nothing opens the builder on the usual manifest.
/// Otherwise a new manifest goes before one to edit and that before one to run.
pub proof fn manifests_are_named(launch: Launch)
    ensures
        launch.manifest() matches Some(path) ==> {
            ||| launch.idle() && path == "experiment.yaml"@
            ||| launch.new_experiment matches Some(text) && text@ == path
            ||| launch.edit_experiment matches Some(text) && text@ == path
            ||| launch.experiment matches Some(text) && text@ == path
        },
        launch.new_experiment matches Some(path) ==> launch.manifest() == Some(path@),
        launch.new_experiment is None ==> (launch.edit_experiment matches Some(path)
            ==> launch.manifest() == Some(path@)),
        launch.new_experiment is None && launch.edit_experiment is None ==> (
        launch.experiment matches Some(path) ==> launch.manifest() == Some(path@)),
        launch.idle() ==> launch.manifest() == Some("experiment.yaml"@),
        !launch.idle() && launch.new_experiment is None && launch.edit_experiment is None
            && launch.experiment is None ==> launch.manifest() is None,
{
}

/// Whatever a launch asks for, it is not idle.
pub proof fn any_wish_is_a_launch(launch: Launch)
    ensures
        launch.idle() <==> {
            &&& launch.target is None && launch.socket is None
            &&& launch.experiment is None && launch.new_experiment is None
                && launch.edit_experiment is None && launch.resolved_output is None
            &&& launch.profile is None && launch.replay is None && launch.record is None
            &&& !launch.set_loss && launch.snapshot_after_ms is None
        },
{
}

/// A plan is written where it was asked for, or beside its manifest.
pub proof fn plans_are_written_beside_their_manifest(launch: Launch, path: Seq<char>)
    ensures
        launch.resolved_output matches Some(output) ==> launch.plan_path() == Some(output@),
        launch.resolved_output is None && launch.manifest() == Some(path) ==> launch.plan_path()
            == Some(path + ".resolved.json"@),
        launch.resolved_output is None && launch.manifest() is None ==> launch.plan_path() is None,
{
}

/// Only an experiment has a plan to write.
pub proof fn only_experiments_write_plans(launch: &Launch, has_experiment: bool)
    ensures
        forall|r: Result<(), String>| #[trigger]
            call_ensures(check_output, (launch, has_experiment), r) ==> (r is Err
                <==> launch.resolved_output is Some && !has_experiment),
{
}

/// A session starts with the first network of its plan's first relation.
pub proof fn sessions_start_with_the_first_network(plan: &ResolvedExperiment, network: Network)
    ensures
        first_network(*plan) == Some(network) <==> {
            &&& plan.selectors@.len() > 0
            &&& plan.selectors@[0].destination.networks@.len() > 0
            &&& plan.selectors@[0].destination.networks@[0]@ == network
        },
        forall|r: Result<String, String>| #[trigger]
            call_ensures(initial_destination, (plan,), r) ==> (r is Ok <==> first_network(
                *plan,
            ) is Some && first_network(*plan)->0.printable()) && (r matches Ok(text)
                ==> text@ == first_network(*plan)->0.text()),
{
}

/// The target is the one that was named, or the one that the timeline was made
/// for.
pub proof fn targets_are_named_or_recorded(named: &Option<String>, timeline: &Option<Timeline>)
    ensures
        forall|r: Option<String>| #[trigger]
            call_ensures(session_target, (named, timeline), r) ==> {
                &&& *named matches Some(target) ==> optional_text(r) == Some(target@)
                &&& *named is None && *timeline is None ==> r is None
                &&& *named is None ==> (*timeline matches Some(played) ==> optional_text(r)
                    == optional_text(played.target))
            },
{
}

/// A session with a timeline plays it, and watches it where it belongs to an
/// experiment. Without one it sets a loss, takes a snapshot or is steered by
/// hand.
pub proof fn sessions_do_one_thing(experiment: bool, timeline: bool, set_loss: bool, snapshot: bool)
    ensures
        forall|r: Mode| #[trigger]
            call_ensures(session_mode, (experiment, timeline, set_loss, snapshot), r) ==> {
                &&& r == Mode::Observe <==> timeline && experiment
                &&& r == Mode::Play <==> timeline && !experiment
                &&& r == Mode::SetLoss <==> !timeline && set_loss
                &&& r == Mode::Snapshot <==> !timeline && !set_loss && snapshot
                &&& r == Mode::Interactive <==> !timeline && !set_loss && !snapshot
            },
{
}

/// The engine is told its interface, direction, destination, protocol and port,
/// to lose nothing at first, and where it is steered from.
pub proof fn engines_are_told_what_to_do(options: Options, socket: Seq<char>)
    ensures
        ({
            let args = options.engine_arguments(socket);
            &&& args.len() == 14
            &&& args[0] == "--interface"@ && args[1] == options.interface@
            &&& args[2] == "--direction"@
            &&& options.direction == Direction::Ingress ==> args[3] == "ingress"@
            &&& options.direction == Direction::Egress ==> args[3] == "egress"@
            &&& args[4] == "--destination"@ && args[5] == options.destination@
            &&& args[6] == "--protocol"@ && args[7] == options.protocol@
            &&& args[8] == "--port"@ && args[9] == digits(options.port as nat)
            &&& args[10] == "--loss"@ && args[11] == "0"@
            &&& args[12] == "--control-socket"@ && args[13] == socket
        }),
{
}

/// The interfaces of a container are the names that were listed in it, where
/// listing them ended well.
pub proof fn interfaces_are_listed(runtime: Runtime, name: Seq<char>, output: ProcessOutput)
    ensures
        output.exit.success ==> runtime.listed(name, output) == Ok::<Seq<Seq<char>>, Seq<char>>(
            names_in(lines_from(output.stdout@, 0), lines_from(output.stdout@, 0).len()),
        ),
        !output.exit.success && runtime == Runtime::Docker ==> runtime.listed(name, output)
            == Err::<Seq<Seq<char>>, Seq<char>>(
            "could not inspect interfaces in "@ + "Docker"@ + " workload "@ + name + (": "@
                + trimmed(output.stderr@)),
        ),
        !output.exit.success && runtime == Runtime::Lxc ==> runtime.listed(name, output) == Err::<
            Seq<Seq<char>>,
            Seq<char>,
        >(
            "could not inspect interfaces in "@ + "LXC"@ + " workload "@ + name + (": "@ + trimmed(
                output.stderr@,
            )),
        ),
{
}

/// A container is known by its runtime, its name and who may start it; a local
/// source is none.
pub proof fn container_sources_are_known(source: Workload)
    ensures
        source is Local ==> container_source(source) is None,
        source matches Workload::Docker { container, lifecycle, .. } ==> container_source(source)
            == Some((Runtime::Docker, container, lifecycle)),
        source matches Workload::Lxc { container, lifecycle, .. } ==> container_source(source)
            == Some((Runtime::Lxc, container, lifecycle)),
{
}

/// Every answer bears the number of its request; an error may bear none.
pub proof fn answers_bear_the_number_of_their_request(response: Response)
    ensures
        match response {
            Response::Pong { id } => response_id(response) == Some(id),
            Response::State { id, .. } => response_id(response) == Some(id),
            Response::Applied { id, .. } => response_id(response) == Some(id),
            Response::Stopping { id } => response_id(response) == Some(id),
            Response::Error { id, .. } => response_id(response) == id,
        },
{
}

/// Timelines are named by their kind, and a container that cannot be seen by
/// its runtime and name.
pub proof fn names_are_given_in_words(runtime: Seq<char>, container: Seq<char>)
    ensures
        kind_name(TimelineKind::Profile) == "Profile"@,
        kind_name(TimelineKind::Replay) == "Replay"@,
        unseen(runtime, container) == runtime + " container "@ + container
            + " is not running or is not visible; start it and check --list-targets"@,
{
}

/// The heading names the phase, the selected rule among all and where it leads.
pub proof fn headings_name_the_selected_rule(screen: Screen, width: nat, label: Seq<char>)
    ensures
        width < 110 ==> screen.heading(width, label) == "  "@ + ("["@ + screen.phase + "]"@)
            + "  rule "@ + digits((screen.selected_rule + 1) as nat) + "/"@ + digits(
            screen.rules.len(),
        ) + "  "@ + screen.route() + "  │  "@ + label,
        width >= 110 ==> screen.heading(width, label) == "  "@ + crate::console::lifecycle(
            screen.phase,
        ) + "  rule "@ + digits((screen.selected_rule + 1) as nat) + "/"@ + digits(
            screen.rules.len(),
        ) + "  "@ + screen.route() + "  │  "@ + label,
{
}

/// A recorder that has just begun has recorded nothing, awaits nothing and
/// knows of no rules.
pub proof fn fresh_recorders_are_empty(recorder: ObservationRecorder)
    ensures
        recorder.is_fresh() ==> {
            &&& recorder.pending is None
            &&& recorder.applied_events@.len() == 0
            &&& recorder.active_event_index is None
            &&& recorder.active_rules@.len() == 0
            &&& recorder.observed_since_apply@.len() == 0
            &&& recorder.rule_observations@.len() == 0
            &&& recorder.selection_diagnostics@.len() == 0
            &&& recorder.final_rule_stats@.len() == 0
            &&& recorder.final_diagnostics is None
        },
        forall|r: ObservationRecorder| #[trigger]
            call_ensures(<ObservationRecorder as Default>::default, (), r) ==> r.is_fresh(),
{
}

} // verus!
