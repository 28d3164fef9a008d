//! What the command line of the frontend asks for.

use vstd::prelude::*;
use vstd::string::*;
use crate::net::Network;
use crate::plan::ResolvedExperiment;
use crate::protocol::{reports, Timeline};
use crate::text::optional_text;
use crate::workload_spec::copy_optional_text;

verus! {

/// What the command line names.
#[derive(Clone, Debug, PartialEq, Eq)]
pub struct Launch {
    pub target: Option<String>,
    pub experiment: Option<String>,
    pub new_experiment: Option<String>,
    pub edit_experiment: Option<String>,
    pub resolved_output: Option<String>,
    pub socket: Option<String>,
    pub profile: Option<String>,
    pub replay: Option<String>,
    pub record: Option<String>,
    pub set_loss: bool,
    pub snapshot_after_ms: Option<u64>,
}

/// The file of an experiment that is built without naming one.
pub const DEFAULT_EXPERIMENT: &'static str = "experiment.yaml";

impl Launch {
    /// Whether the command line names nothing to do.
    pub open spec fn idle(self) -> bool {
        &&& self.target is None
        &&& self.experiment is None
        &&& self.new_experiment is None
        &&& self.edit_experiment is None
        &&& self.resolved_output is None
        &&& self.socket is None
        &&& self.profile is None
        &&& self.replay is None
        &&& self.record is None
        &&& !self.set_loss
        &&& self.snapshot_after_ms is None
    }

    /// The file of the experiment, if there is one.
    pub open spec fn manifest(self) -> Option<Seq<char>> {
        if self.idle() {
            Some(DEFAULT_EXPERIMENT@)
        } else {
            match (self.new_experiment, self.edit_experiment, self.experiment) {
                (Some(path), _, _) => Some(path@),
                (None, Some(path), _) => Some(path@),
                (None, None, path) => optional_text(path),
            }
        }
    }

    /// Where the plan of the experiment is written: where the command line says,
    /// or beside the file of the experiment.
    pub open spec fn plan_path(self) -> Option<Seq<char>> {
        match self.resolved_output {
            Some(path) => Some(path@),
            None => match self.manifest() {
                Some(path) => Some(path + ".resolved.json"@),
                None => None,
            },
        }
    }
}

/// Whether the form for a new experiment opens: the command line names nothing
/// else.
pub fn wants_default_builder(launch: &Launch) -> (r: bool)
    ensures
        r == launch.idle(),
{
    launch.target.is_none() && launch.experiment.is_none() && launch.new_experiment.is_none()
        && launch.edit_experiment.is_none() && launch.profile.is_none() && launch.replay.is_none()
        && launch.record.is_none() && !launch.set_loss && launch.snapshot_after_ms.is_none()
        && launch.resolved_output.is_none() && launch.socket.is_none()
}

/// Tells the file of the experiment.
pub fn manifest_path(launch: &Launch) -> (r: Option<String>)
    ensures
        optional_text(r) == launch.manifest(),
{
    if wants_default_builder(launch) {
        return Some(DEFAULT_EXPERIMENT.to_owned());
    }
    match &launch.new_experiment {
        Some(path) => Some(path.clone()),
        None => match &launch.edit_experiment {
            Some(path) => Some(path.clone()),
            None => copy_optional_text(&launch.experiment),
        },
    }
}

/// The file beside an experiment that holds its plan.
pub fn resolved_sidecar_path(path: &str) -> (r: String)
    ensures
        r@ == path@ + ".resolved.json"@,
{
    let mut sidecar = path.to_owned();
    sidecar.append(".resolved.json");
    sidecar
}

/// Tells where the plan of the experiment is written.
pub fn resolved_path(launch: &Launch) -> (r: Option<String>)
    ensures
        optional_text(r) == launch.plan_path(),
{
    match &launch.resolved_output {
        Some(path) => Some(path.clone()),
        None => match manifest_path(launch) {
            Some(path) => Some(resolved_sidecar_path(path.as_str())),
            None => None,
        },
    }
}

/// Checks that a plan is asked for only with an experiment.
pub fn check_output(launch: &Launch, has_experiment: bool) -> (r: Result<(), String>)
    ensures
        reports(
            r,
            if launch.resolved_output is Some && !has_experiment {
                Some(
                    "--resolved-output requires --experiment, --new-experiment, or --edit-experiment"@,
                )
            } else {
                None
            },
        ),
{
    if launch.resolved_output.is_some() && !has_experiment {
        Err(
            "--resolved-output requires --experiment, --new-experiment, or --edit-experiment".to_owned(),
        )
    } else {
        Ok(())
    }
}

/// The first network of a plan.
pub open spec fn first_network(plan: ResolvedExperiment) -> Option<Network> {
    if plan.selectors@.len() > 0 && plan.selectors@[0].destination.networks@.len() > 0 {
        Some(plan.selectors@[0].destination.networks@[0]@)
    } else {
        None
    }
}

/// The destination of the rule that a session starts with, until the first
/// event is applied: the first network of the plan.
pub fn initial_destination(plan: &ResolvedExperiment) -> (r: Result<String, String>)
    ensures
        match (r, first_network(*plan)) {
            (Ok(text), Some(network)) => network.printable() && text@ == network.text(),
            (Err(message), Some(network)) => !network.printable() && message@
                == "resolved experiment has no destination"@,
            (Err(message), None) => message@ == "resolved experiment has no destination"@,
            _ => false,
        },
{
    if plan.selectors.len() > 0 && plan.selectors[0].destination.networks.len() > 0 {
        let network = plan.selectors[0].destination.networks[0];
        if network.is_ipv4() || network.prefix_len <= 128 {
            return Ok(network.to_text());
        }
    }
    Err("resolved experiment has no destination".to_owned())
}

/// The target of a session: the one that is named, or that of the timeline.
pub fn session_target(named: &Option<String>, timeline: &Option<Timeline>) -> (r: Option<String>)
    ensures
        optional_text(r) == (match *named {
            Some(target) => Some(target@),
            None => match *timeline {
                Some(played) => optional_text(played.target),
                None => None,
            },
        }),
{
    match named {
        Some(target) => Some(target.clone()),
        None => match timeline {
            Some(played) => copy_optional_text(&played.target),
            None => None,
        },
    }
}

/// What a session does.
#[derive(Clone, Copy, Debug, PartialEq, Eq, Structural)]
pub enum Mode {
    /// Run an experiment and watch it.
    Observe,
    /// Play a timeline.
    Play,
    /// Set one loss rate.
    SetLoss,
    /// Print the screen once.
    Snapshot,
    /// Show the screen and take keys.
    Interactive,
}

/// Decides what a session does.
pub fn session_mode(experiment: bool, timeline: bool, set_loss: bool, snapshot: bool) -> (r: Mode)
    ensures
        r == (if timeline && experiment {
            Mode::Observe
        } else if timeline {
            Mode::Play
        } else if set_loss {
            Mode::SetLoss
        } else if snapshot {
            Mode::Snapshot
        } else {
            Mode::Interactive
        }),
{
    if timeline && experiment {
        Mode::Observe
    } else if timeline {
        Mode::Play
    } else if set_loss {
        Mode::SetLoss
    } else if snapshot {
        Mode::Snapshot
    } else {
        Mode::Interactive
    }
}

/// Whether a session is told to end once its work is done: those that this
/// process started are, unless only a loss rate was set.
pub fn stops_session(mode: Mode, owned: bool) -> (r: bool)
    ensures
        r == (owned && mode != Mode::SetLoss),
{
    owned && mode != Mode::SetLoss
}

} // verus!
