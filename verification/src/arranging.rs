//! Laws of the steps that make a source available: which step follows which.

use vstd::prelude::*;
use crate::container::{cleanup_of, docker_create_call, lxc_create_call, Cleanup, Runtime};
use crate::invocation::{ExitReport, ProcessOutput, Reason};
use crate::preparation::{fits, opening, Deed, Event, Owned, Path, Phase};
use crate::text::blank;
use crate::workload_spec::{Container, Process, Workload, WorkloadLifecycle};

verus! {

/// A source is opened by what it is: a local process is started, a container is
/// inspected under its name, and an interface alone needs nothing.
pub proof fn sources_are_opened_by_what_they_are(source: Workload)
    ensures
        source matches Workload::Local { process: None, .. } ==> opening(source) == (
            Phase::Ended,
            Deed::Own(Owned::Nothing),
        ),
        source matches Workload::Local { process: Some(process), .. } ==> opening(source) == (
            Phase::Spawning,
            Deed::Spawn(process),
        ),
        source matches Workload::Docker { container, .. } ==> opening(source) == (
            Phase::Inspecting,
            Deed::Inspect(Runtime::Docker.inspect_call(container)),
        ),
        source matches Workload::Lxc { container, .. } ==> opening(source) == (
            Phase::Inspecting,
            Deed::Inspect(Runtime::Lxc.inspect_call(container)),
        ),
{
}

/// Whether a step fails with a message and nothing is taken back.
pub open spec fn fails(step: (Phase, Deed)) -> bool {
    step.0 == Phase::Ended && step.1 is Fail
}

/// Whether a step takes back what was created and remembers why.
pub open spec fn takes_back(path: Path, step: (Phase, Deed)) -> bool {
    &&& step.0 is RollingBack
    &&& step.1 == Deed::Remove(path.runtime().cleanup_call(path.name(), Cleanup::Remove))
}

/// A process that was started is the session's own; one that could not be
/// started is told with its cause.
pub proof fn started_processes_are_owned(path: Path, process: Process, cause: String)
    requires
        path.phase == Phase::Spawning,
        path.source matches Workload::Local { process: Some(given), .. } && given == process,
    ensures
        path.next(Event::Spawned(Ok(()))) == (Phase::Ended, Deed::Own(Owned::Process)),
        path.next(Event::Spawned(Err(cause))) == (
            Phase::Ended,
            Deed::Fail(
                Reason {
                    message: "starting local workload "@ + process.program,
                    cause: Some(cause@),
                },
            ),
        ),
{
}

/// A container that is stopped is started by a session and refused otherwise;
/// nothing is created for it.
pub proof fn stopped_containers_are_started_by_sessions(path: Path, output: ProcessOutput)
    requires
        path.phase == Phase::Inspecting,
        path.runtime().inspection(path.name(), output) == Ok::<Option<bool>, Seq<char>>(Some(false)),
    ensures
        path.lifecycle() == WorkloadLifecycle::Session ==> path.next(Event::Inspected(Ok(output)))
            == (
            Phase::Starting { created: false },
            Deed::Start(path.runtime().start_call(path.name())),
        ),
        path.lifecycle() == WorkloadLifecycle::Existing ==> fails(
            path.next(Event::Inspected(Ok(output))),
        ),
{
}

/// A container that is not there is created as its source provisions it. One
/// without a provision is refused, and so is one without an image.
pub proof fn missing_containers_are_created(path: Path, output: ProcessOutput)
    requires
        path.phase == Phase::Inspecting,
        path.runtime().inspection(path.name(), output) == Ok::<Option<bool>, Seq<char>>(None),
    ensures
        path.source matches Workload::Docker { container, provision: Some(image), .. }
            ==> if blank(image.image) {
            takes_back(path, path.next(Event::Inspected(Ok(output))))
        } else {
            path.next(Event::Inspected(Ok(output))) == (
                Phase::Creating,
                Deed::Create(docker_create_call(container, image)),
            )
        },
        path.source matches Workload::Lxc { container, provision: Some(system), .. } ==> path.next(
            Event::Inspected(Ok(output)),
        ) == (Phase::Creating, Deed::Create(lxc_create_call(container, system))),
        path.source matches Workload::Docker { provision: None, .. } ==> fails(
            path.next(Event::Inspected(Ok(output))),
        ),
        path.source matches Workload::Lxc { provision: None, .. } ==> fails(
            path.next(Event::Inspected(Ok(output))),
        ),
{
}

/// A container that was created is started by a session; a system first gets
/// its tools. Where the session may not start it, or it could not be created,
/// it is taken back.
pub proof fn created_containers_are_started(path: Path, exit: ExitReport, cause: String)
    requires
        path.phase == Phase::Creating,
        !(path.source is Local),
    ensures
        path.source is Docker && exit.success && path.lifecycle() == WorkloadLifecycle::Session
            ==> path.next(Event::Ran(Ok(exit))) == (
            Phase::Starting { created: true },
            Deed::Start(Runtime::Docker.start_call(path.name())),
        ),
        path.source is Docker && exit.success && path.lifecycle() == WorkloadLifecycle::Existing
            ==> takes_back(path, path.next(Event::Ran(Ok(exit)))),
        path.source is Lxc && exit.success ==> {
            let (phase, deed) = path.next(Event::Ran(Ok(exit)));
            &&& phase == Phase::Installing
            &&& deed matches Deed::Install { agent, engine }
            &&& agent == path.agent
            &&& path.engine is None ==> engine == "faultline-engine"@
            &&& path.engine matches Some(given) ==> engine == given
        },
        !exit.success ==> takes_back(path, path.next(Event::Ran(Ok(exit)))),
        takes_back(path, path.next(Event::Ran(Err(cause)))),
{
}

/// A system with its tools is started by a session; without them it is taken
/// back.
pub proof fn installed_systems_are_started(path: Path, message: String)
    requires
        path.phase == Phase::Installing,
        path.source is Lxc,
    ensures
        path.lifecycle() == WorkloadLifecycle::Session ==> path.next(Event::Installed(Ok(()))) == (
            Phase::Starting { created: true },
            Deed::Start(Runtime::Lxc.start_call(path.name())),
        ),
        path.lifecycle() == WorkloadLifecycle::Existing ==> takes_back(
            path,
            path.next(Event::Installed(Ok(()))),
        ),
        takes_back(path, path.next(Event::Installed(Err(message)))),
{
}

/// A container that was started is the session's own until it is cleaned up. One
/// that could not be started is taken back where it was created, and left as it
/// was where it was there before.
pub proof fn started_containers_are_owned(
    path: Path,
    created: bool,
    exit: ExitReport,
    cause: String,
)
    requires
        path.phase == (Phase::Starting { created }),
        !(path.source is Local),
    ensures
        exit.success ==> path.next(Event::Ran(Ok(exit))) == (
            Phase::Ended,
            Deed::Own(
                Owned::Container {
                    runtime: if path.source is Lxc {
                        Runtime::Lxc
                    } else {
                        Runtime::Docker
                    },
                    name: path.name(),
                    cleanup: cleanup_of(path.source, created),
                },
            ),
        ),
        !exit.success && created ==> takes_back(path, path.next(Event::Ran(Ok(exit)))),
        !exit.success && !created ==> fails(path.next(Event::Ran(Ok(exit)))),
        created ==> takes_back(path, path.next(Event::Ran(Err(cause)))),
        !created ==> fails(path.next(Event::Ran(Err(cause)))),
{
}

/// Once something was taken back, or could not be, the failure that led there
/// is told.
pub proof fn taken_back_failures_are_told(path: Path, reason: Reason, event: Event)
    requires
        path.phase == Phase::RollingBack(reason),
    ensures
        path.next(event) == (Phase::Ended, Deed::Fail(reason)),
{
}

/// Every step waits for what it asked for.
pub proof fn steps_wait_for_what_they_asked(path: Path, event: Event)
    ensures
        path.phase == Phase::Spawning ==> (fits(path.phase, event) <==> event is Spawned),
        path.phase == Phase::Inspecting ==> (fits(path.phase, event) <==> event is Inspected),
        path.phase == Phase::Installing ==> (fits(path.phase, event) <==> event is Installed),
        path.phase == Phase::Creating || path.phase is Starting || path.phase is RollingBack ==> (
        fits(path.phase, event) <==> event is Ran),
        path.phase == Phase::Ended ==> !fits(path.phase, event),
{
}

/// A container goes by its name, its runtime and who may start it.
pub proof fn containers_are_known_by_name(path: Path)
    ensures
        path.source matches Workload::Docker { container, lifecycle, .. } ==> path.runtime()
            == Runtime::Docker && path.name() == container && path.lifecycle() == lifecycle,
        path.source matches Workload::Lxc { container, lifecycle, .. } ==> path.runtime()
            == Runtime::Lxc && path.name() == container && path.lifecycle() == lifecycle,
{
}

/// A workload is spoken of by its runtime and its name, with words before and
/// behind.
pub proof fn workloads_are_spoken_of_by_name(before: Seq<char>, name: Seq<char>, behind: Seq<char>)
    ensures
        Runtime::Docker.about(before, name, behind) == before + "Docker"@ + " workload "@ + name
            + behind,
        Runtime::Lxc.about(before, name, behind) == before + "LXC"@ + " workload "@ + name + behind,
{
}

/// What went wrong is told of the workload by its name: that it could not be
/// inspected, does not exist, is stopped, or could not be created or started,
/// and how that ended.
pub proof fn failures_name_their_workload(
    path: Path,
    cause: String,
    exit: ExitReport,
    output: ProcessOutput,
)
    requires
        !(path.source is Local),
    ensures
        path.phase == Phase::Inspecting ==> {
            &&& path.next(Event::Inspected(Err(cause))).1 == Deed::Fail(
                Reason {
                    message: path.runtime().about("inspecting "@, path.name(), Seq::empty()),
                    cause: Some(cause@),
                },
            )
            &&& path.runtime().inspection(path.name(), output) == Ok::<Option<bool>, Seq<char>>(
                Some(false),
            ) && path.lifecycle() == WorkloadLifecycle::Existing ==> path.next(
                Event::Inspected(Ok(output)),
            ).1 == Deed::Fail(
                Reason {
                    message: "source workload is stopped; use lifecycle: session to let the TUI start it"@,
                    cause: None,
                },
            )
            &&& path.runtime().inspection(path.name(), output) == Ok::<Option<bool>, Seq<char>>(
                None,
            ) && unprovisioned(path.source) ==> path.next(Event::Inspected(Ok(output))).1
                == Deed::Fail(
                Reason {
                    message: path.runtime().about(
                        Seq::empty(),
                        path.name(),
                        " does not exist"@,
                    ),
                    cause: None,
                },
            )
        },
        path.phase == Phase::Creating ==> {
            &&& path.next(Event::Ran(Err(cause))).0 == Phase::RollingBack(
                Reason {
                    message: path.runtime().about("provisioning "@, path.name(), Seq::empty()),
                    cause: Some(cause@),
                },
            )
            &&& !exit.success ==> path.next(Event::Ran(Ok(exit))).0 == Phase::RollingBack(
                Reason {
                    message: path.runtime().about(
                        Seq::empty(),
                        path.name(),
                        " could not be provisioned: "@ + exit.status@,
                    ),
                    cause: None,
                },
            )
        },
        path.phase == (Phase::Starting { created: false }) ==> {
            &&& path.next(Event::Ran(Err(cause))).1 == Deed::Fail(
                Reason {
                    message: path.runtime().about("starting "@, path.name(), Seq::empty()),
                    cause: Some(cause@),
                },
            )
            &&& !exit.success ==> path.next(Event::Ran(Ok(exit))).1 == Deed::Fail(
                Reason {
                    message: path.runtime().about(
                        Seq::empty(),
                        path.name(),
                        " could not be started: "@ + exit.status@,
                    ),
                    cause: None,
                },
            )
        },
{
}

/// Whether a source says nothing of how its container is created.
pub open spec fn unprovisioned(source: Workload) -> bool {
    match source {
        Workload::Local { .. } => true,
        Workload::Docker { provision, .. } => provision is None,
        Workload::Lxc { provision, .. } => provision is None,
    }
}

} // verus!
