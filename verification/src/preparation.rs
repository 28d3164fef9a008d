//! Making the source of an experiment available, step by step: what is done
//! next, given how the step before ended. Ownership is narrow: what ran before
//! stays as it is, and what was created goes away again when a later step
//! fails.

use vstd::prelude::*;
use vstd::string::*;
use crate::common::FAULTLINE_ENGINE_APPLICATION;
use crate::container::{
    cleanup_decision, cleanup_of, docker_create_call, docker_create_command, lifecycle_decision,
    lxc_create_call, lxc_create_command, start_needed, Cleanup, Runtime,
};
use crate::invocation::{Call, ExitReport, Failure, Invocation, ProcessOutput, Reason};
use crate::text::{is_blank, blank, optional_text};
use crate::workload_spec::{
    LocalProcess, Process, Workload, WorkloadLifecycle, WorkloadSpec,
};

verus! {

/// The programs that a session brings along.
#[derive(Clone, Debug, PartialEq, Eq)]
pub struct Tooling {
    pub agent: String,
    pub engine: Option<String>,
}

/// What a session owns once its source is available.
#[derive(Clone, Debug, PartialEq, Eq)]
pub enum Ownership {
    Nothing,
    /// The process that was started.
    Process,
    /// A container, and what happens to it at the end.
    Container { runtime: Runtime, name: String, cleanup: Cleanup },
}

/// What is done next.
#[derive(Clone, Debug, PartialEq, Eq)]
pub enum Action {
    /// Start the local process of the source.
    Spawn(LocalProcess),
    /// Run a command and report what it wrote.
    Inspect(Invocation),
    /// Create the container.
    Create(Invocation),
    /// Copy the agent and the engine into the new container.
    Install { agent: String, engine: String },
    /// Start the container.
    Start(Invocation),
    /// Remove the container that was created.
    Remove(Invocation),
    /// The source is available.
    Own(Ownership),
    /// The source is not available.
    Fail(Failure),
}

/// How a step ended. Where the system refused it, its words are given.
#[derive(Debug, PartialEq, Eq)]
pub enum Event {
    Spawned(Result<(), String>),
    Inspected(Result<ProcessOutput, String>),
    Ran(Result<ExitReport, String>),
    Installed(Result<(), String>),
}

/// What is waited for.
#[derive(Clone, Debug, PartialEq, Eq)]
pub enum Stage {
    Spawning,
    Inspecting,
    Creating,
    Installing,
    Starting { created: bool },
    RollingBack(Failure),
    Ended,
}

/// The way to an available source.
#[derive(Clone, Debug, PartialEq, Eq)]
pub struct Preparation {
    pub source: WorkloadSpec,
    pub tooling: Tooling,
    pub stage: Stage,
}

/// What a session owns, as a value.
pub enum Owned {
    Nothing,
    Process,
    Container { runtime: Runtime, name: Seq<char>, cleanup: Cleanup },
}

impl View for Ownership {
    type V = Owned;

    open spec fn view(&self) -> Owned {
        match *self {
            Ownership::Nothing => Owned::Nothing,
            Ownership::Process => Owned::Process,
            Ownership::Container { runtime, name, cleanup } => Owned::Container {
                runtime,
                name: name@,
                cleanup,
            },
        }
    }
}

/// What is done next, as a value.
pub enum Deed {
    Spawn(Process),
    Inspect(Call),
    Create(Call),
    Install { agent: Seq<char>, engine: Seq<char> },
    Start(Call),
    Remove(Call),
    Own(Owned),
    Fail(Reason),
}

impl View for Action {
    type V = Deed;

    open spec fn view(&self) -> Deed {
        match *self {
            Action::Spawn(process) => Deed::Spawn(process@),
            Action::Inspect(command) => Deed::Inspect(command@),
            Action::Create(command) => Deed::Create(command@),
            Action::Install { agent, engine } => Deed::Install { agent: agent@, engine: engine@ },
            Action::Start(command) => Deed::Start(command@),
            Action::Remove(command) => Deed::Remove(command@),
            Action::Own(owned) => Deed::Own(owned@),
            Action::Fail(failure) => Deed::Fail(failure@),
        }
    }
}

/// What is waited for, as a value.
pub enum Phase {
    Spawning,
    Inspecting,
    Creating,
    Installing,
    Starting { created: bool },
    RollingBack(Reason),
    Ended,
}

impl View for Stage {
    type V = Phase;

    open spec fn view(&self) -> Phase {
        match *self {
            Stage::Spawning => Phase::Spawning,
            Stage::Inspecting => Phase::Inspecting,
            Stage::Creating => Phase::Creating,
            Stage::Installing => Phase::Installing,
            Stage::Starting { created } => Phase::Starting { created },
            Stage::RollingBack(failure) => Phase::RollingBack(failure@),
            Stage::Ended => Phase::Ended,
        }
    }
}

/// The way to an available source, as a value.
pub struct Path {
    pub source: Workload,
    pub agent: Seq<char>,
    pub engine: Option<Seq<char>>,
    pub phase: Phase,
}

impl View for Preparation {
    type V = Path;

    open spec fn view(&self) -> Path {
        Path {
            source: self.source@,
            agent: self.tooling.agent@,
            engine: optional_text(self.tooling.engine),
            phase: self.stage@,
        }
    }
}

/// Whether a step that is waited for can end this way.
pub open spec fn fits(phase: Phase, event: Event) -> bool {
    match phase {
        Phase::Spawning => event is Spawned,
        Phase::Inspecting => event is Inspected,
        Phase::Creating => event is Ran,
        Phase::Installing => event is Installed,
        Phase::Starting { .. } => event is Ran,
        Phase::RollingBack(_) => event is Ran,
        Phase::Ended => false,
    }
}

/// A failure without words of the system.
pub open spec fn plain(message: Seq<char>) -> Reason {
    Reason { message, cause: None }
}

/// The first step towards an available source.
pub open spec fn opening(source: Workload) -> (Phase, Deed) {
    match source {
        Workload::Local { process: Some(process), .. } => (Phase::Spawning, Deed::Spawn(process)),
        Workload::Local { process: None, .. } => (Phase::Ended, Deed::Own(Owned::Nothing)),
        Workload::Docker { container, .. } => (
            Phase::Inspecting,
            Deed::Inspect(Runtime::Docker.inspect_call(container)),
        ),
        Workload::Lxc { container, .. } => (
            Phase::Inspecting,
            Deed::Inspect(Runtime::Lxc.inspect_call(container)),
        ),
    }
}

impl Path {
    pub open spec fn runtime(self) -> Runtime {
        match self.source {
            Workload::Lxc { .. } => Runtime::Lxc,
            _ => Runtime::Docker,
        }
    }

    pub open spec fn name(self) -> Seq<char> {
        match self.source {
            Workload::Local { .. } => Seq::empty(),
            Workload::Docker { container, .. } => container,
            Workload::Lxc { container, .. } => container,
        }
    }

    pub open spec fn lifecycle(self) -> WorkloadLifecycle {
        match self.source {
            Workload::Local { .. } => WorkloadLifecycle::Existing,
            Workload::Docker { lifecycle, .. } => lifecycle,
            Workload::Lxc { lifecycle, .. } => lifecycle,
        }
    }

    /// Gives up. What was created is removed first.
    pub open spec fn given_up(self, created: bool, reason: Reason) -> (Phase, Deed) {
        if created {
            (
                Phase::RollingBack(reason),
                Deed::Remove(self.runtime().cleanup_call(self.name(), Cleanup::Remove)),
            )
        } else {
            (Phase::Ended, Deed::Fail(reason))
        }
    }

    /// Goes on once the container exists.
    pub open spec fn existing(self, running: bool, created: bool) -> (Phase, Deed) {
        match start_needed(self.lifecycle(), running) {
            Err(message) => self.given_up(created, plain(message)),
            Ok(false) => (Phase::Ended, Deed::Own(Owned::Nothing)),
            Ok(true) => (
                Phase::Starting { created },
                Deed::Start(self.runtime().start_call(self.name())),
            ),
        }
    }

    /// Goes on once the container is known not to exist.
    pub open spec fn missing(self) -> (Phase, Deed) {
        match self.source {
            Workload::Docker { provision: Some(provision), .. } => if blank(provision.image) {
                self.given_up(true, plain("Docker provision image must not be empty"@))
            } else {
                (Phase::Creating, Deed::Create(docker_create_call(self.name(), provision)))
            },
            Workload::Lxc { provision: Some(provision), .. } => (
                Phase::Creating,
                Deed::Create(lxc_create_call(self.name(), provision)),
            ),
            _ => self.given_up(
                false,
                plain(self.runtime().about(Seq::empty(), self.name(), " does not exist"@)),
            ),
        }
    }

    /// The next step, given how the one before ended.
    pub open spec fn next(self, event: Event) -> (Phase, Deed) {
        match (self.phase, event) {
            (Phase::Spawning, Event::Spawned(Ok(_))) => (Phase::Ended, Deed::Own(Owned::Process)),
            (Phase::Spawning, Event::Spawned(Err(cause))) => self.given_up(
                false,
                Reason {
                    message: "starting local workload "@ + self.program(),
                    cause: Some(cause@),
                },
            ),
            (Phase::Inspecting, Event::Inspected(Err(cause))) => self.given_up(
                false,
                Reason {
                    message: self.runtime().about("inspecting "@, self.name(), Seq::empty()),
                    cause: Some(cause@),
                },
            ),
            (Phase::Inspecting, Event::Inspected(Ok(output))) => match self.runtime().inspection(
                self.name(),
                output,
            ) {
                Err(message) => self.given_up(false, plain(message)),
                Ok(Some(running)) => self.existing(running, false),
                Ok(None) => self.missing(),
            },
            (Phase::Creating, Event::Ran(Err(cause))) => self.given_up(
                true,
                Reason {
                    message: self.runtime().about("provisioning "@, self.name(), Seq::empty()),
                    cause: Some(cause@),
                },
            ),
            (Phase::Creating, Event::Ran(Ok(exit))) => if !exit.success {
                self.given_up(
                    true,
                    plain(
                        self.runtime().about(
                            Seq::empty(),
                            self.name(),
                            " could not be provisioned: "@ + exit.status@,
                        ),
                    ),
                )
            } else if self.source is Lxc {
                (
                    Phase::Installing,
                    Deed::Install { agent: self.agent, engine: self.engine_name() },
                )
            } else {
                self.existing(false, true)
            },
            (Phase::Installing, Event::Installed(Err(message))) => self.given_up(
                true,
                plain(message@),
            ),
            (Phase::Installing, Event::Installed(Ok(_))) => self.existing(false, true),
            (Phase::Starting { created }, Event::Ran(Err(cause))) => self.given_up(
                created,
                Reason {
                    message: self.runtime().about("starting "@, self.name(), Seq::empty()),
                    cause: Some(cause@),
                },
            ),
            (Phase::Starting { created }, Event::Ran(Ok(exit))) => if exit.success {
                (
                    Phase::Ended,
                    Deed::Own(
                        Owned::Container {
                            runtime: self.runtime(),
                            name: self.name(),
                            cleanup: cleanup_of(self.source, created),
                        },
                    ),
                )
            } else {
                self.given_up(
                    created,
                    plain(
                        self.runtime().about(
                            Seq::empty(),
                            self.name(),
                            " could not be started: "@ + exit.status@,
                        ),
                    ),
                )
            },
            (Phase::RollingBack(reason), _) => (Phase::Ended, Deed::Fail(reason)),
            (phase, _) => (phase, Deed::Own(Owned::Nothing)),
        }
    }

    pub open spec fn program(self) -> Seq<char> {
        match self.source {
            Workload::Local { process: Some(process), .. } => process.program,
            _ => Seq::empty(),
        }
    }

    pub open spec fn engine_name(self) -> Seq<char> {
        match self.engine {
            Some(engine) => engine,
            None => FAULTLINE_ENGINE_APPLICATION@,
        }
    }

    /// Whether what is waited for goes with the source.
    pub open spec fn wf(self) -> bool {
        match self.phase {
            Phase::Spawning => self.source matches Workload::Local { process: Some(_), .. },
            Phase::Ended => true,
            Phase::Installing => self.source is Lxc,
            _ => !(self.source is Local),
        }
    }
}

fn failure(message: String, cause: Option<String>) -> (r: Failure)
    ensures
        r@ == (Reason { message: message@, cause: optional_text(cause) }),
{
    Failure { message, cause }
}

impl Preparation {
    /// Begins.
    pub fn new(source: WorkloadSpec, tooling: Tooling) -> (r: (Preparation, Action))
        ensures
            (r.0@.phase, r.1@) == opening(source@),
            r.0@.source == source@,
            r.0@.agent == tooling.agent@,
            r.0@.engine == optional_text(tooling.engine),
            r.0@.wf(),
    {
        let (stage, action) = match &source {
            WorkloadSpec::Local { process, .. } => match process {
                Some(process) => (Stage::Spawning, Action::Spawn(process.copy())),
                None => (Stage::Ended, Action::Own(Ownership::Nothing)),
            },
            WorkloadSpec::Docker { container, .. } => (
                Stage::Inspecting,
                Action::Inspect(Runtime::Docker.inspect_command(container.as_str())),
            ),
            WorkloadSpec::Lxc { container, .. } => (
                Stage::Inspecting,
                Action::Inspect(Runtime::Lxc.inspect_command(container.as_str())),
            ),
        };
        (Preparation { source, tooling, stage }, action)
    }

    fn runtime(&self) -> (r: Runtime)
        ensures
            r == self@.runtime(),
    {
        match &self.source {
            WorkloadSpec::Lxc { .. } => Runtime::Lxc,
            _ => Runtime::Docker,
        }
    }

    fn name(&self) -> (r: &str)
        ensures
            r@ == self@.name(),
    {
        proof {
            reveal_strlit("");
        }
        assert(""@ =~= Seq::<char>::empty());
        match &self.source {
            WorkloadSpec::Local { .. } => "",
            WorkloadSpec::Docker { container, .. } => container.as_str(),
            WorkloadSpec::Lxc { container, .. } => container.as_str(),
        }
    }

    fn lifecycle(&self) -> (r: WorkloadLifecycle)
        ensures
            r == self@.lifecycle(),
    {
        match &self.source {
            WorkloadSpec::Local { .. } => WorkloadLifecycle::Existing,
            WorkloadSpec::Docker { lifecycle, .. } => *lifecycle,
            WorkloadSpec::Lxc { lifecycle, .. } => *lifecycle,
        }
    }

    fn message(&self, before: &str, behind: &str) -> (r: String)
        ensures
            r@ == self@.runtime().about(before@, self@.name(), behind@),
    {
        self.runtime().message(before, self.name(), behind)
    }

    fn give_up(&self, created: bool, failure: Failure) -> (r: (Stage, Action))
        ensures
            (r.0@, r.1@) == self@.given_up(created, failure@),
    {
        if created {
            (
                Stage::RollingBack(failure),
                Action::Remove(self.runtime().cleanup_command(self.name(), Cleanup::Remove)),
            )
        } else {
            (Stage::Ended, Action::Fail(failure))
        }
    }

    fn is_there(&self, running: bool, created: bool) -> (r: (Stage, Action))
        ensures
            (r.0@, r.1@) == self@.existing(running, created),
    {
        match lifecycle_decision(self.lifecycle(), running) {
            Ok(start) => if start {
                (
                    Stage::Starting { created },
                    Action::Start(self.runtime().start_command(self.name())),
                )
            } else {
                (Stage::Ended, Action::Own(Ownership::Nothing))
            },
            Err(message) => self.give_up(created, failure(message, None)),
        }
    }

    fn is_missing(&self) -> (r: (Stage, Action))
        ensures
            (r.0@, r.1@) == self@.missing(),
    {
        proof {
            reveal_strlit("");
        }
        assert(""@ =~= Seq::<char>::empty());
        match &self.source {
            WorkloadSpec::Docker { container, provision: Some(provision), .. } => {
                if is_blank(provision.image.as_str()) {
                    return self.give_up(
                        true,
                        failure("Docker provision image must not be empty".to_owned(), None),
                    );
                }
                (
                    Stage::Creating,
                    Action::Create(docker_create_command(container.as_str(), provision)),
                )
            },
            WorkloadSpec::Lxc { container, provision: Some(provision), .. } => (
                Stage::Creating,
                Action::Create(lxc_create_command(container.as_str(), provision)),
            ),
            _ => self.give_up(false, failure(self.message("", " does not exist"), None)),
        }
    }

    fn inspected(&self, result: Result<ProcessOutput, String>) -> (r: (Stage, Action))
        requires
            self@.phase is Inspecting,
        ensures
            (r.0@, r.1@) == self@.next(Event::Inspected(result)),
    {
        proof {
            reveal_strlit("");
        }
        assert(""@ =~= Seq::<char>::empty());
        match result {
            Err(cause) => self.give_up(
                false,
                failure(self.message("inspecting ", ""), Some(cause)),
            ),
            Ok(output) => match self.runtime().inspect_running(self.name(), &output) {
                Err(message) => self.give_up(false, failure(message, None)),
                Ok(Some(running)) => self.is_there(running, false),
                Ok(None) => self.is_missing(),
            },
        }
    }

    fn created(&self, result: Result<ExitReport, String>) -> (r: (Stage, Action))
        requires
            self@.phase is Creating,
        ensures
            (r.0@, r.1@) == self@.next(Event::Ran(result)),
    {
        proof {
            reveal_strlit("");
        }
        assert(""@ =~= Seq::<char>::empty());
        match result {
            Err(cause) => self.give_up(
                true,
                failure(self.message("provisioning ", ""), Some(cause)),
            ),
            Ok(exit) => {
                if !exit.success {
                    let mut behind = " could not be provisioned: ".to_owned();
                    behind.append(exit.status.as_str());
                    return self.give_up(true, failure(self.message("", behind.as_str()), None));
                }
                match &self.source {
                    WorkloadSpec::Lxc { .. } => (
                        Stage::Installing,
                        Action::Install {
                            agent: self.tooling.agent.clone(),
                            engine: match &self.tooling.engine {
                                Some(engine) => engine.clone(),
                                None => FAULTLINE_ENGINE_APPLICATION.to_owned(),
                            },
                        },
                    ),
                    _ => self.is_there(false, true),
                }
            },
        }
    }

    fn started(&self, created: bool, result: Result<ExitReport, String>) -> (r: (Stage, Action))
        requires
            self@.phase == (Phase::Starting { created }),
        ensures
            (r.0@, r.1@) == self@.next(Event::Ran(result)),
    {
        proof {
            reveal_strlit("");
        }
        assert(""@ =~= Seq::<char>::empty());
        match result {
            Err(cause) => self.give_up(
                created,
                failure(self.message("starting ", ""), Some(cause)),
            ),
            Ok(exit) => {
                if !exit.success {
                    let mut behind = " could not be started: ".to_owned();
                    behind.append(exit.status.as_str());
                    return self.give_up(created, failure(self.message("", behind.as_str()), None));
                }
                (
                    Stage::Ended,
                    Action::Own(
                        Ownership::Container {
                            runtime: self.runtime(),
                            name: self.name().to_owned(),
                            cleanup: cleanup_decision(&self.source, created),
                        },
                    ),
                )
            },
        }
    }

    fn spawned(&self, result: Result<(), String>) -> (r: (Stage, Action))
        requires
            self@.phase is Spawning,
        ensures
            (r.0@, r.1@) == self@.next(Event::Spawned(result)),
    {
        match result {
            Ok(_) => (Stage::Ended, Action::Own(Ownership::Process)),
            Err(cause) => {
                let mut message = "starting local workload ".to_owned();
                match &self.source {
                    WorkloadSpec::Local { process: Some(process), .. } => {
                        message.append(process.program.as_str());
                    },
                    _ => {
                        proof {
                            reveal_strlit("");
                        }
                        assert(message@ + Seq::<char>::empty() =~= message@);
                    },
                }
                self.give_up(false, failure(message, Some(cause)))
            },
        }
    }

    /// Goes on, given how the step before ended.
    pub fn advance(&mut self, event: Event) -> (r: Action)
        requires
            old(self)@.wf(),
            fits(old(self)@.phase, event),
        ensures
            (final(self)@.phase, r@) == old(self)@.next(event),
            final(self)@.source == old(self)@.source,
            final(self)@.agent == old(self)@.agent,
            final(self)@.engine == old(self)@.engine,
            final(self)@.wf(),
    {
        let (stage, action) = match event {
            Event::Spawned(result) => self.spawned(result),
            Event::Inspected(result) => self.inspected(result),
            Event::Installed(result) => match result {
                Ok(_) => self.is_there(false, true),
                Err(message) => self.give_up(true, failure(message, None)),
            },
            Event::Ran(result) => match &self.stage {
                Stage::Creating => self.created(result),
                Stage::Starting { created } => self.started(*created, result),
                Stage::RollingBack(failed) => (
                    Stage::Ended,
                    Action::Fail(
                        Failure {
                            message: failed.message.clone(),
                            cause: crate::workload_spec::copy_optional_text(&failed.cause),
                        },
                    ),
                ),
                _ => (Stage::Ended, Action::Own(Ownership::Nothing)),
            },
        };
        self.stage = stage;
        action
    }
}

// ---------------------------------------------------------------------------
// Laws
// ---------------------------------------------------------------------------
/// The way after the first `n` of the steps that ended like this.
pub open spec fn travelled(begun: Path, events: Seq<Event>, n: nat) -> Path
    decreases n,
{
    if n == 0 {
        Path { phase: opening(begun.source).0, ..begun }
    } else {
        let before = travelled(begun, events, (n - 1) as nat);
        Path { phase: before.next(events[n - 1]).0, ..before }
    }
}

/// What is done after the first `n` of the steps that ended like this.
pub open spec fn done(begun: Path, events: Seq<Event>, n: nat) -> Deed {
    if n == 0 {
        opening(begun.source).1
    } else {
        travelled(begun, events, (n - 1) as nat).next(events[n - 1]).1
    }
}

/// Whether every step that was waited for ended as such a step can.
pub open spec fn in_turn(begun: Path, events: Seq<Event>) -> bool {
    forall|k: int|
        0 <= k < events.len() ==> fits(
            (#[trigger] travelled(begun, events, k as nat)).phase,
            events[k],
        )
}

/// Whether the inspection at a step found no container.
pub open spec fn found_none(begun: Path, events: Seq<Event>, k: int) -> bool {
    events[k] matches Event::Inspected(Ok(output)) && begun.runtime().inspection(
        begun.name(),
        output,
    ) == Ok::<Option<bool>, Seq<char>>(None)
}

/// Whether a session may have created the container by now.
pub open spec fn may_have_created(phase: Phase) -> bool {
    phase is Creating || phase is Installing || phase is RollingBack || phase == (
    Phase::Starting { created: true })
}

/// Whether an action removes the container, now or at the end of the session.
pub open spec fn removes(deed: Deed) -> bool {
    deed is Remove || (deed matches Deed::Own(Owned::Container { cleanup: Cleanup::Remove, .. }))
}

proof fn creation_follows_inspection(begun: Path, events: Seq<Event>, n: nat)
    requires
        n <= events.len(),
        in_turn(begun, events),
    ensures
        travelled(begun, events, n).source == begun.source,
        may_have_created(travelled(begun, events, n).phase) || removes(done(begun, events, n))
            ==> exists|k: int| 0 <= k < n && #[trigger] found_none(begun, events, k),
    decreases n,
{
    if n > 0 {
        let m = (n - 1) as nat;
        creation_follows_inspection(begun, events, m);
        let before = travelled(begun, events, m);
        assert(fits(before.phase, events[m as int]));
        if may_have_created(before.phase) {
            let k = choose|k: int| 0 <= k < m && #[trigger] found_none(begun, events, k);
            assert(0 <= k < n && found_none(begun, events, k));
        } else if before.phase is Inspecting {
            if may_have_created(travelled(begun, events, n).phase) {
                assert(found_none(begun, events, m as int));
            }
        }
    }
}

/// However a session goes, it removes a container, at once or at its end, only
/// after an inspection found that there was none of that name.
pub proof fn existing_containers_are_never_removed(begun: Path, events: Seq<Event>, n: nat)
    requires
        n <= events.len(),
        in_turn(begun, events),
        removes(done(begun, events, n)),
    ensures
        exists|k: int| 0 <= k < n && #[trigger] found_none(begun, events, k),
{
    creation_follows_inspection(begun, events, n);
}

/// A container that was found running is left alone: the session owns nothing
/// and has no further step.
pub proof fn running_containers_are_left_alone(path: Path, output: ProcessOutput)
    requires
        path.phase is Inspecting,
        path.runtime().inspection(path.name(), output) == Ok::<Option<bool>, Seq<char>>(Some(true)),
    ensures
        path.next(Event::Inspected(Ok(output))) == (Phase::Ended, Deed::Own(Owned::Nothing)),
{
}

/// A session that asked for a container to be created and then fails has asked
/// for its removal right before it reports the failure.
pub proof fn failures_leave_no_container(begun: Path, events: Seq<Event>, created: nat, n: nat)
    requires
        created < n <= events.len(),
        in_turn(begun, events),
        done(begun, events, created) is Create,
        done(begun, events, n) is Fail,
    ensures
        done(begun, events, (n - 1) as nat) is Remove,
{
    created_until_removed(begun, events, created, (n - 1) as nat);
    let before = travelled(begun, events, (n - 1) as nat);
    assert(fits(before.phase, events[n - 1]));
    rollback_removes(begun, events, (n - 1) as nat);
}

proof fn rollback_removes(begun: Path, events: Seq<Event>, n: nat)
    requires
        n <= events.len(),
        in_turn(begun, events),
        travelled(begun, events, n).phase is RollingBack,
    ensures
        done(begun, events, n) is Remove,
{
    if n > 0 {
        let before = travelled(begun, events, (n - 1) as nat);
        assert(fits(before.phase, events[n - 1]));
    }
}

proof fn created_until_removed(begun: Path, events: Seq<Event>, created: nat, n: nat)
    requires
        created <= n < events.len(),
        in_turn(begun, events),
        done(begun, events, created) is Create,
    ensures
        may_have_created(travelled(begun, events, n).phase),
    decreases n,
{
    if n == created {
        if n > 0 {
            let before = travelled(begun, events, (n - 1) as nat);
            assert(fits(before.phase, events[n - 1]));
        }
    } else {
        created_until_removed(begun, events, created, (n - 1) as nat);
        let before = travelled(begun, events, (n - 1) as nat);
        assert(fits(before.phase, events[n - 1]));
        let k = n as int;
        assert(fits(travelled(begun, events, k as nat).phase, events[k]));
    }
}

/// An inspection that failed, rather than found no container, creates nothing:
/// the session ends there.
pub proof fn failed_inspections_create_nothing(path: Path, result: Result<ProcessOutput, String>)
    requires
        path.phase is Inspecting,
        result matches Ok(output) ==> !output.exit.success && !path.runtime().says_missing(
            output.stderr@,
        ),
    ensures
        path.next(Event::Inspected(result)).0 is Ended,
        path.next(Event::Inspected(result)).1 is Fail,
{
}

} // verus!
