//! Containers as sources of traffic: how they are inspected, started, cleaned
//! up and attached to.

use vstd::prelude::*;
use vstd::string::*;
use crate::invocation::{Call, Invocation, ProcessOutput};
use crate::text::{
    lines, lines_from, push_text, same_text, slices, texts, trim, trimmed,
};
use crate::words::{
    add_text, join, joined, lowered, mentions, mentions_word, same_letters, sort_texts, sorted,
    with_text,
};
use crate::workload_spec::{
    pairs, AttachSpec, Container, DockerProvision, LxcProvision, System, Workload,
    WorkloadLifecycle, WorkloadSpec,
};

verus! {

/// The runtimes that hold containers.
#[derive(Clone, Copy, Debug, PartialEq, Eq, Structural)]
pub enum Runtime {
    Docker,
    Lxc,
}

/// What happens to a container at the end of a session.
#[derive(Clone, Copy, Debug, PartialEq, Eq, Structural)]
pub enum Cleanup {
    Stop,
    Remove,
}

impl Runtime {
    pub open spec fn title(self) -> Seq<char> {
        match self {
            Runtime::Docker => "Docker"@,
            Runtime::Lxc => "LXC"@,
        }
    }

    pub fn name(self) -> (r: &'static str)
        ensures
            r@ == self.title(),
    {
        match self {
            Runtime::Docker => "Docker",
            Runtime::Lxc => "LXC",
        }
    }

    /// `<before><runtime> workload <name><behind>`.
    pub open spec fn about(self, before: Seq<char>, name: Seq<char>, behind: Seq<char>) -> Seq<
        char,
    > {
        before + self.title() + " workload "@ + name + behind
    }

    /// Writes `<before><runtime> workload <name><behind>`.
    pub fn message(self, before: &str, name: &str, behind: &str) -> (r: String)
        ensures
            r@ == self.about(before@, name@, behind@),
    {
        let mut message = before.to_owned();
        message.append(self.name());
        message.append(" workload ");
        message.append(name);
        message.append(behind);
        message
    }

    pub open spec fn start_call(self, name: Seq<char>) -> Call {
        match self {
            Runtime::Docker => Call { program: "docker"@, args: seq!["start"@, name] },
            Runtime::Lxc => Call { program: "lxc-start"@, args: seq!["-n"@, name, "-d"@] },
        }
    }

    /// The command that starts a container.
    pub fn start_command(self, name: &str) -> (r: Invocation)
        ensures
            r@ == self.start_call(name@),
    {
        match self {
            Runtime::Docker => {
                let mut command = Invocation::new("docker");
                command.arg("start");
                command.arg(name);
                assert(command@.args =~= self.start_call(name@).args);
                command
            },
            Runtime::Lxc => {
                let mut command = Invocation::new("lxc-start");
                command.arg("-n");
                command.arg(name);
                command.arg("-d");
                assert(command@.args =~= self.start_call(name@).args);
                command
            },
        }
    }

    pub open spec fn inspect_call(self, name: Seq<char>) -> Call {
        match self {
            Runtime::Docker => Call {
                program: "docker"@,
                args: seq!["inspect"@, "--format"@, "{{.State.Running}}"@, name],
            },
            Runtime::Lxc => Call { program: "lxc-info"@, args: seq!["-n"@, name, "-sH"@] },
        }
    }

    /// The command that tells whether a container runs.
    pub fn inspect_command(self, name: &str) -> (r: Invocation)
        ensures
            r@ == self.inspect_call(name@),
    {
        match self {
            Runtime::Docker => {
                let mut command = Invocation::new("docker");
                command.arg("inspect");
                command.arg("--format");
                command.arg("{{.State.Running}}");
                command.arg(name);
                assert(command@.args =~= self.inspect_call(name@).args);
                command
            },
            Runtime::Lxc => {
                let mut command = Invocation::new("lxc-info");
                command.arg("-n");
                command.arg(name);
                command.arg("-sH");
                assert(command@.args =~= self.inspect_call(name@).args);
                command
            },
        }
    }

    /// Whether words on standard error say that a container does not exist.
    pub open spec fn says_missing(self, stderr: Seq<char>) -> bool {
        match self {
            Runtime::Docker => mentions(stderr, "no such object"@) || mentions(
                stderr,
                "no such container"@,
            ),
            Runtime::Lxc => mentions(stderr, "doesn't exist"@) || mentions(
                stderr,
                "does not exist"@,
            ),
        }
    }

    /// Whether words on standard output say that a container runs.
    pub open spec fn says_running(self, stdout: Seq<char>) -> bool {
        match self {
            Runtime::Docker => trimmed(stdout) == "true"@,
            Runtime::Lxc => lowered(trimmed(stdout)) == lowered("RUNNING"@),
        }
    }

    /// What an inspection found: a container that runs or not, or none at all.
    pub open spec fn inspection(self, name: Seq<char>, output: ProcessOutput) -> Result<
        Option<bool>,
        Seq<char>,
    > {
        if output.exit.success {
            Ok(Some(self.says_running(output.stdout@)))
        } else if self.says_missing(output.stderr@) {
            Ok(None)
        } else {
            Err(
                self.about(
                    Seq::empty(),
                    name,
                    " could not be inspected: "@ + trimmed(output.stderr@),
                ),
            )
        }
    }

    /// Reads what an inspection found. Only the words of the runtime tell a
    /// missing container from a failed inspection.
    pub fn inspect_running(self, name: &str, output: &ProcessOutput) -> (r: Result<
        Option<bool>,
        String,
    >)
        ensures
            match (r, self.inspection(name@, *output)) {
                (Ok(found), Ok(wanted)) => found == wanted,
                (Err(message), Err(wanted)) => message@ == wanted,
                _ => false,
            },
    {
        if !output.exit.success {
            let stderr = output.stderr.as_str();
            let missing = match self {
                Runtime::Docker => mentions_word(stderr, "no such object") || mentions_word(
                    stderr,
                    "no such container",
                ),
                Runtime::Lxc => mentions_word(stderr, "doesn't exist") || mentions_word(
                    stderr,
                    "does not exist",
                ),
            };
            if missing {
                return Ok(None);
            }
            let mut behind = " could not be inspected: ".to_owned();
            behind.append(trim(stderr));
            proof {
                reveal_strlit("");
            }
            assert(""@ =~= Seq::<char>::empty());
            return Err(self.message("", name, behind.as_str()));
        }
        let state = trim(output.stdout.as_str());
        Ok(
            Some(
                match self {
                    Runtime::Docker => same_text(state, "true"),
                    Runtime::Lxc => same_letters(state, "RUNNING"),
                },
            ),
        )
    }

    pub open spec fn cleanup_call(self, name: Seq<char>, cleanup: Cleanup) -> Call {
        match (self, cleanup) {
            (Runtime::Docker, Cleanup::Remove) => Call {
                program: "docker"@,
                args: seq!["rm"@, "--force"@, name],
            },
            (Runtime::Docker, Cleanup::Stop) => Call {
                program: "docker"@,
                args: seq!["stop"@, name],
            },
            (Runtime::Lxc, Cleanup::Remove) => Call {
                program: "lxc-destroy"@,
                args: seq!["-n"@, name, "-f"@],
            },
            (Runtime::Lxc, Cleanup::Stop) => Call {
                program: "lxc-stop"@,
                args: seq!["-n"@, name],
            },
        }
    }

    /// The command that stops or removes a container.
    pub fn cleanup_command(self, name: &str, cleanup: Cleanup) -> (r: Invocation)
        ensures
            r@ == self.cleanup_call(name@, cleanup),
    {
        match (self, cleanup) {
            (Runtime::Docker, Cleanup::Remove) => {
                let mut command = Invocation::new("docker");
                command.arg("rm");
                command.arg("--force");
                command.arg(name);
                assert(command@.args =~= self.cleanup_call(name@, cleanup).args);
                command
            },
            (Runtime::Docker, Cleanup::Stop) => {
                let mut command = Invocation::new("docker");
                command.arg("stop");
                command.arg(name);
                assert(command@.args =~= self.cleanup_call(name@, cleanup).args);
                command
            },
            (Runtime::Lxc, Cleanup::Remove) => {
                let mut command = Invocation::new("lxc-destroy");
                command.arg("-n");
                command.arg(name);
                command.arg("-f");
                assert(command@.args =~= self.cleanup_call(name@, cleanup).args);
                command
            },
            (Runtime::Lxc, Cleanup::Stop) => {
                let mut command = Invocation::new("lxc-stop");
                command.arg("-n");
                command.arg(name);
                assert(command@.args =~= self.cleanup_call(name@, cleanup).args);
                command
            },
        }
    }

    pub open spec fn interfaces_call(self, name: Seq<char>) -> Call {
        match self {
            Runtime::Docker => Call {
                program: "docker"@,
                args: seq!["exec"@, name, "ls"@, "-1"@, "/sys/class/net"@],
            },
            Runtime::Lxc => Call {
                program: "lxc-attach"@,
                args: seq!["-n"@, name, "--"@, "ls"@, "-1"@, "/sys/class/net"@],
            },
        }
    }

    /// The command that lists the interfaces of a container.
    pub fn interfaces_command(self, name: &str) -> (r: Invocation)
        ensures
            r@ == self.interfaces_call(name@),
    {
        match self {
            Runtime::Docker => {
                let mut command = Invocation::new("docker");
                command.arg("exec");
                command.arg(name);
                command.arg("ls");
                command.arg("-1");
                command.arg("/sys/class/net");
                assert(command@.args =~= self.interfaces_call(name@).args);
                command
            },
            Runtime::Lxc => {
                let mut command = Invocation::new("lxc-attach");
                command.arg("-n");
                command.arg(name);
                command.arg("--");
                command.arg("ls");
                command.arg("-1");
                command.arg("/sys/class/net");
                assert(command@.args =~= self.interfaces_call(name@).args);
                command
            },
        }
    }

    /// The interfaces that a container listed, or why they are not known.
    pub open spec fn listed(self, name: Seq<char>, output: ProcessOutput) -> Result<
        Seq<Seq<char>>,
        Seq<char>,
    > {
        if output.exit.success {
            Ok(names_in(lines_from(output.stdout@, 0), lines_from(output.stdout@, 0).len()))
        } else {
            Err(
                self.about(
                    "could not inspect interfaces in "@,
                    name,
                    ": "@ + trimmed(output.stderr@),
                ),
            )
        }
    }

    /// Reads the interfaces that a container listed.
    pub fn interfaces(self, name: &str, output: &ProcessOutput) -> (r: Result<Vec<String>, String>)
        ensures
            match (r, self.listed(name@, *output)) {
                (Ok(found), Ok(wanted)) => texts(found@) == wanted,
                (Err(message), Err(wanted)) => message@ == wanted,
                _ => false,
            },
    {
        if !output.exit.success {
            let mut behind = ": ".to_owned();
            behind.append(trim(output.stderr.as_str()));
            return Err(self.message("could not inspect interfaces in ", name, behind.as_str()));
        }
        Ok(listed_names(output.stdout.as_str()))
    }

    /// Why the interfaces of a container could not even be asked for.
    pub fn interfaces_context(self, name: &str) -> (r: String)
        ensures
            r@ == self.about("discovering interfaces in "@, name@, Seq::empty()),
    {
        proof {
            reveal_strlit("");
        }
        assert(""@ =~= Seq::<char>::empty());
        self.message("discovering interfaces in ", name, "")
    }
}

/// The names on the first `n` lines: a line without the white space around it,
/// unless nothing is left.
pub open spec fn names_in(list: Seq<Seq<char>>, n: nat) -> Seq<Seq<char>>
    decreases n,
{
    if n == 0 {
        Seq::empty()
    } else {
        let before = names_in(list, (n - 1) as nat);
        let name = trimmed(list[n - 1]);
        if name.len() == 0 {
            before
        } else {
            before.push(name)
        }
    }
}

/// The names that a command lists, one on a line.
pub fn listed_names(output: &str) -> (r: Vec<String>)
    ensures
        texts(r@) == names_in(lines_from(output@, 0), lines_from(output@, 0).len()),
{
    let rows = lines(output);
    let ghost wanted = lines_from(output@, 0);
    let mut names: Vec<String> = Vec::new();
    assert(texts(names@) =~= Seq::<Seq<char>>::empty());
    let mut index: usize = 0;
    while index < rows.len()
        invariant
            index <= rows@.len(),
            slices(rows@) == wanted,
            texts(names@) == names_in(wanted, index as nat),
        decreases rows@.len() - index,
    {
        assert(wanted[index as int] == rows@[index as int]@);
        let name = trim(rows[index]);
        if name.unicode_len() > 0 {
            push_text(&mut names, name);
        }
        index += 1;
    }
    assert(wanted.len() == rows@.len());
    names
}

/// The first `n` names of a list but for the loopback interface.
pub open spec fn without_loopback(list: Seq<Seq<char>>, n: nat) -> Seq<Seq<char>>
    decreases n,
{
    if n == 0 {
        Seq::empty()
    } else {
        let before = without_loopback(list, (n - 1) as nat);
        if list[n - 1] == "lo"@ {
            before
        } else {
            with_text(before, list[n - 1])
        }
    }
}

/// The one interface that a container has besides the loopback, or why there
/// is no such choice.
pub open spec fn only_interface(
    runtime: Seq<char>,
    name: Seq<char>,
    interfaces: Seq<Seq<char>>,
) -> Result<Seq<char>, Seq<char>> {
    let candidates = without_loopback(interfaces, interfaces.len());
    if candidates.len() == 1 {
        Ok(candidates[0])
    } else if candidates.len() == 0 {
        Err(runtime + " workload "@ + name + " has no non-loopback interface"@)
    } else {
        Err(
            runtime + " workload "@ + name + " has multiple interfaces; set one explicitly: "@
                + joined(candidates, ", "@, candidates.len()),
        )
    }
}

/// Chooses the one interface that a container has besides the loopback.
pub fn select_interface(runtime: &str, name: &str, interfaces: &Vec<String>) -> (r: Result<
    String,
    String,
>)
    ensures
        match (r, only_interface(runtime@, name@, texts(interfaces@))) {
            (Ok(interface), Ok(wanted)) => interface@ == wanted,
            (Err(message), Err(wanted)) => message@ == wanted,
            _ => false,
        },
{
    let ghost given = texts(interfaces@);
    let mut candidates: Vec<String> = Vec::new();
    assert(texts(candidates@) =~= Seq::<Seq<char>>::empty());
    let mut index: usize = 0;
    while index < interfaces.len()
        invariant
            index <= interfaces@.len(),
            given == texts(interfaces@),
            texts(candidates@) == without_loopback(given, index as nat),
        decreases interfaces@.len() - index,
    {
        assert(given[index as int] == interfaces@[index as int]@);
        if !same_text(interfaces[index].as_str(), "lo") {
            add_text(&mut candidates, interfaces[index].clone());
        }
        index += 1;
    }
    assert(texts(candidates@).len() == candidates@.len());
    if candidates.len() == 1 {
        assert(texts(candidates@)[0] == candidates@[0]@);
        return Ok(candidates[0].clone());
    }
    let mut message = runtime.to_owned();
    message.append(" workload ");
    message.append(name);
    if candidates.len() == 0 {
        message.append(" has no non-loopback interface");
    } else {
        message.append(" has multiple interfaces; set one explicitly: ");
        message.append(join(&candidates, ", ").as_str());
    }
    Err(message)
}

/// How often the interfaces of a container are asked for: a container may run
/// before it can be attached to.
pub const INTERFACE_ATTEMPTS: u32 = 20;

pub const INTERFACE_PAUSE_MS: u64 = 100;

/// Whether the interfaces are asked for again after the attempt with this
/// number, counted from zero.
pub fn asks_again(attempt: u32, found: bool) -> (r: bool)
    ensures
        r == (!found && attempt + 1 < INTERFACE_ATTEMPTS),
{
    !found && attempt < INTERFACE_ATTEMPTS - 1
}

/// What is known of the interfaces of a container, as a value.
pub open spec fn found_interfaces(found: Result<Vec<String>, String>) -> Result<
    Seq<Seq<char>>,
    Seq<char>,
> {
    match found {
        Ok(list) => Ok(texts(list@)),
        Err(message) => Err(message@),
    }
}

/// The interface of a container: the one it names, or the only one found.
pub open spec fn container_interface(
    runtime: Runtime,
    name: Seq<char>,
    interface: Seq<char>,
    found: Result<Seq<Seq<char>>, Seq<char>>,
) -> Result<Seq<char>, Seq<char>> {
    if interface != "auto"@ {
        Ok(interface)
    } else {
        match found {
            Err(message) => Err(message),
            Ok(list) => only_interface(runtime.title(), name, list),
        }
    }
}

/// Settles the interface of a container. What was found counts only where the
/// container leaves the choice open.
pub fn resolve_container_interface(
    runtime: Runtime,
    name: &str,
    interface: &str,
    found: &Result<Vec<String>, String>,
) -> (r: Result<String, String>)
    ensures
        match (r, container_interface(runtime, name@, interface@, found_interfaces(*found))) {
            (Ok(interface), Ok(wanted)) => interface@ == wanted,
            (Err(message), Err(wanted)) => message@ == wanted,
            _ => false,
        },
{
    if !same_text(interface, "auto") {
        return Ok(interface.to_owned());
    }
    match found {
        Ok(list) => select_interface(runtime.name(), name, list),
        Err(message) => Err(message.clone()),
    }
}

/// The interface that an experiment's source is attached to.
pub open spec fn source_interface(
    source: Workload,
    found: Result<Seq<Seq<char>>, Seq<char>>,
) -> Result<Seq<char>, Seq<char>> {
    match source {
        Workload::Local { interface, .. } => Ok(interface),
        Workload::Docker { container, interface, .. } => container_interface(
            Runtime::Docker,
            container,
            interface,
            found,
        ),
        Workload::Lxc { container, interface, .. } => container_interface(
            Runtime::Lxc,
            container,
            interface,
            found,
        ),
    }
}

/// The attach point of an experiment's source.
pub open spec fn attach_of(source: Workload, found: Result<Seq<Seq<char>>, Seq<char>>) -> Result<
    Workload,
    Seq<char>,
> {
    match source_interface(source, found) {
        Err(message) => Err(message),
        Ok(interface) => match source.resolution_error(interface) {
            Some(message) => Err(message),
            None => Ok(source.on_interface(interface)),
        },
    }
}

/// Settles the attach point of an experiment's source once it runs. An
/// interface that the source names is taken as it is.
pub fn resolve_attach(source: &WorkloadSpec, found: &Result<Vec<String>, String>) -> (r: Result<
    AttachSpec,
    String,
>)
    ensures
        match (r, attach_of(source@, found_interfaces(*found))) {
            (Ok(attach), Ok(wanted)) => attach@ == wanted,
            (Err(message), Err(wanted)) => message@ == wanted,
            _ => false,
        },
{
    let interface = match source {
        WorkloadSpec::Local { interface, .. } => Ok(interface.clone()),
        WorkloadSpec::Docker { container, interface, .. } => resolve_container_interface(
            Runtime::Docker,
            container.as_str(),
            interface.as_str(),
            found,
        ),
        WorkloadSpec::Lxc { container, interface, .. } => resolve_container_interface(
            Runtime::Lxc,
            container.as_str(),
            interface.as_str(),
            found,
        ),
    };
    match interface {
        Ok(interface) => source.resolved_attach(interface),
        Err(message) => Err(message),
    }
}

/// The containers and interfaces that an experiment can be about.
#[derive(Clone, Debug, PartialEq, Eq)]
pub struct Discovery {
    pub local_interfaces: Vec<String>,
    pub docker: Vec<String>,
    pub lxc: Vec<String>,
}

impl Default for Discovery {
    fn default() -> (r: Self)
        ensures
            r.local_interfaces@.len() == 0,
            r.docker@.len() == 0,
            r.lxc@.len() == 0,
    {
        Discovery { local_interfaces: Vec::new(), docker: Vec::new(), lxc: Vec::new() }
    }
}

/// Puts together what was found, with the interfaces in ascending order.
pub fn discover(interfaces: &Vec<String>, docker: Vec<String>, lxc: Vec<String>) -> (r: Discovery)
    ensures
        texts(r.local_interfaces@) == sorted(texts(interfaces@), interfaces@.len()),
        r.docker == docker,
        r.lxc == lxc,
{
    Discovery { local_interfaces: sort_texts(interfaces), docker, lxc }
}

/// The container of a source: its runtime, its name and whether it may be
/// started.
pub open spec fn container_source(source: Workload) -> Option<
    (Runtime, Seq<char>, WorkloadLifecycle),
> {
    match source {
        Workload::Local { .. } => None,
        Workload::Docker { container, lifecycle, .. } => Some(
            (Runtime::Docker, container, lifecycle),
        ),
        Workload::Lxc { container, lifecycle, .. } => Some((Runtime::Lxc, container, lifecycle)),
    }
}

/// Tells the container of a source.
pub fn runtime_source(source: &WorkloadSpec) -> (r: Option<(Runtime, &str, WorkloadLifecycle)>)
    ensures
        match (r, container_source(source@)) {
            (Some((runtime, name, lifecycle)), Some(wanted)) => (runtime, name@, lifecycle)
                == wanted,
            (None, None) => true,
            _ => false,
        },
{
    match source {
        WorkloadSpec::Local { .. } => None,
        WorkloadSpec::Docker { container, lifecycle, .. } => Some(
            (Runtime::Docker, container.as_str(), *lifecycle),
        ),
        WorkloadSpec::Lxc { container, lifecycle, .. } => Some(
            (Runtime::Lxc, container.as_str(), *lifecycle),
        ),
    }
}

/// Whether a workload has to be started, or why it may not be.
pub open spec fn start_needed(lifecycle: WorkloadLifecycle, running: bool) -> Result<
    bool,
    Seq<char>,
> {
    if running {
        Ok(false)
    } else {
        match lifecycle {
            WorkloadLifecycle::Session => Ok(true),
            WorkloadLifecycle::Existing => Err(
                "source workload is stopped; use lifecycle: session to let the TUI start it"@,
            ),
        }
    }
}

/// Decides whether a workload has to be started. One that runs is never
/// started again, and one that must exist is never started at all.
pub fn lifecycle_decision(lifecycle: WorkloadLifecycle, running: bool) -> (r: Result<bool, String>)
    ensures
        match (r, start_needed(lifecycle, running)) {
            (Ok(start), Ok(wanted)) => start == wanted,
            (Err(message), Err(wanted)) => message@ == wanted,
            _ => false,
        },
{
    if running {
        return Ok(false);
    }
    match lifecycle {
        WorkloadLifecycle::Session => Ok(true),
        WorkloadLifecycle::Existing => Err(
            "source workload is stopped; use lifecycle: session to let the TUI start it".to_owned(),
        ),
    }
}

/// Whether a source asks for the removal of what was created for it.
pub open spec fn removes_on_exit(source: Workload) -> bool {
    match source {
        Workload::Local { .. } => false,
        Workload::Docker { provision, .. } => provision matches Some(value)
            && value.remove_on_exit,
        Workload::Lxc { provision, .. } => provision matches Some(value) && value.remove_on_exit,
    }
}

/// What happens to a container at the end of a session.
pub open spec fn cleanup_of(source: Workload, provisioned: bool) -> Cleanup {
    if provisioned && removes_on_exit(source) {
        Cleanup::Remove
    } else {
        Cleanup::Stop
    }
}

/// Decides what happens to a container at the end of a session: only one that
/// was created for it, and is to be removed, is removed.
pub fn cleanup_decision(source: &WorkloadSpec, provisioned: bool) -> (r: Cleanup)
    ensures
        r == cleanup_of(source@, provisioned),
{
    let removed = match source {
        WorkloadSpec::Local { .. } => false,
        WorkloadSpec::Docker { provision, .. } => match provision {
            Some(value) => value.remove_on_exit,
            None => false,
        },
        WorkloadSpec::Lxc { provision, .. } => match provision {
            Some(value) => value.remove_on_exit,
            None => false,
        },
    };
    if provisioned && removed {
        Cleanup::Remove
    } else {
        Cleanup::Stop
    }
}

/// The arguments that set the first `n` variables of a container.
pub open spec fn variable_args(environment: Seq<(Seq<char>, Seq<char>)>, n: nat) -> Seq<Seq<char>>
    decreases n,
{
    if n == 0 {
        Seq::empty()
    } else {
        variable_args(environment, (n - 1) as nat) + seq![
            "--env"@,
            environment[n - 1].0 + "="@ + environment[n - 1].1,
        ]
    }
}

pub open spec fn docker_create_call(name: Seq<char>, provision: Container) -> Call {
    Call {
        program: "docker"@,
        args: seq!["create"@, "--name"@, name] + variable_args(
            provision.environment,
            provision.environment.len(),
        ) + seq![provision.image] + provision.command,
    }
}

/// The command that creates a Docker container.
pub fn docker_create_command(name: &str, provision: &DockerProvision) -> (r: Invocation)
    ensures
        r@ == docker_create_call(name@, provision@),
{
    let ghost environment = pairs(provision.environment@);
    let mut command = Invocation::new("docker");
    command.arg("create");
    command.arg("--name");
    command.arg(name);
    let ghost opening = seq!["create"@, "--name"@, name@];
    assert(command@.args =~= opening + variable_args(environment, 0));
    let mut index: usize = 0;
    while index < provision.environment.len()
        invariant
            index <= provision.environment@.len(),
            environment == pairs(provision.environment@),
            command@.program == "docker"@,
            command@.args == opening + variable_args(environment, index as nat),
        decreases provision.environment@.len() - index,
    {
        let entry = &provision.environment[index];
        assert(environment[index as int] == (entry.0@, entry.1@));
        let mut variable = entry.0.clone();
        variable.append("=");
        variable.append(entry.1.as_str());
        command.arg("--env");
        command.arg(variable.as_str());
        assert(command@.args =~= opening + variable_args(environment, (index + 1) as nat));
        index += 1;
    }
    command.arg(provision.image.as_str());
    command.args(&provision.command);
    assert(command@.args =~= docker_create_call(name@, provision@).args);
    command
}

pub open spec fn lxc_create_call(name: Seq<char>, provision: System) -> Call {
    Call {
        program: "lxc-create"@,
        args: seq![
            "-n"@,
            name,
            "-t"@,
            "download"@,
            "--"@,
            "--dist"@,
            provision.distribution,
            "--release"@,
            provision.release,
            "--arch"@,
            provision.architecture,
        ],
    }
}

/// The command that creates an LXC container.
pub fn lxc_create_command(name: &str, provision: &LxcProvision) -> (r: Invocation)
    ensures
        r@ == lxc_create_call(name@, provision@),
{
    let mut command = Invocation::new("lxc-create");
    command.arg("-n");
    command.arg(name);
    command.arg("-t");
    command.arg("download");
    command.arg("--");
    command.arg("--dist");
    command.arg(provision.distribution.as_str());
    command.arg("--release");
    command.arg(provision.release.as_str());
    command.arg("--arch");
    command.arg(provision.architecture.as_str());
    assert(command@.args =~= lxc_create_call(name@, provision@).args);
    command
}

/// Where a tool goes in the file system of a new LXC container: to its own
/// path if that is absolute, else among the locally installed programs.
pub open spec fn tool_path(
    name: Seq<char>,
    below_root: Option<Seq<char>>,
    file_name: Option<Seq<char>>,
) -> Option<Seq<char>> {
    let root = "/var/lib/lxc/"@ + name + "/rootfs/"@;
    match below_root {
        Some(path) => Some(root + path),
        None => match file_name {
            Some(file) => Some(root + "usr/local/bin/"@ + file),
            None => None,
        },
    }
}

/// Tells where a tool goes in the file system of a new LXC container, given the
/// part of its path below the root, if that is absolute, and its file name.
pub fn tool_destination(name: &str, below_root: Option<&str>, file_name: Option<&str>) -> (r: Result<
    String,
    String,
>)
    ensures
        match (
            r,
            tool_path(
                name@,
                match below_root {
                    Some(path) => Some(path@),
                    None => None,
                },
                match file_name {
                    Some(file) => Some(file@),
                    None => None,
                },
            ),
        ) {
            (Ok(path), Some(wanted)) => path@ == wanted,
            (Err(message), None) => message@ == "tool path has no filename"@,
            _ => false,
        },
{
    let mut root = "/var/lib/lxc/".to_owned();
    root.append(name);
    root.append("/rootfs/");
    match below_root {
        Some(path) => {
            root.append(path);
            Ok(root)
        },
        None => match file_name {
            Some(file) => {
                root.append("usr/local/bin/");
                root.append(file);
                Ok(root)
            },
            None => Err("tool path has no filename".to_owned()),
        },
    }
}

// ---------------------------------------------------------------------------
// Laws
// ---------------------------------------------------------------------------
/// A container that was there before the session is not removed at its end,
/// whatever its source says.
pub proof fn only_new_containers_are_removed(source: Workload, provisioned: bool)
    ensures
        cleanup_of(source, provisioned) == Cleanup::Remove ==> provisioned && removes_on_exit(
            source,
        ),
{
}

/// A settled attach point is concrete and belongs to its source.
pub proof fn attach_points_are_concrete(
    source: Workload,
    found: Result<Seq<Seq<char>>, Seq<char>>,
)
    requires
        attach_of(source, found) is Ok,
    ensures
        attach_of(source, found)->Ok_0.concrete_error() is None,
        source.attach_error(attach_of(source, found)->Ok_0) is None,
{
    crate::workload_spec::resolved_attach_is_concrete(
        source,
        source_interface(source, found)->Ok_0,
    );
}

} // verus!
