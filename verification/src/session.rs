//! Where a session runs: targets, and the commands that start the agent there.

use vstd::prelude::*;
use vstd::string::*;
use crate::container::{
    container_interface, found_interfaces, resolve_container_interface, without_loopback, Runtime,
};
use crate::invocation::{Call, Invocation};
use crate::text::{
    has_text, holds_text, optional_text, place_of, push_text, same_text, split_at_first, split_once,
    strip_prefix, texts, without_prefix,
};
use crate::words::{
    add_text, first_place, join, joined, split_at_word, split_word, stands_at, text_slot,
    text_slot_fits, with_text,
};

verus! {

/// The direction in which a session affects traffic.
#[derive(Clone, Copy, Debug, PartialEq, Eq, Structural)]
pub enum Direction {
    Auto,
    Ingress,
    Egress,
}

impl Default for Direction {
    fn default() -> (r: Self)
        ensures
            r == Direction::Auto,
    {
        Direction::Auto
    }
}

impl Direction {
    /// The direction in words. Targets name the interface of an endpoint,
    /// whose own traffic leaves through egress under every runtime; whoever
    /// watches from the other side of it asks for ingress.
    pub open spec fn word(self) -> Seq<char> {
        match self {
            Direction::Ingress => "ingress"@,
            Direction::Egress => "egress"@,
            Direction::Auto => "egress"@,
        }
    }

    /// The direction in words.
    pub fn effective(self, runtime: &str) -> (r: &'static str)
        ensures
            r@ == self.word(),
    {
        match self {
            Direction::Ingress => "ingress",
            Direction::Egress => "egress",
            Direction::Auto => "egress",
        }
    }
}

/// How a session is opened.
#[derive(Clone, Debug, PartialEq, Eq)]
pub struct SessionOptions {
    pub target: Option<String>,
    pub socket: Option<String>,
    pub destination: String,
    pub direction: Direction,
    pub agent: String,
    pub engine: Option<String>,
    pub agent_image: String,
}

/// How a session is opened, as a value.
pub struct Opening {
    pub target: Option<Seq<char>>,
    pub socket: Option<Seq<char>>,
    pub destination: Seq<char>,
    pub direction: Direction,
    pub agent: Seq<char>,
    pub engine: Option<Seq<char>>,
    pub agent_image: Seq<char>,
}

impl View for SessionOptions {
    type V = Opening;

    open spec fn view(&self) -> Opening {
        Opening {
            target: optional_text(self.target),
            socket: optional_text(self.socket),
            destination: self.destination@,
            direction: self.direction,
            agent: self.agent@,
            engine: optional_text(self.engine),
            agent_image: self.agent_image@,
        }
    }
}

impl Opening {
    /// The socket of a session that is already running, if one is named.
    pub open spec fn running_socket(self) -> Option<Seq<char>> {
        match self.socket {
            Some(path) => Some(path),
            None => match self.target {
                Some(target) => without_prefix(target, "unix://"@),
                None => None,
            },
        }
    }

    /// The arguments of the agent.
    pub open spec fn agent_args(self, interface: Seq<char>) -> Seq<Seq<char>> {
        seq![
            "--interface"@,
            interface,
            "--direction"@,
            self.direction.word(),
            "--destination"@,
            self.destination,
        ] + match self.engine {
            Some(engine) => seq!["--engine"@, engine],
            None => Seq::empty(),
        }
    }

    /// The command that starts the agent at a target, or why there is none.
    pub open spec fn agent_call(self, target: Seq<char>) -> Result<Call, Seq<char>> {
        match split_at_word(target, "://"@) {
            None => Err("target must contain ://"@),
            Some((runtime, location)) => if runtime == "local"@ {
                Ok(Call { program: self.agent, args: self.agent_args(location) })
            } else if runtime == "lxc"@ {
                match container_at(location) {
                    None => Err("container target must be CONTAINER/INTERFACE"@),
                    Some((container, interface)) => Ok(
                        Call {
                            program: "lxc-attach"@,
                            args: seq!["-n"@, container, "--"@, self.agent] + self.agent_args(
                                interface,
                            ),
                        },
                    ),
                }
            } else if runtime == "docker"@ {
                match container_at(location) {
                    None => Err("container target must be CONTAINER/INTERFACE"@),
                    Some((container, interface)) => Ok(
                        Call {
                            program: "docker"@,
                            args: seq![
                                "run"@,
                                "--rm"@,
                                "-i"@,
                                "--network"@,
                                "container:"@ + container,
                                "--cap-add"@,
                                "NET_ADMIN"@,
                                "--cap-add"@,
                                "BPF"@,
                                self.agent_image,
                            ] + self.agent_args(interface),
                        },
                    ),
                }
            } else {
                Err("unsupported target runtime "@ + runtime)
            },
        }
    }
}

/// The container and the interface of a location; without an interface the
/// choice is left open.
pub open spec fn container_at(location: Seq<char>) -> Option<(Seq<char>, Seq<char>)> {
    let (container, interface) = match split_at_first(location, '/') {
        Some(parts) => parts,
        None => (location, "auto"@),
    };
    if container.len() == 0 || interface.len() == 0 {
        None
    } else {
        Some((container, interface))
    }
}

/// Splits a location into container and interface.
pub fn container_target(location: &str) -> (r: Result<(&str, &str), String>)
    ensures
        match (r, container_at(location@)) {
            (Ok((container, interface)), Some(wanted)) => (container@, interface@) == wanted,
            (Err(message), None) => message@ == "container target must be CONTAINER/INTERFACE"@,
            _ => false,
        },
{
    let (container, interface) = match split_once(location, '/') {
        Some(parts) => parts,
        None => (location, "auto"),
    };
    if container.unicode_len() == 0 || interface.unicode_len() == 0 {
        Err("container target must be CONTAINER/INTERFACE".to_owned())
    } else {
        Ok((container, interface))
    }
}

/// Adds the arguments of the agent to a command.
pub fn agent_arguments(
    command: &mut Invocation,
    interface: &str,
    runtime: &str,
    options: &SessionOptions,
)
    ensures
        final(command)@.program == old(command)@.program,
        final(command)@.args == old(command)@.args + options@.agent_args(interface@),
{
    let ghost before = command@.args;
    command.arg("--interface");
    command.arg(interface);
    command.arg("--direction");
    command.arg(options.direction.effective(runtime));
    command.arg("--destination");
    command.arg(options.destination.as_str());
    if let Some(engine) = &options.engine {
        command.arg("--engine");
        command.arg(engine.as_str());
    }
    assert(command@.args =~= before + options@.agent_args(interface@));
}

/// The command that starts the agent at a target.
pub fn agent_command(target: &str, options: &SessionOptions) -> (r: Result<Invocation, String>)
    ensures
        match (r, options@.agent_call(target@)) {
            (Ok(command), Ok(wanted)) => command@ == wanted,
            (Err(message), Err(wanted)) => message@ == wanted,
            _ => false,
        },
{
    let (runtime, location) = match split_word(target, "://") {
        Some(parts) => parts,
        None => return Err("target must contain ://".to_owned()),
    };
    if same_text(runtime, "local") {
        let mut command = Invocation::new(options.agent.as_str());
        agent_arguments(&mut command, location, "local", options);
        assert(command@.args =~= options@.agent_args(location@));
        return Ok(command);
    }
    if same_text(runtime, "lxc") {
        let (container, interface) = match container_target(location) {
            Ok(parts) => parts,
            Err(message) => return Err(message),
        };
        let mut command = Invocation::new("lxc-attach");
        command.arg("-n");
        command.arg(container);
        command.arg("--");
        command.arg(options.agent.as_str());
        assert(command@.args =~= seq!["-n"@, container@, "--"@, options@.agent]);
        agent_arguments(&mut command, interface, "lxc", options);
        return Ok(command);
    }
    if same_text(runtime, "docker") {
        let (container, interface) = match container_target(location) {
            Ok(parts) => parts,
            Err(message) => return Err(message),
        };
        let mut network = "container:".to_owned();
        network.append(container);
        let mut command = Invocation::new("docker");
        command.arg("run");
        command.arg("--rm");
        command.arg("-i");
        command.arg("--network");
        command.arg(network.as_str());
        command.arg("--cap-add");
        command.arg("NET_ADMIN");
        command.arg("--cap-add");
        command.arg("BPF");
        command.arg(options.agent_image.as_str());
        assert(command@.args =~= seq![
            "run"@,
            "--rm"@,
            "-i"@,
            "--network"@,
            "container:"@ + container@,
            "--cap-add"@,
            "NET_ADMIN"@,
            "--cap-add"@,
            "BPF"@,
            options@.agent_image,
        ]);
        agent_arguments(&mut command, interface, "docker", options);
        return Ok(command);
    }
    let mut message = "unsupported target runtime ".to_owned();
    message.append(runtime);
    Err(message)
}

/// Tells the socket of a session that is already running, if one is named.
pub fn running_socket(options: &SessionOptions) -> (r: Option<String>)
    ensures
        optional_text(r) == options@.running_socket(),
{
    if let Some(path) = &options.socket {
        return Some(path.clone());
    }
    match &options.target {
        Some(target) => match strip_prefix(target.as_str(), "unix://") {
            Some(path) => Some(path.to_owned()),
            None => None,
        },
        None => None,
    }
}

/// How a session is called: its target and direction.
pub fn session_label(target: &str, direction: Direction) -> (r: String)
    ensures
        r@ == target@ + " ["@ + direction.word() + "]"@,
{
    let mut label = target.to_owned();
    label.append(" [");
    label.append(direction.effective(target));
    label.append("]");
    label
}

/// The address of a container whose interface is left open.
pub open spec fn open_uri(scheme: Seq<char>, name: Seq<char>) -> Seq<char> {
    scheme + name + "/auto"@
}

/// The first `n` containers of a list put into ordered targets.
pub open spec fn with_containers(
    targets: Seq<Seq<char>>,
    scheme: Seq<char>,
    names: Seq<Seq<char>>,
    n: nat,
) -> Seq<Seq<char>>
    decreases n,
{
    if n == 0 {
        targets
    } else {
        with_text(
            with_containers(targets, scheme, names, (n - 1) as nat),
            open_uri(scheme, names[n - 1]),
        )
    }
}

/// The targets that running containers offer.
pub open spec fn offered(docker: Seq<Seq<char>>, lxc: Seq<Seq<char>>) -> Seq<Seq<char>> {
    with_containers(
        with_containers(Seq::empty(), "docker://"@, docker, docker.len()),
        "lxc://"@,
        lxc,
        lxc.len(),
    )
}

fn add_containers(targets: &mut Vec<String>, scheme: &str, names: &Vec<String>)
    ensures
        texts(final(targets)@) == with_containers(
            texts(old(targets)@),
            scheme@,
            texts(names@),
            names@.len(),
        ),
{
    let ghost before = texts(targets@);
    let mut index: usize = 0;
    while index < names.len()
        invariant
            index <= names@.len(),
            texts(targets@) == with_containers(before, scheme@, texts(names@), index as nat),
        decreases names@.len() - index,
    {
        assert(texts(names@)[index as int] == names@[index as int]@);
        let mut uri = scheme.to_owned();
        uri.append(names[index].as_str());
        uri.append("/auto");
        add_text(targets, uri);
        index += 1;
    }
}

/// The targets that running containers offer, in ascending order.
pub fn discover_targets(docker: &Vec<String>, lxc: &Vec<String>) -> (r: Vec<String>)
    ensures
        texts(r@) == offered(texts(docker@), texts(lxc@)),
{
    let mut targets: Vec<String> = Vec::new();
    assert(texts(targets@) =~= Seq::<Seq<char>>::empty());
    add_containers(&mut targets, "docker://", docker);
    add_containers(&mut targets, "lxc://", lxc);
    targets
}

/// The runtime under which a target offers a container.
pub open spec fn offers(target: Seq<char>, container: Seq<char>) -> Option<Seq<char>> {
    let (scheme, location) = match without_prefix(target, "docker://"@) {
        Some(rest) => ("docker://"@, Some(rest)),
        None => ("lxc://"@, without_prefix(target, "lxc://"@)),
    };
    match location {
        None => None,
        Some(rest) => match split_at_first(rest, '/') {
            Some((name, _)) => if name == container {
                Some(scheme)
            } else {
                None
            },
            None => None,
        },
    }
}

/// The targets among the first `n` that offer a container, on an interface.
pub open spec fn candidates(
    targets: Seq<Seq<char>>,
    container: Seq<char>,
    interface: Seq<char>,
    n: nat,
) -> Seq<Seq<char>>
    decreases n,
{
    if n == 0 {
        Seq::empty()
    } else {
        let before = candidates(targets, container, interface, (n - 1) as nat);
        match offers(targets[n - 1], container) {
            Some(scheme) => before.push(scheme + container + "/"@ + interface),
            None => before,
        }
    }
}

/// The target that is asked for, given what running containers offer.
pub open spec fn chosen(requested: Option<Seq<char>>, targets: Seq<Seq<char>>) -> Result<
    Seq<char>,
    Seq<char>,
> {
    match requested {
        None => if targets.len() == 1 {
            Ok(targets[0])
        } else if targets.len() == 0 {
            Err(
                "no running Docker/LXC target found; specify local://IFACE or start a container"@,
            )
        } else {
            Err(
                "multiple targets found; select one of: "@ + joined(
                    targets,
                    ", "@,
                    targets.len(),
                ),
            )
        },
        Some(target) => match without_prefix(target, "auto://"@) {
            None => Ok(target),
            Some(location) => match container_at(location) {
                None => Err("container target must be CONTAINER/INTERFACE"@),
                Some((container, interface)) => {
                    let found = candidates(targets, container, interface, targets.len());
                    if found.len() == 1 {
                        Ok(found[0])
                    } else if found.len() == 0 {
                        Err("container "@ + container + " was not found in Docker or LXC"@)
                    } else {
                        Err(
                            "container "@ + container
                                + " exists in both Docker and LXC; use an explicit URI"@,
                        )
                    }
                },
            },
        },
    }
}

fn runtime_offering(target: &str, container: &str) -> (r: Option<&'static str>)
    ensures
        match (r, offers(target@, container@)) {
            (Some(scheme), Some(wanted)) => scheme@ == wanted,
            (None, None) => true,
            _ => false,
        },
{
    let (scheme, location) = match strip_prefix(target, "docker://") {
        Some(rest) => ("docker://", Some(rest)),
        None => ("lxc://", strip_prefix(target, "lxc://")),
    };
    match location {
        None => None,
        Some(rest) => match split_once(rest, '/') {
            Some((name, _)) => if same_text(name, container) {
                Some(scheme)
            } else {
                None
            },
            None => None,
        },
    }
}

fn find_container(container: &str, interface: &str, targets: &Vec<String>) -> (r: Vec<String>)
    ensures
        texts(r@) == candidates(texts(targets@), container@, interface@, targets@.len()),
{
    let mut found: Vec<String> = Vec::new();
    assert(texts(found@) =~= Seq::<Seq<char>>::empty());
    let mut index: usize = 0;
    while index < targets.len()
        invariant
            index <= targets@.len(),
            texts(found@) == candidates(
                texts(targets@),
                container@,
                interface@,
                index as nat,
            ),
        decreases targets@.len() - index,
    {
        assert(texts(targets@)[index as int] == targets@[index as int]@);
        if let Some(scheme) = runtime_offering(targets[index].as_str(), container) {
            let mut uri = scheme.to_owned();
            uri.append(container);
            uri.append("/");
            uri.append(interface);
            push_text(&mut found, uri.as_str());
        }
        index += 1;
    }
    found
}

/// Chooses the target that is asked for, given what running containers offer.
pub fn choose_target(requested: &Option<String>, targets: &Vec<String>) -> (r: Result<
    String,
    String,
>)
    ensures
        match (r, chosen(optional_text(*requested), texts(targets@))) {
            (Ok(target), Ok(wanted)) => target@ == wanted,
            (Err(message), Err(wanted)) => message@ == wanted,
            _ => false,
        },
{
    if let Some(target) = requested {
        let location = match strip_prefix(target.as_str(), "auto://") {
            Some(location) => location,
            None => return Ok(target.clone()),
        };
        let (container, interface) = match container_target(location) {
            Ok(parts) => parts,
            Err(message) => return Err(message),
        };
        let found = find_container(container, interface, targets);
        assert(texts(found@).len() == found@.len());
        if found.len() == 1 {
            assert(texts(found@)[0] == found@[0]@);
            return Ok(found[0].clone());
        }
        let mut message = "container ".to_owned();
        message.append(container);
        if found.len() == 0 {
            message.append(" was not found in Docker or LXC");
        } else {
            message.append(" exists in both Docker and LXC; use an explicit URI");
        }
        return Err(message);
    }
    assert(texts(targets@).len() == targets@.len());
    if targets.len() == 1 {
        assert(texts(targets@)[0] == targets@[0]@);
        return Ok(targets[0].clone());
    }
    if targets.len() == 0 {
        return Err(
            "no running Docker/LXC target found; specify local://IFACE or start a container".to_owned(),
        );
    }
    let mut message = "multiple targets found; select one of: ".to_owned();
    message.append(join(targets, ", ").as_str());
    Err(message)
}

/// A target by its parts.
#[derive(Clone, Debug, PartialEq, Eq)]
pub enum ExplicitTarget {
    Local { interface: String },
    Container { runtime: Runtime, container: String, interface: String },
}

/// A target by its parts, as values.
pub enum Site {
    Local { interface: Seq<char> },
    Container { runtime: Runtime, container: Seq<char>, interface: Seq<char> },
}

impl View for ExplicitTarget {
    type V = Site;

    open spec fn view(&self) -> Site {
        match *self {
            ExplicitTarget::Local { interface } => Site::Local { interface: interface@ },
            ExplicitTarget::Container { runtime, container, interface } => Site::Container {
                runtime,
                container: container@,
                interface: interface@,
            },
        }
    }
}

/// The parts of a target, or why it is none.
pub open spec fn site_of(target: Seq<char>) -> Result<Site, Seq<char>> {
    match split_at_word(target, "://"@) {
        None => Err("target must contain ://"@),
        Some((runtime, location)) => if runtime == "local"@ {
            if location.len() == 0 || location == "auto"@ {
                Err("local target requires an explicit interface"@)
            } else {
                Ok(Site::Local { interface: location })
            }
        } else if runtime == "lxc"@ || runtime == "docker"@ {
            match container_at(location) {
                None => Err("container target must be CONTAINER/INTERFACE"@),
                Some((container, interface)) => Ok(
                    Site::Container {
                        runtime: if runtime == "lxc"@ {
                            Runtime::Lxc
                        } else {
                            Runtime::Docker
                        },
                        container,
                        interface,
                    },
                ),
            }
        } else {
            Err("unsupported target runtime "@ + runtime)
        },
    }
}

/// Reads the parts of a target.
pub fn parse_target(target: &str) -> (r: Result<ExplicitTarget, String>)
    ensures
        match (r, site_of(target@)) {
            (Ok(parts), Ok(wanted)) => parts@ == wanted,
            (Err(message), Err(wanted)) => message@ == wanted,
            _ => false,
        },
{
    let (runtime, location) = match split_word(target, "://") {
        Some(parts) => parts,
        None => return Err("target must contain ://".to_owned()),
    };
    if same_text(runtime, "local") {
        if location.unicode_len() == 0 || same_text(location, "auto") {
            return Err("local target requires an explicit interface".to_owned());
        }
        return Ok(ExplicitTarget::Local { interface: location.to_owned() });
    }
    let holder = if same_text(runtime, "lxc") {
        Runtime::Lxc
    } else if same_text(runtime, "docker") {
        Runtime::Docker
    } else {
        let mut message = "unsupported target runtime ".to_owned();
        message.append(runtime);
        return Err(message);
    };
    match container_target(location) {
        Ok((container, interface)) => Ok(
            ExplicitTarget::Container {
                runtime: holder,
                container: container.to_owned(),
                interface: interface.to_owned(),
            },
        ),
        Err(message) => Err(message),
    }
}

/// Why a container cannot be attached to although it is named.
pub open spec fn unseen(runtime: Seq<char>, container: Seq<char>) -> Seq<char> {
    runtime + " container "@ + container
        + " is not running or is not visible; start it and check --list-targets"@
}

/// Checks that a container is among those that run.
pub fn validate_running_container(runtime: &str, container: &str, running: &Vec<String>) -> (r:
    Result<(), String>)
    ensures
        crate::protocol::reports(
            r,
            if holds_text(running@, container@) {
                None
            } else {
                Some(unseen(runtime@, container@))
            },
        ),
{
    if has_text(running, container) {
        return Ok(());
    }
    let mut message = runtime.to_owned();
    message.append(" container ");
    message.append(container);
    message.append(" is not running or is not visible; start it and check --list-targets");
    Err(message)
}

/// The target with its interface settled, given the containers that run and
/// the interfaces that were found in the one it names.
pub open spec fn settled_target(
    target: Seq<char>,
    running: Seq<String>,
    found: Result<Seq<Seq<char>>, Seq<char>>,
) -> Result<Seq<char>, Seq<char>> {
    match site_of(target) {
        Err(message) => Err(message),
        Ok(Site::Local { .. }) => Ok(target),
        Ok(Site::Container { runtime, container, interface }) => if !holds_text(
            running,
            container,
        ) {
            Err(unseen(runtime.title(), container))
        } else {
            match container_interface(runtime, container, interface, found) {
                Err(message) => Err(message),
                Ok(interface) => Ok(
                    match runtime {
                        Runtime::Docker => "docker://"@,
                        Runtime::Lxc => "lxc://"@,
                    } + container + "/"@ + interface,
                ),
            }
        },
    }
}

/// Settles the interface of a target.
pub fn resolve_explicit_target(
    target: &str,
    running: &Vec<String>,
    found: &Result<Vec<String>, String>,
) -> (r: Result<String, String>)
    ensures
        match (r, settled_target(target@, running@, found_interfaces(*found))) {
            (Ok(target), Ok(wanted)) => target@ == wanted,
            (Err(message), Err(wanted)) => message@ == wanted,
            _ => false,
        },
{
    let (runtime, container, interface) = match parse_target(target) {
        Err(message) => return Err(message),
        Ok(ExplicitTarget::Local { .. }) => return Ok(target.to_owned()),
        Ok(ExplicitTarget::Container { runtime, container, interface }) => (
            runtime,
            container,
            interface,
        ),
    };
    match validate_running_container(runtime.name(), container.as_str(), running) {
        Ok(_) => {},
        Err(message) => return Err(message),
    }
    let settled = match resolve_container_interface(
        runtime,
        container.as_str(),
        interface.as_str(),
        found,
    ) {
        Ok(interface) => interface,
        Err(message) => return Err(message),
    };
    let mut uri = match runtime {
        Runtime::Docker => "docker://".to_owned(),
        Runtime::Lxc => "lxc://".to_owned(),
    };
    uri.append(container.as_str());
    uri.append("/");
    uri.append(settled.as_str());
    Ok(uri)
}

/// Settles the target that is asked for, given what running containers offer,
/// the containers that run under its runtime, and the interfaces that were
/// found in the one it names.
pub fn resolve_target(
    requested: &Option<String>,
    targets: &Vec<String>,
    running: &Vec<String>,
    found: &Result<Vec<String>, String>,
) -> (r: Result<String, String>)
    ensures
        match (
            r,
            match chosen(optional_text(*requested), texts(targets@)) {
                Err(message) => Err(message),
                Ok(target) => settled_target(target, running@, found_interfaces(*found)),
            },
        ) {
            (Ok(target), Ok(wanted)) => target@ == wanted,
            (Err(message), Err(wanted)) => message@ == wanted,
            _ => false,
        },
{
    match choose_target(requested, targets) {
        Ok(target) => resolve_explicit_target(target.as_str(), running, found),
        Err(message) => Err(message),
    }
}

/// How a process that should end is doing.
#[derive(Clone, Copy, Debug, PartialEq, Eq, Structural)]
pub enum ChildState {
    Ended,
    Running,
    Unknown,
}

/// What is done about a process that should end.
#[derive(Clone, Copy, Debug, PartialEq, Eq, Structural)]
pub enum Reaping {
    Done,
    Wait,
    Kill,
}

/// Decides about a process that should end: it is waited for until the
/// deadline and ended by force after it.
pub fn reap(state: ChildState, before_deadline: bool) -> (r: Reaping)
    ensures
        r == (match state {
            ChildState::Ended => Reaping::Done,
            ChildState::Unknown => Reaping::Kill,
            ChildState::Running => if before_deadline {
                Reaping::Wait
            } else {
                Reaping::Kill
            },
        }),
{
    match state {
        ChildState::Ended => Reaping::Done,
        ChildState::Unknown => Reaping::Kill,
        ChildState::Running => if before_deadline {
            Reaping::Wait
        } else {
            Reaping::Kill
        },
    }
}

// ---------------------------------------------------------------------------
// Laws
// ---------------------------------------------------------------------------
/// What comes before the first occurrence of a character does not hold it.
proof fn place_is_first(text: Seq<char>, c: char, from: int)
    requires
        0 <= from <= text.len(),
    ensures
        from <= place_of(text, c, from) <= text.len(),
        forall|i: int| from <= i < place_of(text, c, from) ==> #[trigger] text[i] != c,
    decreases text.len() - from,
{
    if from < text.len() && text[from] != c {
        place_is_first(text, c, from + 1);
    }
}

proof fn place_behind(before: Seq<char>, c: char, behind: Seq<char>, from: int)
    requires
        forall|i: int| 0 <= i < before.len() ==> #[trigger] before[i] != c,
        0 <= from <= before.len(),
    ensures
        place_of(before + seq![c] + behind, c, from) == before.len(),
    decreases before.len() - from,
{
    let text = before + seq![c] + behind;
    if from < before.len() {
        assert(text[from] == before[from]);
        place_behind(before, c, behind, from + 1);
    } else {
        assert(text[from] == c);
    }
}

proof fn containers_hold_no_slash(location: Seq<char>)
    requires
        container_at(location) is Some,
    ensures
        container_at(location) matches Some((container, _)) ==> forall|i: int|
            0 <= i < container.len() ==> #[trigger] container[i] != '/',
{
    place_is_first(location, '/', 0);
}

proof fn container_uri_splits(scheme: Seq<char>, runtime: Seq<char>, location: Seq<char>)
    requires
        (scheme == "docker://"@ && runtime == "docker"@) || (scheme == "lxc://"@ && runtime
            == "lxc"@),
    ensures
        split_at_word(scheme + location, "://"@) == Some((runtime, location)),
{
    reveal_strlit("docker://");
    reveal_strlit("docker");
    reveal_strlit("lxc://");
    reveal_strlit("lxc");
    reveal_strlit("://");
    let uri = scheme + location;
    let word = "://"@;
    let at = runtime.len() as int;
    assert forall|i: int| 0 <= i < at implies !stands_at(uri, word, i) by {
        if stands_at(uri, word, i) {
            assert(uri.subrange(i, i + word.len())[0] == uri[i]);
            assert(word[0] == ':');
        }
    }
    assert(uri.subrange(at, at + word.len()) =~= word);
    reveal_with_fuel(first_place, 8);
    assert(first_place(uri, word, 0) == Some(at));
    assert(uri.subrange(0, at) =~= runtime);
    assert(uri.subrange(at + word.len(), uri.len() as int) =~= location);
}

/// The agent can be started wherever a target was settled, provided that the
/// interfaces that were found have names.
pub proof fn settled_targets_have_an_agent(
    options: Opening,
    target: Seq<char>,
    running: Seq<String>,
    found: Result<Seq<Seq<char>>, Seq<char>>,
)
    requires
        settled_target(target, running, found) is Ok,
        found matches Ok(list) ==> forall|i: int| 0 <= i < list.len() ==> (#[trigger] list[i]).len() > 0,
    ensures
        options.agent_call(settled_target(target, running, found)->Ok_0) is Ok,
{
    let uri = settled_target(target, running, found)->Ok_0;
    reveal_strlit("local");
    reveal_strlit("lxc");
    reveal_strlit("docker");
    reveal_strlit("/");
    match site_of(target)->Ok_0 {
        Site::Local { .. } => {},
        Site::Container { runtime, container, interface } => {
            let (_, location) = split_at_word(target, "://"@)->0;
            containers_hold_no_slash(location);
            let settled = container_interface(runtime, container, interface, found)->Ok_0;
            if interface == "auto"@ {
                let list = found->Ok_0;
                reveal_strlit("auto");
                candidates_come_from(list, list.len());
            }
            let rest = container + "/"@ + settled;
            assert("/"@ =~= seq!['/']);
            place_behind(container, '/', settled, 0);
            assert(rest.subrange(0, container.len() as int) =~= container);
            assert(rest.subrange(container.len() as int + 1, rest.len() as int) =~= settled);
            assert(container_at(rest) == Some((container, settled)));
            match runtime {
                Runtime::Docker => {
                    container_uri_splits("docker://"@, "docker"@, rest);
                    assert(uri =~= "docker://"@ + rest);
                    assert("docker"@ != "local"@ && "docker"@ != "lxc"@) by {
                        assert("docker"@.len() == 6);
                    }
                },
                Runtime::Lxc => {
                    container_uri_splits("lxc://"@, "lxc"@, rest);
                    assert(uri =~= "lxc://"@ + rest);
                    assert("lxc"@ != "local"@) by {
                        assert("lxc"@.len() == 3);
                    }
                },
            }
        },
    }
}

proof fn candidates_come_from(list: Seq<Seq<char>>, n: nat)
    requires
        n <= list.len(),
        forall|i: int| 0 <= i < list.len() ==> (#[trigger] list[i]).len() > 0,
    ensures
        forall|i: int|
            0 <= i < without_loopback(list, n).len() ==> (#[trigger] without_loopback(
                list,
                n,
            )[i]).len() > 0,
    decreases n,
{
    if n > 0 {
        let m = (n - 1) as nat;
        candidates_come_from(list, m);
        let before = without_loopback(list, m);
        let text = list[m as int];
        let grown = with_text(before, text);
        text_slot_fits(before, text, 0);
        let at = text_slot(before, text, 0);
        assert forall|i: int| 0 <= i < grown.len() implies (#[trigger] grown[i]).len() > 0 by {
            if grown != before {
                if i < at {
                    assert(grown[i] == before[i]);
                } else if i == at {
                    assert(grown[i] == text);
                } else {
                    assert(grown[i] == before[i - 1]);
                }
            }
        }
    }
}

} // verus!
