//! The short-lived worker that owns one engine on behalf of a controller.

use vstd::prelude::*;
use vstd::string::*;
use crate::protocol::Request;
use crate::text::{
    decimal, digits, hex_value, lines, lines_from, parse_hex, push_text, quoted, quoted_text,
    slices, strip_prefix, texts, trim, trimmed, without_prefix,
};

verus! {

pub const CAP_NET_ADMIN: u32 = 12;

pub const CAP_SYS_ADMIN: u32 = 21;

pub const CAP_BPF: u32 = 39;

/// Attempts at connecting to a starting engine.
pub const CONNECT_ATTEMPTS: usize = 100;

/// Where on an interface the engine works.
#[derive(Clone, Copy, Debug, PartialEq, Eq, Structural)]
pub enum Direction {
    Ingress,
    Egress,
}

impl Direction {
    pub open spec fn name(self) -> Seq<char> {
        match self {
            Direction::Ingress => "ingress"@,
            Direction::Egress => "egress"@,
        }
    }

    pub fn as_str(self) -> (r: &'static str)
        ensures
            r@ == self.name(),
    {
        match self {
            Direction::Ingress => "ingress",
            Direction::Egress => "egress",
        }
    }
}

/// The options of one agent.
#[derive(Clone, Debug, PartialEq, Eq)]
pub struct Options {
    pub engine: String,
    pub interface: String,
    pub direction: Direction,
    pub destination: String,
    pub protocol: String,
    pub port: u16,
}

impl Options {
    /// The arguments of the engine: the whole filter of the session, no loss
    /// yet, and the socket through which rules arrive.
    pub open spec fn engine_arguments(self, socket: Seq<char>) -> Seq<Seq<char>> {
        seq![
            "--interface"@,
            self.interface@,
            "--direction"@,
            self.direction.name(),
            "--destination"@,
            self.destination@,
            "--protocol"@,
            self.protocol@,
            "--port"@,
            digits(self.port as nat),
            "--loss"@,
            "0"@,
            "--control-socket"@,
            socket,
        ]
    }

    /// The program and the arguments that start the engine.
    pub fn engine_command(&self, socket: &str) -> (r: (String, Vec<String>))
        ensures
            r.0@ == self.engine@,
            texts(r.1@) == self.engine_arguments(socket@),
    {
        let mut args: Vec<String> = Vec::new();
        assert(texts(args@) =~= Seq::<Seq<char>>::empty());
        push_text(&mut args, "--interface");
        push_text(&mut args, self.interface.as_str());
        push_text(&mut args, "--direction");
        push_text(&mut args, self.direction.as_str());
        push_text(&mut args, "--destination");
        push_text(&mut args, self.destination.as_str());
        push_text(&mut args, "--protocol");
        push_text(&mut args, self.protocol.as_str());
        push_text(&mut args, "--port");
        let port = decimal(self.port as u64);
        push_text(&mut args, port.as_str());
        push_text(&mut args, "--loss");
        push_text(&mut args, "0");
        push_text(&mut args, "--control-socket");
        push_text(&mut args, socket);
        assert(texts(args@) =~= self.engine_arguments(socket@));
        (self.engine.clone(), args)
    }
}

/// The socket path of an agent process.
pub fn socket_path(process_id: u32) -> (r: String)
    ensures
        r@ == "/tmp/faultline-agent-"@ + digits(process_id as nat) + ".sock"@,
{
    let mut path = "/tmp/faultline-agent-".to_owned();
    path.append(decimal(process_id as u64).as_str());
    path.append(".sock");
    path
}

/// What one attempt at connecting to the engine found.
#[derive(Clone, Debug, PartialEq, Eq)]
pub enum Attempt {
    Connected,
    /// The engine ended before it opened its socket; how it ended.
    Exited(String),
    NotYet,
}

/// What is done after an attempt.
#[derive(Clone, Debug, PartialEq, Eq)]
pub enum ConnectStep {
    Connected,
    Failed(String),
    /// Wait a moment and try again.
    Retry,
}

/// Decides how the `made`-th attempt goes on: a hundred are made at most, and
/// an engine that ended is not waited for.
pub fn after_attempt(made: usize, attempt: Attempt, socket: &str) -> (r: ConnectStep)
    ensures
        match attempt {
            Attempt::Connected => r == ConnectStep::Connected,
            Attempt::Exited(status) => r matches ConnectStep::Failed(message) && message@
                == "faultline-engine exited before opening control socket: "@ + status@,
            Attempt::NotYet => if made >= CONNECT_ATTEMPTS {
                r matches ConnectStep::Failed(message) && message@ == "faultline-engine did not open "@
                    + socket@
            } else {
                r == ConnectStep::Retry
            },
        },
{
    match attempt {
        Attempt::Connected => ConnectStep::Connected,
        Attempt::Exited(status) => {
            let mut message = "faultline-engine exited before opening control socket: ".to_owned();
            message.append(status.as_str());
            ConnectStep::Failed(message)
        },
        Attempt::NotYet => {
            if made >= CONNECT_ATTEMPTS {
                let mut message = "faultline-engine did not open ".to_owned();
                message.append(socket);
                ConnectStep::Failed(message)
            } else {
                ConnectStep::Retry
            }
        },
    }
}

/// Judges how the engine ended.
pub fn engine_result(success: bool, status: &str) -> (r: Result<(), String>)
    ensures
        match r {
            Ok(_) => success,
            Err(message) => !success && message@ == "faultline-engine engine exited with "@
                + status@,
        },
{
    if success {
        return Ok(());
    }
    let mut message = "faultline-engine engine exited with ".to_owned();
    message.append(status);
    Err(message)
}

/// Which side ended the exchange between controller and engine.
#[derive(Clone, Copy, Debug, PartialEq, Eq, Structural)]
pub enum ProxyEnd {
    Engine,
    Input,
    Output,
}

/// Whether the engine's own end is awaited after the exchange: only where the
/// engine closed it. Either half of the controller ends the session at once.
pub fn awaits_engine(end: ProxyEnd) -> (r: bool)
    ensures
        r == (end == ProxyEnd::Engine),
{
    match end {
        ProxyEnd::Engine => true,
        ProxyEnd::Input => false,
        ProxyEnd::Output => false,
    }
}

/// Which end counts. When the input ended first, the output gets a bounded
/// time to deliver what the engine still says, and its end counts if it comes
/// within that time.
pub fn settle_proxy(first: ProxyEnd, within_grace: Option<ProxyEnd>) -> (r: ProxyEnd)
    ensures
        r == (if first == ProxyEnd::Input && within_grace is Some {
            within_grace->0
        } else {
            first
        }),
{
    match (first, within_grace) {
        (ProxyEnd::Input, Some(end)) => end,
        _ => first,
    }
}

/// The request that is sent on behalf of a controller that closed its input.
pub fn closing_request() -> (r: Request)
    ensures
        r == (Request::Stop { id: u64::MAX }),
{
    Request::Stop { id: u64::MAX }
}

/// How an input or output operation failed.
#[derive(Clone, Copy, Debug, PartialEq, Eq, Structural)]
pub enum StreamError {
    BrokenPipe,
    ConnectionReset,
    Other,
}

/// Whether a failure only says that the other side left.
pub fn is_disconnect(error: StreamError) -> (r: bool)
    ensures
        r == (error == StreamError::BrokenPipe || error == StreamError::ConnectionReset),
{
    match error {
        StreamError::BrokenPipe => true,
        StreamError::ConnectionReset => true,
        StreamError::Other => false,
    }
}

/// The text behind the first `CapEff:` among the lines from `from` on, without
/// the white space around it.
pub open spec fn effective_text(lines: Seq<Seq<char>>, from: int) -> Option<Seq<char>>
    decreases lines.len() - from,
{
    if from >= lines.len() {
        None
    } else {
        match without_prefix(lines[from], "CapEff:"@) {
            Some(rest) => Some(trimmed(rest)),
            None => effective_text(lines, from + 1),
        }
    }
}

/// The effective capabilities that a process status states.
pub open spec fn effective_mask(status: Seq<char>) -> Result<u64, Seq<char>> {
    match effective_text(lines_from(status, 0), 0) {
        None => Err("/proc/self/status does not contain CapEff"@),
        Some(text) => match hex_value(text) {
            Some(mask) => Ok(mask),
            None => Err("invalid CapEff value "@ + quoted_text(text)),
        },
    }
}

/// Reads the effective capabilities of a process off its status.
pub fn parse_effective_capabilities(status: &str) -> (r: Result<u64, String>)
    ensures
        match (r, effective_mask(status@)) {
            (Ok(actual), Ok(wanted)) => actual == wanted,
            (Err(message), Err(wanted)) => message@ == wanted,
            _ => false,
        },
{
    let all = lines(status);
    let mut index: usize = 0;
    while index < all.len()
        invariant
            index <= all@.len(),
            slices(all@) == lines_from(status@, 0),
            effective_text(slices(all@), 0) == effective_text(slices(all@), index as int),
        decreases all@.len() - index,
    {
        let line = all[index];
        assert(slices(all@)[index as int] == line@);
        if let Some(rest) = strip_prefix(line, "CapEff:") {
            let value = trim(rest);
            return match parse_hex(value) {
                Some(mask) => Ok(mask),
                None => {
                    let mut message = "invalid CapEff value ".to_owned();
                    message.append(quoted(value).as_str());
                    Err(message)
                },
            };
        }
        index += 1;
    }
    Err("/proc/self/status does not contain CapEff".to_owned())
}

/// Whether a mask holds a capability.
pub open spec fn holds(mask: u64, capability: u32) -> bool {
    mask & (1u64 << capability) != 0
}

/// The names of the capabilities that an agent lacks.
pub open spec fn lacking(mask: u64) -> Option<Seq<char>> {
    let network = !holds(mask, CAP_NET_ADMIN);
    let programs = !(holds(mask, CAP_BPF) || holds(mask, CAP_SYS_ADMIN));
    if network && programs {
        Some("CAP_NET_ADMIN"@ + ", "@ + "CAP_BPF (or CAP_SYS_ADMIN on legacy kernels)"@)
    } else if network {
        Some("CAP_NET_ADMIN"@)
    } else if programs {
        Some("CAP_BPF (or CAP_SYS_ADMIN on legacy kernels)"@)
    } else {
        None
    }
}

/// Rejects an agent without the capabilities that a session needs: network
/// administration, and program loading under its own or its older name.
pub fn check_capabilities(mask: u64) -> (r: Result<(), String>)
    ensures
        match (r, lacking(mask)) {
            (Ok(_), None) => true,
            (Err(message), Some(names)) => message@
                == "faultline-agent lacks required effective capabilities: "@ + names
                + "; grant only these capabilities to the ephemeral agent"@,
            _ => false,
        },
{
    let network = mask & (1u64 << CAP_NET_ADMIN) == 0;
    let programs = mask & (1u64 << CAP_BPF) == 0 && mask & (1u64 << CAP_SYS_ADMIN) == 0;
    if !network && !programs {
        return Ok(());
    }
    let mut names = "".to_owned();
    if network {
        names.append("CAP_NET_ADMIN");
    }
    if network && programs {
        names.append(", ");
    }
    if programs {
        names.append("CAP_BPF (or CAP_SYS_ADMIN on legacy kernels)");
    }
    proof {
        reveal_strlit("");
        assert(names@ =~= lacking(mask)->0);
    }
    let mut message = "faultline-agent lacks required effective capabilities: ".to_owned();
    message.append(names.as_str());
    message.append("; grant only these capabilities to the ephemeral agent");
    Err(message)
}

} // verus!
