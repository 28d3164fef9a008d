//! The control protocol as the engine serves it.

use vstd::prelude::*;
use vstd::string::*;
use crate::control::{copy_rules, ControlCommand};
use crate::json::{json_unsigned, read_unsigned};
use crate::protocol::{ControlState, Request, Response};

verus! {

/// What is found at the path of a control socket.
#[derive(Clone, Copy, Debug, PartialEq, Eq, Structural)]
pub enum PathState {
    Absent,
    /// Something that is no socket.
    Occupied,
    /// A socket that somebody answers.
    Active,
    /// A socket that nobody answers.
    Stale,
}

/// Why a path may not be bound.
pub open spec fn path_error(path: Seq<char>, found: PathState) -> Option<Seq<char>> {
    match found {
        PathState::Occupied => Some("refusing to replace non-socket control path "@ + path),
        PathState::Active => Some("control socket "@ + path + " is already active"@),
        _ => None,
    }
}

/// Decides whether a path may be bound, and whether a stale socket is removed
/// first. Nothing but a stale socket is ever removed.
pub fn claim_path(path: &str, found: PathState) -> (r: Result<bool, String>)
    ensures
        match (r, path_error(path@, found)) {
            (Ok(remove), None) => remove == (found == PathState::Stale),
            (Err(message), Some(wanted)) => message@ == wanted,
            _ => false,
        },
{
    match found {
        PathState::Absent => Ok(false),
        PathState::Stale => Ok(true),
        PathState::Occupied => {
            let mut message = "refusing to replace non-socket control path ".to_owned();
            message.append(path);
            Err(message)
        },
        PathState::Active => {
            let mut message = "control socket ".to_owned();
            message.append(path);
            message.append(" is already active");
            Err(message)
        },
    }
}

/// What the control loop answered to a command.
#[derive(Clone, Debug, PartialEq, Eq)]
pub enum LoopReply {
    Done(ControlState),
    Refused(String),
    NotRunning,
    Closed,
    TimedOut,
}

/// A request that the control loop has to decide.
#[derive(Clone, Debug, PartialEq, Eq)]
pub struct Pending {
    pub id: u64,
    /// Whether the request asks for the end of the session.
    pub stopping: bool,
}

/// What is done about a request.
#[derive(Clone, Debug, PartialEq, Eq)]
pub enum Serving {
    Reply(Response),
    /// Hand the command to the control loop and wait for its answer.
    Submit(ControlCommand, Pending),
}

/// Answers a request, or hands it to the control loop.
pub fn serve_request(request: Request, state: &ControlState) -> (r: Serving)
    ensures
        match request {
            Request::Ping { id } => r == Serving::Reply(Response::Pong { id }),
            Request::GetState { id } => r matches Serving::Reply(
                Response::State { id: answered, state: shown },
            ) && answered == id && shown.rules@ == state.rules@,
            Request::ReplaceRules { id, rules } => r == Serving::Submit(
                ControlCommand::ReplaceRules(rules),
                Pending { id, stopping: false },
            ),
            Request::Stop { id } => r == Serving::Submit(
                ControlCommand::Stop,
                Pending { id, stopping: true },
            ),
        },
{
    match request {
        Request::Ping { id } => Serving::Reply(Response::Pong { id }),
        Request::GetState { id } => Serving::Reply(
            Response::State { id, state: ControlState { rules: copy_rules(&state.rules) } },
        ),
        Request::ReplaceRules { id, rules } => Serving::Submit(
            ControlCommand::ReplaceRules(rules),
            Pending { id, stopping: false },
        ),
        Request::Stop { id } => Serving::Submit(ControlCommand::Stop, Pending { id, stopping: true }),
    }
}

/// The number of a response, if it has one.
pub open spec fn response_id(response: Response) -> Option<u64> {
    match response {
        Response::Pong { id } => Some(id),
        Response::State { id, .. } => Some(id),
        Response::Applied { id, .. } => Some(id),
        Response::Stopping { id } => Some(id),
        Response::Error { id, .. } => id,
    }
}

/// Why a command was not carried out.
pub open spec fn reply_error(reply: LoopReply) -> Option<Seq<char>> {
    match reply {
        LoopReply::Done(_) => None,
        LoopReply::Refused(message) => Some(message@),
        LoopReply::NotRunning => Some("control loop is not running"@),
        LoopReply::Closed => Some("control loop closed without a response"@),
        LoopReply::TimedOut => Some("control loop response timed out"@),
    }
}

/// Turns the answer of the control loop into a response. Success is reported
/// only after the control loop carried the command out.
pub fn serve_reply(pending: &Pending, reply: LoopReply) -> (r: Response)
    ensures
        match (reply_error(reply), r) {
            (None, Response::Applied { id, state }) => !pending.stopping && id == pending.id
                && reply == LoopReply::Done(state),
            (None, Response::Stopping { id }) => pending.stopping && id == pending.id,
            (Some(wanted), Response::Error { id, message }) => id == Some(pending.id) && message@
                == wanted,
            _ => false,
        },
        response_id(r) == Some(pending.id),
{
    let message = match reply {
        LoopReply::Done(state) => {
            if pending.stopping {
                return Response::Stopping { id: pending.id };
            }
            return Response::Applied { id: pending.id, state };
        },
        LoopReply::Refused(message) => message,
        LoopReply::NotRunning => "control loop is not running".to_owned(),
        LoopReply::Closed => "control loop closed without a response".to_owned(),
        LoopReply::TimedOut => "control loop response timed out".to_owned(),
    };
    Response::Error { id: Some(pending.id), message }
}

/// The number of a request, as far as it can be told from its line.
pub fn request_id(line: &str) -> (r: Option<u64>)
    ensures
        r == json_unsigned(line@, "id"@),
{
    read_unsigned(line, "id")
}

/// Answers a line that is no request. The answer carries the number of the
/// line where it has one.
pub fn reject_line(line: &str, reason: String) -> (r: Response)
    ensures
        r == (Response::Error { id: json_unsigned(line@, "id"@), message: reason }),
{
    Response::Error { id: request_id(line), message: reason }
}

} // verus!
