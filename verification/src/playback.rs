//! Playing a timeline, and setting one loss rate, over a control channel.

use vstd::prelude::*;
use vstd::string::*;
use crate::driver::{ApplyEvent, TimelineDriver};
use crate::duration::Duration;
use crate::json::{
    json_elements, json_string, json_text, json_unsigned, json_with, read_elements, read_string,
    read_unsigned, read_value, write_unsigned,
};
use crate::protocol::reports;
use crate::rule::Percent;
use crate::text::{decimal, digits, optional_text, same_text, texts};

verus! {

/// What is done about a timeline that is being played.
#[derive(Debug, PartialEq, Eq)]
pub enum PlayStep {
    /// Send the rules of an event and wait for the answer.
    Apply(ApplyEvent),
    Finished,
    Wait,
}

/// Decides about a timeline that is being played.
pub fn play_step(driver: &mut TimelineDriver, elapsed: Duration) -> (r: PlayStep)
    requires
        old(driver).progress().wf(),
    ensures
        final(driver).progress().wf(),
        final(driver).events() == old(driver).events(),
        final(driver).progress() == old(driver).progress().after_time(elapsed),
        match r {
            PlayStep::Apply(event) => {
                &&& old(driver).progress().due(elapsed)
                &&& event.index == old(driver).progress().next
                &&& event.id == event.index + 1
                &&& event.index < old(driver).events().len()
                &&& event.at_ms == old(driver).events()[event.index as int].at_ms
                &&& event.rules@ == old(driver).events()[event.index as int].rules@
            },
            PlayStep::Finished => !old(driver).progress().due(elapsed) && old(
                driver,
            ).progress().complete(elapsed),
            PlayStep::Wait => !old(driver).progress().due(elapsed) && !old(
                driver,
            ).progress().complete(elapsed),
        },
{
    match driver.next_at(elapsed) {
        Some(event) => PlayStep::Apply(event),
        None => if driver.complete(elapsed) {
            PlayStep::Finished
        } else {
            PlayStep::Wait
        },
    }
}

/// A line from the control channel, as far as players look at it.
#[derive(Clone, Debug, PartialEq, Eq)]
pub struct Reply {
    pub id: Option<u64>,
    pub kind: Option<String>,
    pub message: Option<String>,
    /// The line without white space.
    pub text: String,
}

/// A line from the control channel as a value.
pub struct Message {
    pub id: Option<u64>,
    pub kind: Option<Seq<char>>,
    pub message: Option<Seq<char>>,
    pub text: Seq<char>,
}

impl View for Reply {
    type V = Message;

    open spec fn view(&self) -> Message {
        Message {
            id: self.id,
            kind: optional_text(self.kind),
            message: optional_text(self.message),
            text: self.text@,
        }
    }
}

/// What a line says, or why it is no JSON.
pub open spec fn message_of(line: Seq<char>) -> Result<Message, Seq<char>> {
    match json_text(line) {
        Err(error) => Err(error),
        Ok(text) => Ok(
            Message {
                id: json_unsigned(line, "id"@),
                kind: json_string(line, "type"@),
                message: json_string(line, "message"@),
                text,
            },
        ),
    }
}

/// Reads a line from the control channel.
pub fn read_reply(line: &str) -> (r: Result<Reply, String>)
    ensures
        match (r, message_of(line@)) {
            (Ok(reply), Ok(wanted)) => reply@ == wanted,
            (Err(error), Err(wanted)) => error@ == wanted,
            _ => false,
        },
{
    match read_value(line) {
        Ok(text) => Ok(
            Reply {
                id: read_unsigned(line, "id"),
                kind: read_string(line, "type"),
                message: read_string(line, "message"),
                text,
            },
        ),
        Err(error) => Err(error),
    }
}

/// Whether an optional text is this one.
fn is_kind(kind: &Option<String>, name: &str) -> (r: bool)
    ensures
        r == (optional_text(*kind) == Some(name@)),
{
    match kind {
        Some(text) => same_text(text.as_str(), name),
        None => false,
    }
}

impl Message {
    /// Whether a line answers the request of an event.
    pub open spec fn answers(self, id: u64) -> bool {
        self.id == Some(id) && (self.kind == Some("applied"@) || self.kind == Some("error"@))
    }

    /// What an answer says of an event.
    pub open spec fn event_error(self, index: nat) -> Option<Seq<char>> {
        if self.kind == Some("error"@) {
            Some(
                "timeline event "@ + digits(index) + " failed: "@ + match self.message {
                    Some(text) => text,
                    None => "unknown error"@,
                },
            )
        } else {
            None
        }
    }
}

impl Reply {
    /// Whether a line answers the request of an event. Statistics and answers
    /// to other requests do not.
    pub fn answers(&self, id: u64) -> (r: bool)
        ensures
            r == self@.answers(id),
    {
        match self.id {
            Some(answered) => answered == id && (is_kind(&self.kind, "applied") || is_kind(
                &self.kind,
                "error",
            )),
            None => false,
        }
    }

    /// What an answer says of an event.
    pub fn event_outcome(&self, index: usize) -> (r: Result<(), String>)
        ensures
            reports(r, self@.event_error(index as nat)),
    {
        if !is_kind(&self.kind, "error") {
            return Ok(());
        }
        let mut message = "timeline event ".to_owned();
        message.append(decimal(index as u64).as_str());
        message.append(" failed: ");
        match &self.message {
            Some(text) => {
                message.append(text.as_str());
            },
            None => {
                message.append("unknown error");
            },
        }
        Err(message)
    }
}

/// Why playing ends when the control channel closes.
pub fn closed_message(index: usize) -> (r: String)
    ensures
        r@ == "control channel closed while applying timeline event "@ + digits(index as nat),
{
    let mut message = "control channel closed while applying timeline event ".to_owned();
    message.append(decimal(index as u64).as_str());
    message
}

/// The rate that a single change of the loss sets, or why it cannot be set.
pub fn loss_rate(loss: Percent) -> (r: Result<u32, String>)
    ensures
        match (r, loss) {
            (Ok(rate), Percent::Within { permyriad, .. }) => rate == permyriad,
            (Err(message), Percent::Outside) => message@
                == "--set-loss must be between 0 and 100"@,
            _ => false,
        },
{
    match loss {
        Percent::Within { permyriad, .. } => Ok(permyriad),
        Percent::Outside => Err("--set-loss must be between 0 and 100".to_owned()),
    }
}

/// The rules in force with another loss rate in the first of them, or why they
/// are not known.
pub open spec fn changed_rules(line: Seq<char>, rate: u32) -> Result<Seq<Seq<char>>, Seq<char>> {
    match message_of(line) {
        Err(error) => Err(error),
        Ok(reply) => if reply.kind != Some("state"@) {
            Err("control state request failed: "@ + reply.text)
        } else {
            match json_elements(line, "/state/rules"@) {
                None => Err("state response has no rules"@),
                Some(rules) => if rules.len() == 0 {
                    Err("state response has no first rule"@)
                } else {
                    match json_with(rules[0], "drop_permyriad"@, rate as u64) {
                        None => Err("state response has no first rule"@),
                        Some(first) => Ok(rules.update(0, first)),
                    }
                },
            }
        },
    }
}

/// Sets the loss rate of the first rule in force, given the line that tells
/// them. All other rules, and all other parts of the first, stay.
pub fn change_loss(line: &str, rate: u32) -> (r: Result<Vec<String>, String>)
    ensures
        match (r, changed_rules(line@, rate)) {
            (Ok(rules), Ok(wanted)) => texts(rules@) == wanted,
            (Err(message), Err(wanted)) => message@ == wanted,
            _ => false,
        },
        r matches Ok(rules) ==> rules@.len() > 0 && json_unsigned(
            rules@[0]@,
            "drop_permyriad"@,
        ) == Some(rate as u64),
{
    let reply = match read_reply(line) {
        Ok(reply) => reply,
        Err(error) => return Err(error),
    };
    if !is_kind(&reply.kind, "state") {
        let mut message = "control state request failed: ".to_owned();
        message.append(reply.text.as_str());
        return Err(message);
    }
    let mut rules = match read_elements(line, "/state/rules") {
        Some(rules) => rules,
        None => return Err("state response has no rules".to_owned()),
    };
    assert(texts(rules@).len() == rules@.len());
    if rules.len() == 0 {
        return Err("state response has no first rule".to_owned());
    }
    let ghost before = texts(rules@);
    assert(before[0] == rules@[0]@);
    match write_unsigned(rules[0].as_str(), "drop_permyriad", rate as u64) {
        Some(first) => {
            rules.set(0, first);
            assert(texts(rules@) =~= before.update(0, first@));
            Ok(rules)
        },
        None => Err("state response has no first rule".to_owned()),
    }
}

/// What the answer to a change of the loss says.
pub fn loss_outcome(reply: &Reply) -> (r: Result<(), String>)
    ensures
        reports(
            r,
            if reply@.kind == Some("applied"@) {
                None
            } else {
                Some("control update failed: "@ + reply@.text)
            },
        ),
{
    if is_kind(&reply.kind, "applied") {
        return Ok(());
    }
    let mut message = "control update failed: ".to_owned();
    message.append(reply.text.as_str());
    Err(message)
}

} // verus!
