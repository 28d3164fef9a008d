//! The running control plane: commands, timed changes and what they leave in
//! force.

use vstd::prelude::*;
use vstd::string::*;
use crate::common::LOSS_ALGORITHM_HASH;
use crate::duration::Duration;
use crate::options::{direction_error, validate_rules_for_direction, Direction};
use crate::protocol::{first_error, ControlState, RuleSpec};
use crate::rule_store::{addressed, following, ruleset_error, Applied, Generation, RuleStore};

verus! {

/// What the running control plane is told, whoever tells it.
#[derive(Clone, Debug, PartialEq, Eq)]
pub enum ControlCommand {
    ReplaceRules(Vec<RuleSpec>),
    Stop,
}

/// A time span during which a rule loses everything.
#[derive(Clone, Copy, Debug, PartialEq, Eq, Structural)]
pub struct OutageWindow {
    pub after: Duration,
    pub duration: Duration,
}

/// A command and the time, from the start of the session, at which it is due.
#[derive(Clone, Debug, PartialEq, Eq)]
pub struct Scheduled {
    pub at: Duration,
    pub command: ControlCommand,
}

/// A rule during an outage: it loses every packet it matches, whatever loss
/// process it had, and is otherwise as it was.
pub open spec fn outage_of(rule: RuleSpec) -> RuleSpec {
    RuleSpec { loss_algorithm: LOSS_ALGORITHM_HASH, drop_permyriad: 10_000, ..rule }
}

/// Makes a rule lose everything.
pub fn outage_rule(rule: &RuleSpec) -> (r: RuleSpec)
    ensures
        r == outage_of(*rule),
{
    let mut out = *rule;
    out.loss_algorithm = LOSS_ALGORITHM_HASH;
    out.drop_permyriad = 10_000;
    out
}

/// Whether a command installs exactly one rule.
pub open spec fn installs(command: ControlCommand, rule: RuleSpec) -> bool {
    command matches ControlCommand::ReplaceRules(rules) && rules@ == seq![rule]
}

/// The command that starts a session.
pub fn initial_command(rules: Vec<RuleSpec>) -> (r: ControlCommand)
    ensures
        r == ControlCommand::ReplaceRules(rules),
{
    ControlCommand::ReplaceRules(rules)
}

fn install(rule: RuleSpec) -> (r: ControlCommand)
    ensures
        installs(r, rule),
{
    let mut rules: Vec<RuleSpec> = Vec::new();
    rules.push(rule);
    assert(rules@ =~= seq![rule]);
    ControlCommand::ReplaceRules(rules)
}

/// The timed commands of a session: its stop, and an outage that begins after
/// a while and gives the rule back as it was. They are counted from the moment
/// at which faults can apply.
pub fn schedule(
    initial_rule: &RuleSpec,
    duration: Option<Duration>,
    outage: Option<OutageWindow>,
) -> (r: Vec<Scheduled>)
    requires
        outage matches Some(window) ==> window.after.nanos + window.duration.nanos <= u128::MAX,
    ensures
        r@.len() == (if duration is Some {
            1int
        } else {
            0
        }) + (if outage is Some {
            2int
        } else {
            0
        }),
        duration matches Some(time) ==> r@[0].at == time && r@[0].command == ControlCommand::Stop,
        outage matches Some(window) ==> {
            let first = r@.len() - 2;
            &&& r@[first].at == window.after
            &&& installs(r@[first].command, outage_of(*initial_rule))
            &&& r@[first + 1].at.nanos == window.after.nanos + window.duration.nanos
            &&& installs(r@[first + 1].command, *initial_rule)
        },
{
    let mut commands: Vec<Scheduled> = Vec::new();
    if let Some(time) = duration {
        commands.push(Scheduled { at: time, command: ControlCommand::Stop });
    }
    if let Some(window) = outage {
        commands.push(Scheduled { at: window.after, command: install(outage_rule(initial_rule)) });
        commands.push(
            Scheduled {
                at: Duration { nanos: window.after.nanos + window.duration.nanos },
                command: install(*initial_rule),
            },
        );
    }
    commands
}

/// The control plane of one session.
pub struct ControlPlane {
    pub direction: Direction,
    pub store: RuleStore,
    pub active_rules: Vec<RuleSpec>,
}

/// What is done about a command that could not be carried out.
#[derive(Clone, Debug, PartialEq, Eq)]
pub enum Failure {
    /// The sender is told, and the session goes on with the rules it has.
    Answer(String),
    /// Nobody asked for an answer: the session ends.
    Abort(String),
}

impl ControlPlane {
    /// What keeps a command from being carried out.
    pub open spec fn command_error(self, command: ControlCommand) -> Option<Seq<char>> {
        match command {
            ControlCommand::Stop => None,
            ControlCommand::ReplaceRules(rules) => first_error(
                direction_error(self.direction, rules@),
                ruleset_error(rules@),
            ),
        }
    }

    /// Takes a command: the generation to publish, the stop, or what is wrong.
    /// The rules in force do not change here.
    pub fn handle_command(&self, command: &ControlCommand) -> (r: Result<Applied, String>)
        requires
            command matches ControlCommand::ReplaceRules(rules) ==> forall|i: int|
                0 <= i < rules@.len() ==> addressed(#[trigger] rules@[i]),
        ensures
            match (r, self.command_error(*command)) {
                (Ok(Applied::Stop), None) => *command == ControlCommand::Stop,
                (Ok(Applied::Publish(generation)), None) => command matches
                    ControlCommand::ReplaceRules(rules) && generation.of(
                    rules@,
                    following(self.store.current()),
                ),
                (Err(message), Some(wanted)) => message@ == wanted,
                _ => false,
            },
    {
        match command {
            ControlCommand::ReplaceRules(rules) => {
                match validate_rules_for_direction(self.direction, rules) {
                    Ok(_) => {},
                    Err(message) => return Err(message),
                }
            },
            ControlCommand::Stop => {},
        }
        self.store.apply(command)
    }

    /// Records that a replacement was published.
    pub fn published(&mut self, rules: Vec<RuleSpec>, generation: Generation)
        ensures
            final(self).active_rules == rules,
            final(self).store.active() == generation.rule_ids@,
            final(self).store.current() == generation.number,
            final(self).direction == old(self).direction,
    {
        self.store.published(generation);
        self.active_rules = rules;
    }

    /// The rules in force.
    pub fn state(&self) -> (r: ControlState)
        ensures
            r.rules@ == self.active_rules@,
    {
        ControlState { rules: copy_rules(&self.active_rules) }
    }
}

/// Says what is done about a failed command.
pub fn failed_command(message: String, answerable: bool) -> (r: Failure)
    ensures
        r == (if answerable {
            Failure::Answer(message)
        } else {
            Failure::Abort(message)
        }),
{
    if answerable {
        Failure::Answer(message)
    } else {
        Failure::Abort(message)
    }
}

/// Copies a ruleset.
pub fn copy_rules(rules: &Vec<RuleSpec>) -> (r: Vec<RuleSpec>)
    ensures
        r@ == rules@,
{
    let mut out: Vec<RuleSpec> = Vec::new();
    let mut index: usize = 0;
    while index < rules.len()
        invariant
            index <= rules@.len(),
            out@ == rules@.take(index as int),
        decreases rules@.len() - index,
    {
        out.push(rules[index]);
        assert(rules@.take(index + 1) =~= rules@.take(index as int).push(rules@[index as int]));
        index += 1;
    }
    assert(rules@.take(rules@.len() as int) =~= rules@);
    out
}

/// An outage never turns a valid rule into an invalid one, and during it the
/// rule loses every packet that it matches.
pub proof fn outage_rules_are_valid(rule: RuleSpec)
    requires
        rule.error() is None,
    ensures
        outage_of(rule).error() is None,
        outage_of(rule).drop_permyriad == 10_000,
        outage_of(rule).loss_algorithm == LOSS_ALGORITHM_HASH,
{
}

} // verus!
