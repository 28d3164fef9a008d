//! Rules, timelines and the control protocol as they go over the wire.

use vstd::prelude::*;
use vstd::string::*;
use crate::common::{
    zero_bytes, LOSS_ALGORITHM_GILBERT_ELLIOTT, LOSS_ALGORITHM_HASH, LOSS_ALGORITHM_RANDOM,
    MAX_RULES, PERMYRIAD, PROTOCOL_TCP, PROTOCOL_UDP,
};
use crate::duration::Duration;
use crate::net::{prefix_mask, IpNet, Network};
use crate::text::{decimal, digits, optional_text};

verus! {

/// One rule as it is exchanged between the control plane and its clients.
#[derive(Clone, Copy, Debug, PartialEq, Eq)]
pub struct RuleSpec {
    pub id: u32,
    pub source: Option<IpNet>,
    pub destination: IpNet,
    pub protocol: u8,
    pub loss_algorithm: u8,
    pub destination_port: u16,
    pub drop_permyriad: u32,
    pub ge_enter_permyriad: u32,
    pub ge_recover_permyriad: u32,
    pub ge_good_loss_permyriad: u32,
    pub ge_bad_loss_permyriad: u32,
    pub ge_idle_reset_secs: u32,
    pub duplicate_permyriad: u32,
    pub reorder_permyriad: u32,
    pub delay_ns: u64,
    pub jitter_ns: u64,
    pub bandwidth_bps: u64,
    pub seed: u32,
}

/// A rule with its networks as values.
pub struct Rule {
    pub id: u32,
    pub source: Option<Network>,
    pub destination: Network,
    pub protocol: u8,
    pub loss_algorithm: u8,
    pub destination_port: u16,
    pub drop_permyriad: u32,
    pub ge_enter_permyriad: u32,
    pub ge_recover_permyriad: u32,
    pub ge_good_loss_permyriad: u32,
    pub ge_bad_loss_permyriad: u32,
    pub ge_idle_reset_secs: u32,
    pub duplicate_permyriad: u32,
    pub reorder_permyriad: u32,
    pub delay_ns: u64,
    pub jitter_ns: u64,
    pub bandwidth_bps: u64,
    pub seed: u32,
}

/// An optional network as a value.
pub open spec fn optional_network(network: Option<IpNet>) -> Option<Network> {
    match network {
        Some(value) => Some(value@),
        None => None,
    }
}

impl View for RuleSpec {
    type V = Rule;

    open spec fn view(&self) -> Rule {
        Rule {
            id: self.id,
            source: optional_network(self.source),
            destination: self.destination@,
            protocol: self.protocol,
            loss_algorithm: self.loss_algorithm,
            destination_port: self.destination_port,
            drop_permyriad: self.drop_permyriad,
            ge_enter_permyriad: self.ge_enter_permyriad,
            ge_recover_permyriad: self.ge_recover_permyriad,
            ge_good_loss_permyriad: self.ge_good_loss_permyriad,
            ge_bad_loss_permyriad: self.ge_bad_loss_permyriad,
            ge_idle_reset_secs: self.ge_idle_reset_secs,
            duplicate_permyriad: self.duplicate_permyriad,
            reorder_permyriad: self.reorder_permyriad,
            delay_ns: self.delay_ns,
            jitter_ns: self.jitter_ns,
            bandwidth_bps: self.bandwidth_bps,
            seed: self.seed,
        }
    }
}

/// The rules of a list as values.
pub open spec fn rules_of(rules: Seq<RuleSpec>) -> Seq<Rule> {
    rules.map_values(|rule: RuleSpec| rule@)
}

/// The seed of a rule that names none.
pub fn default_rule_seed() -> (r: u32)
    ensures
        r == 1,
{
    1
}

/// Whether a check reports this error, or success where there is none.
pub open spec fn reports(result: Result<(), String>, error: Option<Seq<char>>) -> bool {
    match (result, error) {
        (Ok(_), None) => true,
        (Err(message), Some(wanted)) => message@ == wanted,
        _ => false,
    }
}

/// The first of two errors.
pub open spec fn first_error(first: Option<Seq<char>>, second: Option<Seq<char>>) -> Option<
    Seq<char>,
> {
    match first {
        Some(error) => Some(error),
        None => second,
    }
}

/// `rule <id><rest>`.
pub open spec fn about_rule(id: u32, rest: Seq<char>) -> Seq<char> {
    "rule "@ + digits(id as nat) + rest
}

/// Writes `rule <id><rest>`.
pub fn rule_message(id: u32, rest: &str) -> (r: String)
    ensures
        r@ == about_rule(id, rest@),
{
    let mut message = "rule ".to_owned();
    message.append(decimal(id as u64).as_str());
    message.append(rest);
    message
}

/// The complaint about a rate above one hundred percent.
pub open spec fn permyriad_error(id: u32, name: Seq<char>, value: u32) -> Option<Seq<char>> {
    if value > PERMYRIAD {
        Some(about_rule(id, " has "@ + name + " above 100%"@))
    } else {
        None
    }
}

/// Rejects rates above one hundred percent.
pub fn validate_permyriad(rule_id: u32, name: &str, value: u32) -> (r: Result<(), String>)
    ensures
        reports(r, permyriad_error(rule_id, name@, value)),
{
    if value > PERMYRIAD {
        let mut rest = " has ".to_owned();
        rest.append(name);
        rest.append(" above 100%");
        Err(rule_message(rule_id, rest.as_str()))
    } else {
        Ok(())
    }
}

impl Rule {
    /// What is wrong with the number and the addresses of a rule.
    pub open spec fn identity_error(self) -> Option<Seq<char>> {
        if self.id >= MAX_RULES {
            Some("rule id "@ + digits(self.id as nat) + " is outside STATS map bounds"@)
        } else if self.source is Some && self.source->0.v4 != self.destination.v4 {
            Some(about_rule(self.id, " mixes IPv4 and IPv6 source/destination"@))
        } else {
            None
        }
    }

    /// What is wrong with the loss process and the rates of a rule.
    pub open spec fn loss_error(self) -> Option<Seq<char>> {
        if self.loss_algorithm != LOSS_ALGORITHM_HASH && self.loss_algorithm
            != LOSS_ALGORITHM_RANDOM && self.loss_algorithm != LOSS_ALGORITHM_GILBERT_ELLIOTT {
            Some(about_rule(self.id, " has an unknown loss algorithm"@))
        } else {
            first_error(
                first_error(
                    permyriad_error(self.id, "a loss rate"@, self.drop_permyriad),
                    first_error(
                        permyriad_error(self.id, "GE enter"@, self.ge_enter_permyriad),
                        first_error(
                            permyriad_error(self.id, "GE recovery"@, self.ge_recover_permyriad),
                            first_error(
                                permyriad_error(
                                    self.id,
                                    "GE good-state loss"@,
                                    self.ge_good_loss_permyriad,
                                ),
                                first_error(
                                    permyriad_error(
                                        self.id,
                                        "GE bad-state loss"@,
                                        self.ge_bad_loss_permyriad,
                                    ),
                                    first_error(
                                        permyriad_error(
                                            self.id,
                                            "duplication"@,
                                            self.duplicate_permyriad,
                                        ),
                                        permyriad_error(
                                            self.id,
                                            "reordering"@,
                                            self.reorder_permyriad,
                                        ),
                                    ),
                                ),
                            ),
                        ),
                    ),
                ),
                if self.loss_algorithm == LOSS_ALGORITHM_GILBERT_ELLIOTT && (
                self.ge_enter_permyriad == 0 || self.ge_recover_permyriad == 0) {
                    Some(
                        about_rule(
                            self.id,
                            " requires non-zero GE enter and recovery probabilities"@,
                        ),
                    )
                } else {
                    None
                },
            )
        }
    }

    /// What is wrong with the port of a rule.
    pub open spec fn transport_error(self) -> Option<Seq<char>> {
        if self.destination_port != 0 && self.protocol != PROTOCOL_TCP && self.protocol
            != PROTOCOL_UDP {
            Some(about_rule(self.id, " specifies a port without TCP or UDP"@))
        } else {
            None
        }
    }

    /// The first thing that is wrong with a rule.
    pub open spec fn error(self) -> Option<Seq<char>> {
        first_error(self.identity_error(), first_error(self.loss_error(), self.transport_error()))
    }
}

impl RuleSpec {
    /// The network and mask of the source filter; zeros without one.
    pub open spec fn source_bits(self) -> (Seq<u8>, Seq<u8>) {
        match self.source {
            Some(source) => (
                source@.truncated().octets,
                prefix_mask(16, source.prefix_len as int),
            ),
            None => (zero_bytes(16), zero_bytes(16)),
        }
    }

    /// The source filter as the classifier compares it, in the byte order of
    /// packet addresses.
    pub fn source_network_and_mask(&self) -> (r: ([u8; 16], [u8; 16]))
        ensures
            (r.0@, r.1@) == self.source_bits(),
    {
        match self.source {
            Some(source) => (source.network(), source.netmask()),
            None => {
                let network: [u8; 16] = [0;16];
                let mask: [u8; 16] = [0;16];
                assert(network@ =~= zero_bytes(16));
                assert(mask@ =~= zero_bytes(16));
                (network, mask)
            },
        }
    }

    /// The first thing that is wrong with a rule.
    pub open spec fn error(self) -> Option<Seq<char>> {
        self@.error()
    }

    /// Checks a rule before it is published.
    pub fn validate(&self) -> (r: Result<(), String>)
        ensures
            reports(r, self.error()),
    {
        match self.validate_identity() {
            Ok(_) => {},
            Err(message) => return Err(message),
        }
        match self.validate_loss() {
            Ok(_) => {},
            Err(message) => return Err(message),
        }
        self.validate_transport()
    }

    fn validate_identity(&self) -> (r: Result<(), String>)
        ensures
            reports(r, self@.identity_error()),
    {
        if self.id >= MAX_RULES {
            let mut message = "rule id ".to_owned();
            message.append(decimal(self.id as u64).as_str());
            message.append(" is outside STATS map bounds");
            return Err(message);
        }
        if let Some(source) = self.source {
            if source.is_ipv4() != self.destination.is_ipv4() {
                return Err(rule_message(self.id, " mixes IPv4 and IPv6 source/destination"));
            }
        }
        Ok(())
    }

    fn validate_transport(&self) -> (r: Result<(), String>)
        ensures
            reports(r, self@.transport_error()),
    {
        if self.destination_port != 0 && self.protocol != PROTOCOL_TCP && self.protocol
            != PROTOCOL_UDP {
            Err(rule_message(self.id, " specifies a port without TCP or UDP"))
        } else {
            Ok(())
        }
    }

    fn validate_loss(&self) -> (r: Result<(), String>)
        ensures
            reports(r, self@.loss_error()),
    {
        if self.loss_algorithm != LOSS_ALGORITHM_HASH && self.loss_algorithm
            != LOSS_ALGORITHM_RANDOM && self.loss_algorithm != LOSS_ALGORITHM_GILBERT_ELLIOTT {
            return Err(rule_message(self.id, " has an unknown loss algorithm"));
        }
        match validate_permyriad(self.id, "a loss rate", self.drop_permyriad) {
            Ok(_) => {},
            Err(message) => return Err(message),
        }
        match validate_permyriad(self.id, "GE enter", self.ge_enter_permyriad) {
            Ok(_) => {},
            Err(message) => return Err(message),
        }
        match validate_permyriad(self.id, "GE recovery", self.ge_recover_permyriad) {
            Ok(_) => {},
            Err(message) => return Err(message),
        }
        match validate_permyriad(self.id, "GE good-state loss", self.ge_good_loss_permyriad) {
            Ok(_) => {},
            Err(message) => return Err(message),
        }
        match validate_permyriad(self.id, "GE bad-state loss", self.ge_bad_loss_permyriad) {
            Ok(_) => {},
            Err(message) => return Err(message),
        }
        match validate_permyriad(self.id, "duplication", self.duplicate_permyriad) {
            Ok(_) => {},
            Err(message) => return Err(message),
        }
        match validate_permyriad(self.id, "reordering", self.reorder_permyriad) {
            Ok(_) => {},
            Err(message) => return Err(message),
        }
        if self.loss_algorithm == LOSS_ALGORITHM_GILBERT_ELLIOTT && (self.ge_enter_permyriad == 0
            || self.ge_recover_permyriad == 0) {
            return Err(
                rule_message(
                    self.id,
                    " requires non-zero GE enter and recovery probabilities",
                ),
            );
        }
        Ok(())
    }
}

/// The rules in force.
#[derive(Clone, Debug, PartialEq, Eq)]
pub struct ControlState {
    pub rules: Vec<RuleSpec>,
}

pub const TIMELINE_VERSION: u32 = 1;

/// Deadlines shared by both ends of the control protocol.
#[derive(Clone, Copy, Debug, PartialEq, Eq, Structural)]
pub struct ControlTimeouts {
    pub acknowledgement: Duration,
    pub state: Duration,
    pub control_loop: Duration,
    pub shutdown: Duration,
}

impl Default for ControlTimeouts {
    fn default() -> (r: Self)
        ensures
            r.acknowledgement == Duration::of_secs(5),
            r.state == Duration::of_secs(5),
            r.control_loop == Duration::of_secs(5),
            r.shutdown == Duration::of_secs(1),
    {
        ControlTimeouts {
            acknowledgement: Duration::from_secs(5),
            state: Duration::from_secs(5),
            control_loop: Duration::from_secs(5),
            shutdown: Duration::from_secs(1),
        }
    }
}

/// Whether a timeline was written by hand or captured from a session.
#[derive(Clone, Copy, Debug, PartialEq, Eq, Structural)]
pub enum TimelineKind {
    Profile,
    Replay,
}

/// A portable sequence of atomic rule replacements. Profiles and captures
/// share one form, so that a capture can be played again as it is.
#[derive(Clone, Debug, PartialEq, Eq)]
pub struct Timeline {
    pub version: u32,
    pub kind: TimelineKind,
    pub name: Option<String>,
    pub target: Option<String>,
    /// Total playback time. The final event stays in force until then.
    pub duration_ms: u64,
    pub events: Vec<TimelineEvent>,
}

/// A complete ruleset and the time at which it replaces the one before.
#[derive(Clone, Debug, PartialEq, Eq)]
pub struct TimelineEvent {
    /// Milliseconds since the start of the session.
    pub at_ms: u64,
    pub rules: Vec<RuleSpec>,
}

/// An event with its rules as values.
pub struct Change {
    pub at_ms: u64,
    pub rules: Seq<Rule>,
}

/// A timeline with its texts and rules as values.
pub struct Score {
    pub version: u32,
    pub kind: TimelineKind,
    pub name: Option<Seq<char>>,
    pub target: Option<Seq<char>>,
    pub duration_ms: u64,
    pub events: Seq<Change>,
}

impl View for TimelineEvent {
    type V = Change;

    open spec fn view(&self) -> Change {
        Change { at_ms: self.at_ms, rules: rules_of(self.rules@) }
    }
}

/// The events of a list as values.
pub open spec fn changes_of(events: Seq<TimelineEvent>) -> Seq<Change> {
    events.map_values(|event: TimelineEvent| event@)
}

impl View for Timeline {
    type V = Score;

    open spec fn view(&self) -> Score {
        Score {
            version: self.version,
            kind: self.kind,
            name: optional_text(self.name),
            target: optional_text(self.target),
            duration_ms: self.duration_ms,
            events: changes_of(self.events@),
        }
    }
}

/// Whether an earlier rule of the list has the number of the one at `at`.
pub open spec fn rule_repeats(rules: Seq<Rule>, at: int) -> bool {
    exists|j: int| 0 <= j < at && #[trigger] rules[j].id == rules[at].id
}

/// Whether an earlier rule of the list has the number of the one at `at`.
pub open spec fn repeats_id(rules: Seq<RuleSpec>, at: int) -> bool {
    exists|j: int| 0 <= j < at && #[trigger] rules[j].id == rules[at].id
}

/// `timeline event <index><rest>`.
pub open spec fn about_event(index: nat, rest: Seq<char>) -> Seq<char> {
    "timeline event "@ + digits(index) + rest
}

/// The first thing that is wrong with the rules of an event from `from` on.
pub open spec fn event_rules_error(rules: Seq<Rule>, index: nat, from: int) -> Option<
    Seq<char>,
>
    decreases rules.len() - from,
{
    if from >= rules.len() {
        None
    } else if rules[from].error() is Some {
        rules[from].error()
    } else if rule_repeats(rules, from) {
        Some(about_event(index, " repeats rule id "@ + digits(rules[from].id as nat)))
    } else {
        event_rules_error(rules, index, from + 1)
    }
}

fn event_message(index: usize, rest: &str) -> (r: String)
    ensures
        r@ == about_event(index as nat, rest@),
{
    let mut message = "timeline event ".to_owned();
    message.append(decimal(index as u64).as_str());
    message.append(rest);
    message
}

/// Whether an earlier rule of the list has the number of the one at `at`.
pub fn has_earlier_id(rules: &Vec<RuleSpec>, at: usize) -> (r: bool)
    requires
        at < rules@.len(),
    ensures
        r == repeats_id(rules@, at as int),
        r == rule_repeats(rules_of(rules@), at as int),
{
    let mut index: usize = 0;
    while index < at
        invariant
            index <= at < rules@.len(),
            forall|j: int| 0 <= j < index ==> #[trigger] rules@[j].id != rules@[at as int].id,
        decreases at - index,
    {
        if rules[index].id == rules[at].id {
            assert(rules_of(rules@)[index as int].id == rules_of(rules@)[at as int].id);
            return true;
        }
        index += 1;
    }
    assert forall|j: int| 0 <= j < at implies #[trigger] rules_of(rules@)[j].id != rules_of(
        rules@,
    )[at as int].id by {
        assert(rules@[j].id != rules@[at as int].id);
    }
    false
}

impl Change {
    /// What is wrong with an event, given its place and the time of the event
    /// before it.
    pub open spec fn error_after(self, index: nat, previous_at_ms: u64) -> Option<Seq<char>> {
        if index != 0 && self.at_ms <= previous_at_ms {
            Some(about_event(index, " must occur after the previous event"@))
        } else if self.rules.len() == 0 {
            Some(about_event(index, " has no rules"@))
        } else {
            event_rules_error(self.rules, index, 0)
        }
    }
}

impl TimelineEvent {
    fn validate_after(&self, index: usize, previous_at_ms: u64) -> (r: Result<(), String>)
        ensures
            reports(r, self@.error_after(index as nat, previous_at_ms)),
    {
        if index != 0 && self.at_ms <= previous_at_ms {
            return Err(event_message(index, " must occur after the previous event"));
        }
        if self.rules.len() == 0 {
            return Err(event_message(index, " has no rules"));
        }
        let mut at: usize = 0;
        while at < self.rules.len()
            invariant
                at <= self.rules@.len(),
                self@.error_after(index as nat, previous_at_ms) == event_rules_error(
                    self@.rules,
                    index as nat,
                    at as int,
                ),
            decreases self.rules@.len() - at,
        {
            assert(self@.rules[at as int] == self.rules@[at as int]@);
            match self.rules[at].validate() {
                Ok(_) => {},
                Err(message) => return Err(message),
            }
            if has_earlier_id(&self.rules, at) {
                let mut rest = " repeats rule id ".to_owned();
                rest.append(decimal(self.rules[at].id as u64).as_str());
                return Err(event_message(index, rest.as_str()));
            }
            at += 1;
        }
        Ok(())
    }
}

/// The first thing that is wrong with the events from `from` on.
pub open spec fn events_error(events: Seq<Change>, from: int) -> Option<Seq<char>>
    decreases events.len() - from,
{
    if from >= events.len() {
        None
    } else {
        first_error(
            events[from].error_after(
                from as nat,
                if from == 0 {
                    0
                } else {
                    events[from - 1].at_ms
                },
            ),
            events_error(events, from + 1),
        )
    }
}

impl Score {
    /// The first thing that is wrong with a timeline.
    pub open spec fn error(self) -> Option<Seq<char>> {
        if self.version != TIMELINE_VERSION {
            Some(
                "unsupported timeline version "@ + digits(self.version as nat)
                    + "; expected "@ + digits(TIMELINE_VERSION as nat),
            )
        } else if self.events.len() == 0 {
            Some("timeline must contain at least one event"@)
        } else if self.events[0].at_ms != 0 {
            Some("timeline must begin at at_ms=0"@)
        } else if self.duration_ms < self.events.last().at_ms {
            Some("timeline duration ends before its final event"@)
        } else {
            events_error(self.events, 0)
        }
    }
}

impl Timeline {
    /// Checks a timeline before it is played or after it was captured.
    pub fn validate(&self) -> (r: Result<(), String>)
        ensures
            reports(r, self@.error()),
    {
        if self.version != TIMELINE_VERSION {
            let mut message = "unsupported timeline version ".to_owned();
            message.append(decimal(self.version as u64).as_str());
            message.append("; expected ");
            message.append(decimal(TIMELINE_VERSION as u64).as_str());
            return Err(message);
        }
        if self.events.len() == 0 {
            return Err("timeline must contain at least one event".to_owned());
        }
        assert(self@.events[0] == self.events@[0]@);
        if self.events[0].at_ms != 0 {
            return Err("timeline must begin at at_ms=0".to_owned());
        }
        assert(self@.events.last() == self.events@.last()@);
        if self.duration_ms < self.events[self.events.len() - 1].at_ms {
            return Err("timeline duration ends before its final event".to_owned());
        }
        let mut at: usize = 0;
        let mut previous: u64 = 0;
        while at < self.events.len()
            invariant
                at <= self.events@.len(),
                previous == (if at == 0 {
                    0
                } else {
                    self.events@[at - 1].at_ms
                }),
                self@.error() == events_error(self@.events, at as int),
            decreases self.events@.len() - at,
        {
            assert(self@.events[at as int] == self.events@[at as int]@);
            if at > 0 {
                assert(self@.events[at - 1] == self.events@[at - 1]@);
            }
            match self.events[at].validate_after(at, previous) {
                Ok(_) => {},
                Err(message) => return Err(message),
            }
            previous = self.events[at].at_ms;
            at += 1;
        }
        Ok(())
    }
}

/// What a client asks of the control plane.
#[derive(Clone, Debug, PartialEq, Eq)]
pub enum Request {
    Ping { id: u64 },
    GetState { id: u64 },
    ReplaceRules { id: u64, rules: Vec<RuleSpec> },
    Stop { id: u64 },
}

/// What the control plane answers.
#[allow(inconsistent_fields)]
#[derive(Clone, Debug, PartialEq, Eq)]
pub enum Response {
    Pong { id: u64 },
    State { id: u64, state: ControlState },
    Applied { id: u64, state: ControlState },
    Stopping { id: u64 },
    Error { id: Option<u64>, message: String },
}

/// Frames one encoded message: it is followed by a newline.
pub fn encode_line(encoded: Vec<u8>) -> (r: Vec<u8>)
    ensures
        r@ == encoded@.push(10u8),
{
    let mut line = encoded;
    line.push(10);
    line
}

// ---------------------------------------------------------------------------
// Laws
// ---------------------------------------------------------------------------
/// A rule that passes validation has a counter, rates that are rates, one
/// address family, and a port only where the protocol has ports.
pub proof fn valid_rule_is_in_bounds(rule: RuleSpec)
    requires
        rule.error() is None,
    ensures
        rule.id < MAX_RULES,
        rule.source is Some ==> rule.source->0@.v4 == rule.destination@.v4,
        rule.drop_permyriad <= PERMYRIAD,
        rule.ge_enter_permyriad <= PERMYRIAD,
        rule.ge_recover_permyriad <= PERMYRIAD,
        rule.ge_good_loss_permyriad <= PERMYRIAD,
        rule.ge_bad_loss_permyriad <= PERMYRIAD,
        rule.duplicate_permyriad <= PERMYRIAD,
        rule.reorder_permyriad <= PERMYRIAD,
        rule.loss_algorithm <= LOSS_ALGORITHM_GILBERT_ELLIOTT,
        rule.loss_algorithm == LOSS_ALGORITHM_GILBERT_ELLIOTT ==> rule.ge_enter_permyriad > 0
            && rule.ge_recover_permyriad > 0,
        rule.destination_port != 0 ==> rule.protocol == PROTOCOL_TCP || rule.protocol
            == PROTOCOL_UDP,
{
}

/// A valid timeline starts at zero, moves forward with every event and ends no
/// earlier than its last one; each event installs at least one rule, all of
/// them valid and with numbers of their own.
pub proof fn valid_timeline_moves_forward(timeline: Score)
    requires
        timeline.error() is None,
    ensures
        timeline.events.len() > 0,
        timeline.events[0].at_ms == 0,
        timeline.events.last().at_ms <= timeline.duration_ms,
        forall|i: int, j: int|
            0 <= i < j < timeline.events.len() ==> (#[trigger] timeline.events[i]).at_ms < (
            #[trigger] timeline.events[j]).at_ms,
        forall|i: int|
            0 <= i < timeline.events.len() ==> valid_ruleset((#[trigger] timeline.events[i]).rules),
{
    let events = timeline.events;
    assert forall|i: int| 0 <= i < events.len() implies valid_ruleset((#[trigger] events[i]).rules)
        && (i > 0 ==> events[i - 1].at_ms < events[i].at_ms) by {
        events_error_reaches(events, 0, i);
        rules_error_reaches(events[i].rules, i as nat, 0);
    }
    assert forall|i: int, j: int| 0 <= i < j < events.len() implies (#[trigger] events[i]).at_ms < (
    #[trigger] events[j]).at_ms by {
        events_increase(events, i, j);
    }
}

/// At least one rule, all of them valid and with numbers of their own.
pub open spec fn valid_ruleset(rules: Seq<Rule>) -> bool {
    &&& rules.len() > 0
    &&& forall|i: int| 0 <= i < rules.len() ==> (#[trigger] rules[i]).error() is None
    &&& distinct_ids(rules)
}

/// No two rules share a number.
pub open spec fn distinct_ids(rules: Seq<Rule>) -> bool {
    forall|i: int, j: int|
        0 <= i < j < rules.len() ==> (#[trigger] rules[i]).id != (#[trigger] rules[j]).id
}

proof fn events_error_reaches(events: Seq<Change>, from: int, at: int)
    requires
        0 <= from <= at < events.len(),
        events_error(events, from) is None,
    ensures
        events[at].error_after(
            at as nat,
            if at == 0 {
                0
            } else {
                events[at - 1].at_ms
            },
        ) is None,
    decreases at - from,
{
    if from < at {
        events_error_reaches(events, from + 1, at);
    }
}

proof fn rules_error_reaches(rules: Seq<Rule>, index: nat, from: int)
    requires
        0 <= from <= rules.len(),
        event_rules_error(rules, index, from) is None,
    ensures
        forall|i: int| from <= i < rules.len() ==> (#[trigger] rules[i]).error() is None,
        forall|i: int, j: int|
            0 <= i < j < rules.len() && from <= j ==> (#[trigger] rules[i]).id != (
            #[trigger] rules[j]).id,
    decreases rules.len() - from,
{
    if from < rules.len() {
        rules_error_reaches(rules, index, from + 1);
        assert(!rule_repeats(rules, from));
    }
}

proof fn events_increase(events: Seq<Change>, i: int, j: int)
    requires
        0 <= i < j < events.len(),
        forall|k: int|
            0 < k < events.len() ==> events[k - 1].at_ms < (#[trigger] events[k]).at_ms,
    ensures
        events[i].at_ms < events[j].at_ms,
    decreases j - i,
{
    if i + 1 < j {
        events_increase(events, i, j - 1);
    }
}

} // verus!
