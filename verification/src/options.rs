//! Options of the engine and the units users write them in.

use vstd::prelude::*;
use vstd::string::*;
use crate::common::{
    LOSS_ALGORITHM_GILBERT_ELLIOTT, LOSS_ALGORITHM_HASH, LOSS_ALGORITHM_RANDOM, PROTOCOL_ANY,
    PROTOCOL_TCP, PROTOCOL_UDP,
};
use crate::control::OutageWindow;
use crate::duration::Duration;
use crate::net::IpNet;
use crate::protocol::{first_error, reports, RuleSpec};
use crate::rule::{Percent, RuleInput};
use crate::text::{number_up_to, parse_number, strip_suffix, without_suffix};

verus! {

/// Where on an interface the classifier sits.
#[derive(Clone, Copy, Debug, PartialEq, Eq, Structural)]
pub enum Direction {
    Ingress,
    Egress,
}

/// The protocols that a rule can name.
#[derive(Clone, Copy, Debug, PartialEq, Eq, Structural)]
pub enum Protocol {
    Any,
    Tcp,
    Udp,
}

impl Protocol {
    pub open spec fn code(self) -> u8 {
        match self {
            Protocol::Any => PROTOCOL_ANY,
            Protocol::Tcp => PROTOCOL_TCP,
            Protocol::Udp => PROTOCOL_UDP,
        }
    }

    /// The protocol number on the wire; zero stands for any.
    pub fn number(self) -> (r: u8)
        ensures
            r == self.code(),
    {
        match self {
            Protocol::Any => PROTOCOL_ANY,
            Protocol::Tcp => PROTOCOL_TCP,
            Protocol::Udp => PROTOCOL_UDP,
        }
    }
}

/// How a rule decides which packets are lost.
#[derive(Clone, Copy, Debug, PartialEq, Eq, Structural)]
pub enum LossAlgorithm {
    /// Repeatable decisions derived from the flow, its sequence and the seed.
    Hash,
    /// Fresh decisions from the kernel's random source.
    Random,
    /// A seeded two-state burst process for each flow.
    GilbertElliott,
}

impl LossAlgorithm {
    pub open spec fn code(self) -> u8 {
        match self {
            LossAlgorithm::Hash => LOSS_ALGORITHM_HASH,
            LossAlgorithm::Random => LOSS_ALGORITHM_RANDOM,
            LossAlgorithm::GilbertElliott => LOSS_ALGORITHM_GILBERT_ELLIOTT,
        }
    }

    /// The number of the algorithm on the wire.
    pub fn number(self) -> (r: u8)
        ensures
            r == self.code(),
    {
        match self {
            LossAlgorithm::Hash => LOSS_ALGORITHM_HASH,
            LossAlgorithm::Random => LOSS_ALGORITHM_RANDOM,
            LossAlgorithm::GilbertElliott => LOSS_ALGORITHM_GILBERT_ELLIOTT,
        }
    }
}

/// A unit and what one of it counts for.
pub type Unit = (&'static str, u64);

/// The number in front of the first unit that a text ends in, and what that
/// unit counts for.
pub open spec fn unit_split(value: Seq<char>, units: Seq<Unit>, from: int) -> Option<
    (Seq<char>, u64),
>
    decreases units.len() - from,
{
    if from >= units.len() {
        None
    } else {
        match without_suffix(value, units[from].0@) {
            Some(number) => Some((number, units[from].1)),
            None => unit_split(value, units, from + 1),
        }
    }
}

/// Splits a text into a number and one of the given units.
pub fn split_unit<'a>(value: &'a str, units: &Vec<Unit>) -> (r: Option<(&'a str, u64)>)
    ensures
        match (r, unit_split(value@, units@, 0)) {
            (Some((number, multiplier)), Some((text, counts))) => number@ == text && multiplier
                == counts,
            (None, None) => true,
            _ => false,
        },
{
    let mut index: usize = 0;
    while index < units.len()
        invariant
            index <= units@.len(),
            unit_split(value@, units@, 0) == unit_split(value@, units@, index as int),
        decreases units@.len() - index,
    {
        let (suffix, multiplier) = units[index];
        if let Some(number) = strip_suffix(value, suffix) {
            return Some((number, multiplier));
        }
        index += 1;
    }
    None
}

/// The units of lengths of time, in milliseconds.
pub open spec fn duration_units() -> Seq<Unit> {
    seq![("ms", 1u64), ("s", 1_000u64), ("m", 60_000u64)]
}

/// What a length of time such as `250ms`, `30s` or `2m` means.
pub open spec fn duration_reading(value: Seq<char>) -> Result<Duration, Seq<char>> {
    match unit_split(value, duration_units(), 0) {
        None => Err("duration must end in ms, s, or m"@),
        Some((number, multiplier)) => match number_up_to(number, u64::MAX as nat) {
            None => Err("duration must contain an unsigned integer"@),
            Some(amount) => if amount * multiplier > u64::MAX {
                Err("duration is too large"@)
            } else {
                Ok(Duration::of_millis((amount * multiplier) as u64))
            },
        },
    }
}

/// Reads a length of time.
pub fn parse_duration(value: &str) -> (r: Result<Duration, String>)
    ensures
        match (r, duration_reading(value@)) {
            (Ok(actual), Ok(wanted)) => actual == wanted,
            (Err(message), Err(wanted)) => message@ == wanted,
            _ => false,
        },
{
    let mut units: Vec<Unit> = Vec::new();
    units.push(("ms", 1));
    units.push(("s", 1_000));
    units.push(("m", 60_000));
    assert(units@ =~= duration_units());
    let (number, multiplier) = match split_unit(value, &units) {
        Some(parts) => parts,
        None => return Err("duration must end in ms, s, or m".to_owned()),
    };
    let amount: u64 = match parse_number(number, u64::MAX) {
        Some(amount) => amount,
        None => return Err("duration must contain an unsigned integer".to_owned()),
    };
    match amount.checked_mul(multiplier) {
        Some(milliseconds) => Ok(Duration::from_millis(milliseconds)),
        None => Err("duration is too large".to_owned()),
    }
}

/// The units of bandwidths, in bits per second.
pub open spec fn bandwidth_units() -> Seq<Unit> {
    seq![("kbit", 1_000u64), ("mbit", 1_000_000u64), ("gbit", 1_000_000_000u64)]
}

/// What a bandwidth such as `500kbit` or `10mbit` means.
pub open spec fn bandwidth_reading(value: Seq<char>) -> Result<u64, Seq<char>> {
    match unit_split(value, bandwidth_units(), 0) {
        None => Err("--bandwidth must end in kbit, mbit, or gbit"@),
        Some((number, multiplier)) => match number_up_to(number, u64::MAX as nat) {
            None => Err("invalid bandwidth: "@ + value),
            Some(amount) => if amount == 0 {
                Err("--bandwidth must be greater than zero"@)
            } else if amount * multiplier > u64::MAX {
                Err("--bandwidth is too large"@)
            } else {
                Ok((amount * multiplier) as u64)
            },
        },
    }
}

/// Reads a bandwidth.
pub fn parse_bandwidth(value: &str) -> (r: Result<u64, String>)
    ensures
        match (r, bandwidth_reading(value@)) {
            (Ok(actual), Ok(wanted)) => actual == wanted,
            (Err(message), Err(wanted)) => message@ == wanted,
            _ => false,
        },
{
    let mut units: Vec<Unit> = Vec::new();
    units.push(("kbit", 1_000));
    units.push(("mbit", 1_000_000));
    units.push(("gbit", 1_000_000_000));
    assert(units@ =~= bandwidth_units());
    let (number, multiplier) = match split_unit(value, &units) {
        Some(parts) => parts,
        None => return Err("--bandwidth must end in kbit, mbit, or gbit".to_owned()),
    };
    let amount: u64 = match parse_number(number, u64::MAX) {
        Some(amount) => amount,
        None => {
            let mut message = "invalid bandwidth: ".to_owned();
            message.append(value);
            return Err(message);
        },
    };
    if amount == 0 {
        return Err("--bandwidth must be greater than zero".to_owned());
    }
    match amount.checked_mul(multiplier) {
        Some(bits) => Ok(bits),
        None => Err("--bandwidth is too large".to_owned()),
    }
}

/// The complaint about a length of time that must not be zero.
pub open spec fn zero_duration_error(value: Option<Duration>, option: Seq<char>) -> Option<
    Seq<char>,
> {
    if value is Some && value->0.nanos == 0 {
        Some(option + " must be greater than zero"@)
    } else {
        None
    }
}

/// Rejects a length of time of zero.
pub fn validate_non_zero_duration(value: Option<Duration>, option: &str) -> (r: Result<(), String>)
    ensures
        reports(r, zero_duration_error(value, option@)),
{
    if let Some(duration) = value {
        if duration.is_zero() {
            let mut message = option.to_owned();
            message.append(" must be greater than zero");
            return Err(message);
        }
    }
    Ok(())
}

/// Whether a rule needs the departure-time queue.
pub open spec fn needs_pacing(rule: RuleSpec) -> bool {
    rule.delay_ns != 0 || rule.jitter_ns != 0 || rule.reorder_permyriad != 0 || rule.bandwidth_bps
        != 0
}

/// Whether a rule needs the departure-time queue.
pub fn rule_requires_pacing(rule: &RuleSpec) -> (r: bool)
    ensures
        r == needs_pacing(*rule),
{
    rule.delay_ns != 0 || rule.jitter_ns != 0 || rule.reorder_permyriad != 0 || rule.bandwidth_bps
        != 0
}

/// Whether some rule of a list needs the departure-time queue.
pub open spec fn any_pacing(rules: Seq<RuleSpec>) -> bool {
    exists|i: int| 0 <= i < rules.len() && needs_pacing(#[trigger] rules[i])
}

/// Whether a session needs the departure-time queue: for its first rules, or
/// because rules that need it may arrive later on an egress control socket.
pub open spec fn queue_needed(
    rules: Seq<RuleSpec>,
    control_socket: bool,
    direction: Direction,
) -> bool {
    any_pacing(rules) || (control_socket && direction == Direction::Egress)
}

/// Whether a session needs the departure-time queue.
pub fn pacing_required(rules: &Vec<RuleSpec>, control_socket: bool, direction: Direction) -> (r:
    bool)
    ensures
        r == queue_needed(rules@, control_socket, direction),
{
    let mut index: usize = 0;
    while index < rules.len()
        invariant
            index <= rules@.len(),
            forall|i: int| 0 <= i < index ==> !needs_pacing(#[trigger] rules@[i]),
        decreases rules@.len() - index,
    {
        if rule_requires_pacing(&rules[index]) {
            return true;
        }
        index += 1;
    }
    control_socket && direction == Direction::Egress
}

/// Whether a rule can only work on packets that leave.
pub open spec fn egress_only(rule: RuleSpec) -> bool {
    needs_pacing(rule) || rule.duplicate_permyriad != 0
}

/// The complaint about rules that cannot work in a direction.
pub open spec fn direction_error(direction: Direction, rules: Seq<RuleSpec>) -> Option<Seq<char>> {
    if direction == Direction::Ingress && exists|i: int|
        0 <= i < rules.len() && egress_only(#[trigger] rules[i]) {
        Some("delay, jitter, duplication, reordering, and bandwidth require egress"@)
    } else {
        None
    }
}

/// Rejects queue and clone impairments on packets that arrive.
pub fn validate_rules_for_direction(direction: Direction, rules: &Vec<RuleSpec>) -> (r: Result<
    (),
    String,
>)
    ensures
        reports(r, direction_error(direction, rules@)),
{
    if direction == Direction::Egress {
        return Ok(());
    }
    let mut index: usize = 0;
    while index < rules.len()
        invariant
            direction == Direction::Ingress,
            index <= rules@.len(),
            forall|i: int| 0 <= i < index ==> !egress_only(#[trigger] rules@[i]),
        decreases rules@.len() - index,
    {
        if rule_requires_pacing(&rules[index]) || rules[index].duplicate_permyriad != 0 {
            assert(egress_only(rules@[index as int]));
            return Err(
                "delay, jitter, duplication, reordering, and bandwidth require egress".to_owned(),
            );
        }
        index += 1;
    }
    Ok(())
}

/// Rules that need the departure-time queue find it, whenever they come: those
/// that a control socket may bring into a session are accepted only where the
/// queue was installed when the session began.
pub proof fn updates_find_their_queue(
    first: Seq<RuleSpec>,
    direction: Direction,
    update: Seq<RuleSpec>,
)
    requires
        direction_error(direction, update) is None,
        any_pacing(update),
    ensures
        queue_needed(first, true, direction),
{
    let i = choose|i: int| 0 <= i < update.len() && needs_pacing(#[trigger] update[i]);
    assert(egress_only(update[i]));
}

/// The options of one engine session.
#[derive(Clone, Debug)]
pub struct Options {
    pub interface: String,
    pub scenario: Option<String>,
    pub destination: Option<IpNet>,
    pub source: Option<IpNet>,
    pub direction: Direction,
    pub protocol: Protocol,
    pub port: u16,
    pub loss: Percent,
    pub seed: u32,
    pub loss_algorithm: LossAlgorithm,
    pub duration: Option<Duration>,
    pub stats_interval: Duration,
    pub control_socket: Option<String>,
    pub delay: Option<Duration>,
    pub jitter: Option<Duration>,
    pub duplicate: Percent,
    pub reorder: Percent,
    pub bandwidth: Option<String>,
    pub burst_loss: Option<Percent>,
    pub burst_recovery: Percent,
    pub burst_bad_loss: Percent,
    pub burst_good_loss: Percent,
    pub burst_idle_reset: Option<Duration>,
    pub outage_after: Option<Duration>,
    pub outage_duration: Option<Duration>,
}

/// How an inline rule reads, or why it cannot be read.
pub enum RuleReading {
    Refused(Seq<char>),
    Read(RuleInput),
}

impl Options {
    /// The options of a session that names only its interface and its rules.
    pub fn new(interface: String, destination: Option<IpNet>, scenario: Option<String>) -> (r:
        Options)
        ensures
            r.interface == interface && r.destination == destination && r.scenario == scenario,
            r.source is None && r.direction == Direction::Egress && r.protocol == Protocol::Any,
            r.port == 0 && r.loss == Percent::zero() && r.seed == 1,
            r.loss_algorithm == LossAlgorithm::Hash && r.duration is None,
            r.stats_interval == Duration::of_secs(1) && r.control_socket is None,
            r.delay is None && r.jitter is None && r.duplicate == Percent::zero(),
            r.reorder == Percent::zero() && r.bandwidth is None && r.burst_loss is None,
            r.burst_recovery == (Percent::Within { positive: true, permyriad: 2_500 }),
            r.burst_bad_loss == (Percent::Within { positive: true, permyriad: 10_000 }),
            r.burst_good_loss == Percent::zero() && r.burst_idle_reset is None,
            r.outage_after is None && r.outage_duration is None,
    {
        Options {
            interface,
            scenario,
            destination,
            source: None,
            direction: Direction::Egress,
            protocol: Protocol::Any,
            port: 0,
            loss: Percent::of(0),
            seed: 1,
            loss_algorithm: LossAlgorithm::Hash,
            duration: None,
            stats_interval: Duration::from_secs(1),
            control_socket: None,
            delay: None,
            jitter: None,
            duplicate: Percent::of(0),
            reorder: Percent::of(0),
            bandwidth: None,
            burst_loss: None,
            burst_recovery: Percent::of(2_500),
            burst_bad_loss: Percent::of(10_000),
            burst_good_loss: Percent::of(0),
            burst_idle_reset: None,
            outage_after: None,
            outage_duration: None,
        }
    }

    /// How the inline rule reads.
    pub open spec fn reading(self) -> RuleReading {
        if self.destination is None {
            RuleReading::Refused("inline destination is required"@)
        } else {
            match self.bandwidth {
                Some(text) => match bandwidth_reading(text@) {
                    Ok(bits) => RuleReading::Read(self.input_with(Some(bits))),
                    Err(message) => RuleReading::Refused(message),
                },
                None => RuleReading::Read(self.input_with(None)),
            }
        }
    }

    /// The inline rule with a bandwidth that was read.
    pub open spec fn input_with(self, bandwidth_bps: Option<u64>) -> RuleInput {
        RuleInput {
            id: 0,
            source: self.source,
            destination: self.destination->0,
            protocol: self.protocol.code(),
            destination_port: self.port,
            loss: self.loss,
            loss_algorithm: self.loss_algorithm.code(),
            seed: self.seed,
            burst_loss: self.burst_loss,
            burst_recovery: self.burst_recovery,
            burst_bad_loss: self.burst_bad_loss,
            burst_good_loss: self.burst_good_loss,
            burst_idle_reset: self.burst_idle_reset,
            duplicate: self.duplicate,
            reorder: self.reorder,
            delay: self.delay,
            jitter: self.jitter,
            bandwidth_bps,
        }
    }

    /// What is wrong with the inline rule.
    pub open spec fn rule_error(self) -> Option<Seq<char>> {
        match self.reading() {
            RuleReading::Refused(message) => Some(message),
            RuleReading::Read(input) => input.error(),
        }
    }

    /// What is wrong with a session of one inline rule.
    pub open spec fn inline_error(self) -> Option<Seq<char>> {
        match self.reading() {
            RuleReading::Refused(message) => Some(message),
            RuleReading::Read(input) => first_error(
                input.error(),
                first_error(
                    direction_error(self.direction, seq![input.spec_of()]),
                    zero_duration_error(self.outage_duration, "--outage-duration"@),
                ),
            ),
        }
    }

    /// What is wrong with the options.
    pub open spec fn error(self) -> Option<Seq<char>> {
        first_error(
            zero_duration_error(Some(self.stats_interval), "--stats-interval"@),
            first_error(
                zero_duration_error(self.duration, "--duration"@),
                if self.scenario is Some {
                    if self.outage_after is Some || self.outage_duration is Some {
                        Some(
                            "--outage-after/--outage-duration are inline-rule options and cannot be used with --scenario"@,
                        )
                    } else {
                        None
                    }
                } else {
                    self.inline_error()
                },
            ),
        )
    }

    /// Checks the options of a session.
    pub fn validate(&self) -> (r: Result<(), String>)
        ensures
            reports(r, self.error()),
    {
        match validate_non_zero_duration(Some(self.stats_interval), "--stats-interval") {
            Ok(_) => {},
            Err(message) => return Err(message),
        }
        match validate_non_zero_duration(self.duration, "--duration") {
            Ok(_) => {},
            Err(message) => return Err(message),
        }
        if self.scenario.is_some() {
            if self.outage_after.is_some() || self.outage_duration.is_some() {
                Err(
                    "--outage-after/--outage-duration are inline-rule options and cannot be used with --scenario".to_owned(),
                )
            } else {
                Ok(())
            }
        } else {
            self.validate_inline()
        }
    }

    fn validate_inline(&self) -> (r: Result<(), String>)
        ensures
            reports(r, self.inline_error()),
    {
        let input = match self.rule_input() {
            Ok(input) => input,
            Err(message) => return Err(message),
        };
        let rule = match input.compile() {
            Ok(rule) => rule,
            Err(message) => return Err(message),
        };
        let mut rules: Vec<RuleSpec> = Vec::new();
        rules.push(rule);
        assert(rules@ =~= seq![input.spec_of()]);
        match validate_rules_for_direction(self.direction, &rules) {
            Ok(_) => {},
            Err(message) => return Err(message),
        }
        validate_non_zero_duration(self.outage_duration, "--outage-duration")
    }

    /// The outage that the options ask for, if they name both of its ends.
    pub fn outage(&self) -> (r: Option<OutageWindow>)
        ensures
            r == (match (self.outage_after, self.outage_duration) {
                (Some(after), Some(duration)) => Some(OutageWindow { after, duration }),
                _ => None,
            }),
    {
        match (self.outage_after, self.outage_duration) {
            (Some(after), Some(duration)) => Some(OutageWindow { after, duration }),
            _ => None,
        }
    }

    /// The inline rule of validated options.
    pub fn compile_rule(&self) -> (r: RuleSpec)
        requires
            self.rule_error() is None,
        ensures
            self.reading() matches RuleReading::Read(input) && r == input.spec_of(),
    {
        self.rule_input().unwrap().compile().unwrap()
    }

    /// The inline rule before its conversion.
    pub fn rule_input(&self) -> (r: Result<RuleInput, String>)
        ensures
            match (r, self.reading()) {
                (Ok(input), RuleReading::Read(wanted)) => input == wanted,
                (Err(message), RuleReading::Refused(wanted)) => message@ == wanted,
                _ => false,
            },
    {
        let destination = match self.destination {
            Some(destination) => destination,
            None => return Err("inline destination is required".to_owned()),
        };
        let bandwidth_bps: Option<u64> = match &self.bandwidth {
            Some(text) => match parse_bandwidth(text.as_str()) {
                Ok(bits) => Some(bits),
                Err(message) => return Err(message),
            },
            None => None,
        };
        Ok(
            RuleInput {
                id: 0,
                source: self.source,
                destination,
                protocol: self.protocol.number(),
                destination_port: self.port,
                loss: self.loss,
                loss_algorithm: self.loss_algorithm.number(),
                seed: self.seed,
                burst_loss: self.burst_loss,
                burst_recovery: self.burst_recovery,
                burst_bad_loss: self.burst_bad_loss,
                burst_good_loss: self.burst_good_loss,
                burst_idle_reset: self.burst_idle_reset,
                duplicate: self.duplicate,
                reorder: self.reorder,
                delay: self.delay,
                jitter: self.jitter,
                bandwidth_bps,
            },
        )
    }
}

/// Options that pass validation without a scenario compile: the rule they name
/// is there, valid, and fit for their direction.
pub proof fn valid_options_compile(options: Options)
    requires
        options.error() is None,
        options.scenario is None,
    ensures
        options.rule_error() is None,
        options.reading() matches RuleReading::Read(input) && input.spec_of().error() is None && (
        options.direction == Direction::Ingress ==> !egress_only(input.spec_of())),
{
    match options.reading() {
        RuleReading::Read(input) => {
            let rules = seq![input.spec_of()];
            assert(rules[0] == input.spec_of());
        },
        RuleReading::Refused(_) => {},
    }
}

} // verus!
