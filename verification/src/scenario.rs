//! Rules of a scenario file, with times and bandwidths as texts.

use vstd::prelude::*;
use vstd::string::*;
use crate::duration::Duration;
use crate::net::IpNet;
use crate::options::{
    bandwidth_reading, duration_reading, parse_bandwidth, parse_duration, LossAlgorithm, Protocol,
};
use crate::protocol::{about_rule, rule_message, RuleSpec};
use crate::rule::{Percent, RuleInput};
use crate::text::same_text;

verus! {

/// One rule of a scenario file.
#[derive(Clone, Debug)]
pub struct ScenarioRule {
    pub id: u32,
    pub source: Option<IpNet>,
    pub destination: IpNet,
    pub protocol: Protocol,
    pub port: u16,
    pub loss: Percent,
    pub loss_algorithm: LossAlgorithm,
    pub seed: u32,
    pub burst_loss: Option<Percent>,
    pub burst_recovery: Percent,
    pub burst_bad_loss: Percent,
    pub burst_good_loss: Percent,
    pub burst_idle_reset: Option<String>,
    pub duplicate: Percent,
    pub reorder: Percent,
    pub delay: Option<String>,
    pub jitter: Option<String>,
    pub bandwidth: Option<String>,
}

/// The seed of a scenario rule that names none.
pub fn default_seed() -> (r: u32)
    ensures
        r == 1,
{
    1
}

/// What an optional length of time means for a rule.
pub open spec fn optional_duration(id: u32, name: Seq<char>, value: Option<String>) -> Result<
    Option<Duration>,
    Seq<char>,
> {
    match value {
        None => Ok(None),
        Some(text) => match duration_reading(text@) {
            Ok(duration) => Ok(Some(duration)),
            Err(cause) => Err(about_rule(id, " has invalid "@ + name + ": "@ + cause)),
        },
    }
}

/// What an optional bandwidth means for a rule.
pub open spec fn optional_bandwidth(id: u32, value: Option<String>) -> Result<
    Option<u64>,
    Seq<char>,
> {
    match value {
        None => Ok(None),
        Some(text) => match bandwidth_reading(text@) {
            Ok(bits) => Ok(Some(bits)),
            Err(cause) => Err(about_rule(id, " has invalid bandwidth: "@ + cause)),
        },
    }
}

impl ScenarioRule {
    /// A rule for a destination that changes nothing: all other parts as they
    /// are when a file leaves them out.
    pub fn new(id: u32, destination: IpNet) -> (r: ScenarioRule)
        ensures
            r.id == id && r.destination == destination && r.source is None,
            r.protocol == Protocol::Any && r.port == 0 && r.loss == Percent::zero(),
            r.loss_algorithm == LossAlgorithm::Hash && r.seed == 1 && r.burst_loss is None,
            r.burst_recovery == (Percent::Within { positive: true, permyriad: 2_500 }),
            r.burst_bad_loss == (Percent::Within { positive: true, permyriad: 10_000 }),
            r.burst_good_loss == Percent::zero() && r.burst_idle_reset is None,
            r.duplicate == Percent::zero() && r.reorder == Percent::zero(),
            r.delay is None && r.jitter is None && r.bandwidth is None,
    {
        ScenarioRule {
            id,
            source: None,
            destination,
            protocol: Protocol::Any,
            port: 0,
            loss: Percent::of(0),
            loss_algorithm: LossAlgorithm::Hash,
            seed: default_seed(),
            burst_loss: None,
            burst_recovery: Percent::of(2_500),
            burst_bad_loss: Percent::of(10_000),
            burst_good_loss: Percent::of(0),
            burst_idle_reset: None,
            duplicate: Percent::of(0),
            reorder: Percent::of(0),
            delay: None,
            jitter: None,
            bandwidth: None,
        }
    }

    /// The rule with its texts read.
    pub open spec fn input_with(
        self,
        burst_idle_reset: Option<Duration>,
        delay: Option<Duration>,
        jitter: Option<Duration>,
        bandwidth_bps: Option<u64>,
    ) -> RuleInput {
        RuleInput {
            id: self.id,
            source: self.source,
            destination: self.destination,
            protocol: self.protocol.code(),
            destination_port: self.port,
            loss: self.loss,
            loss_algorithm: self.loss_algorithm.code(),
            seed: self.seed,
            burst_loss: self.burst_loss,
            burst_recovery: self.burst_recovery,
            burst_bad_loss: self.burst_bad_loss,
            burst_good_loss: self.burst_good_loss,
            burst_idle_reset,
            duplicate: self.duplicate,
            reorder: self.reorder,
            delay,
            jitter,
            bandwidth_bps,
        }
    }

    /// The rule of a scenario, or the first thing that is wrong with it.
    pub open spec fn compilation(self) -> Result<RuleSpec, Seq<char>> {
        match optional_duration(self.id, "burst_idle_reset"@, self.burst_idle_reset) {
            Err(error) => Err(error),
            Ok(reset) => match optional_duration(self.id, "delay"@, self.delay) {
                Err(error) => Err(error),
                Ok(delay) => match optional_duration(self.id, "jitter"@, self.jitter) {
                    Err(error) => Err(error),
                    Ok(jitter) => match optional_bandwidth(self.id, self.bandwidth) {
                        Err(error) => Err(error),
                        Ok(bandwidth) => {
                            let input = self.input_with(reset, delay, jitter, bandwidth);
                            match input.error() {
                                Some(error) => Err(error),
                                None => Ok(input.spec_of()),
                            }
                        },
                    },
                },
            },
        }
    }

    /// Reads the texts of a rule and compiles it.
    pub fn compile(&self) -> (r: Result<RuleSpec, String>)
        ensures
            match (r, self.compilation()) {
                (Ok(spec), Ok(wanted)) => spec == wanted,
                (Err(message), Err(wanted)) => message@ == wanted,
                _ => false,
            },
    {
        let burst_idle_reset = match self.parse_optional_duration(
            "burst_idle_reset",
            &self.burst_idle_reset,
        ) {
            Ok(value) => value,
            Err(message) => return Err(message),
        };
        let delay = match self.parse_optional_duration("delay", &self.delay) {
            Ok(value) => value,
            Err(message) => return Err(message),
        };
        let jitter = match self.parse_optional_duration("jitter", &self.jitter) {
            Ok(value) => value,
            Err(message) => return Err(message),
        };
        let bandwidth_bps: Option<u64> = match &self.bandwidth {
            None => None,
            Some(text) => match parse_bandwidth(text.as_str()) {
                Ok(bits) => Some(bits),
                Err(cause) => {
                    let mut rest = " has invalid bandwidth: ".to_owned();
                    rest.append(cause.as_str());
                    return Err(rule_message(self.id, rest.as_str()));
                },
            },
        };
        RuleInput {
            id: self.id,
            source: self.source,
            destination: self.destination,
            protocol: self.protocol.number(),
            destination_port: self.port,
            loss: self.loss,
            loss_algorithm: self.loss_algorithm.number(),
            seed: self.seed,
            burst_loss: self.burst_loss,
            burst_recovery: self.burst_recovery,
            burst_bad_loss: self.burst_bad_loss,
            burst_good_loss: self.burst_good_loss,
            burst_idle_reset,
            duplicate: self.duplicate,
            reorder: self.reorder,
            delay,
            jitter,
            bandwidth_bps,
        }.compile()
    }

    fn parse_optional_duration(&self, name: &str, value: &Option<String>) -> (r: Result<
        Option<Duration>,
        String,
    >)
        ensures
            match (r, optional_duration(self.id, name@, *value)) {
                (Ok(actual), Ok(wanted)) => actual == wanted,
                (Err(message), Err(wanted)) => message@ == wanted,
                _ => false,
            },
    {
        match value {
            None => Ok(None),
            Some(text) => match parse_duration(text.as_str()) {
                Ok(duration) => Ok(Some(duration)),
                Err(cause) => {
                    let mut rest = " has invalid ".to_owned();
                    rest.append(name);
                    rest.append(": ");
                    rest.append(cause.as_str());
                    Err(rule_message(self.id, rest.as_str()))
                },
            },
        }
    }
}

/// The first thing that is wrong with the rules from `from` on.
pub open spec fn rules_error(rules: Seq<ScenarioRule>, from: int) -> Option<Seq<char>>
    decreases rules.len() - from,
{
    if from >= rules.len() {
        None
    } else {
        match rules[from].compilation() {
            Err(error) => Some(error),
            Ok(_) => rules_error(rules, from + 1),
        }
    }
}

/// The first thing that is wrong with a scenario.
pub open spec fn scenario_error(rules: Seq<ScenarioRule>) -> Option<Seq<char>> {
    if rules.len() == 0 {
        Some("scenario must contain at least one rule"@)
    } else {
        rules_error(rules, 0)
    }
}

/// Compiles the rules of a scenario, in their order, or none of them.
pub fn compile_scenario(rules: &Vec<ScenarioRule>) -> (r: Result<Vec<RuleSpec>, String>)
    ensures
        match (r, scenario_error(rules@)) {
            (Ok(specs), None) => specs@.len() == rules@.len() && forall|i: int|
                0 <= i < rules@.len() ==> (#[trigger] rules@[i]).compilation() == Ok::<
                    RuleSpec,
                    Seq<char>,
                >(specs@[i]),
            (Err(message), Some(wanted)) => message@ == wanted,
            _ => false,
        },
{
    if rules.len() == 0 {
        return Err("scenario must contain at least one rule".to_owned());
    }
    let mut specs: Vec<RuleSpec> = Vec::new();
    let mut index: usize = 0;
    while index < rules.len()
        invariant
            index <= rules@.len(),
            rules@.len() > 0,
            specs@.len() == index,
            rules_error(rules@, 0) == rules_error(rules@, index as int),
            forall|i: int|
                0 <= i < index ==> (#[trigger] rules@[i]).compilation() == Ok::<
                    RuleSpec,
                    Seq<char>,
                >(specs@[i]),
        decreases rules@.len() - index,
    {
        match rules[index].compile() {
            Ok(spec) => specs.push(spec),
            Err(message) => return Err(message),
        }
        index += 1;
    }
    Ok(specs)
}

/// How a file is encoded.
#[derive(Clone, Copy, Debug, PartialEq, Eq, Structural)]
pub enum Encoding {
    Yaml,
    Json,
}

/// The encoding that a file extension announces.
pub open spec fn encoding_of(extension: Option<Seq<char>>) -> Option<Encoding> {
    match extension {
        Some(text) => if text == "yaml"@ || text == "yml"@ {
            Some(Encoding::Yaml)
        } else if text == "json"@ {
            Some(Encoding::Json)
        } else {
            None
        },
        None => None,
    }
}

/// Decides how a scenario, timeline or experiment file is decoded. Other
/// extensions are refused rather than guessed at.
pub fn decode_as(subject: &str, extension: Option<&str>) -> (r: Result<Encoding, String>)
    ensures
        match (
            r,
            encoding_of(
                match extension {
                    Some(text) => Some(text@),
                    None => None,
                },
            ),
        ) {
            (Ok(encoding), Some(wanted)) => encoding == wanted,
            (Err(message), None) => message@ == subject@
                + " file must have a .yaml, .yml, or .json extension"@,
            _ => false,
        },
{
    if let Some(text) = extension {
        if same_text(text, "yaml") || same_text(text, "yml") {
            return Ok(Encoding::Yaml);
        }
        if same_text(text, "json") {
            return Ok(Encoding::Json);
        }
    }
    let mut message = subject.to_owned();
    message.append(" file must have a .yaml, .yml, or .json extension");
    Err(message)
}

} // verus!
