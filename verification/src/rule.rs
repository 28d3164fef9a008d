//! Rules as users write them, with percentages and optional parts, and their
//! conversion to the wire form. Every input path goes through here, so that
//! they all reject and round alike.

use vstd::prelude::*;
use vstd::string::*;
use crate::common::{
    LOSS_ALGORITHM_GILBERT_ELLIOTT, LOSS_ALGORITHM_HASH, LOSS_ALGORITHM_RANDOM, PERMYRIAD,
    PROTOCOL_ANY,
};
use crate::duration::Duration;
use crate::net::IpNet;
use crate::protocol::{about_rule, first_error, reports, rule_message, RuleSpec};

verus! {

/// A percentage as far as rules depend on it.
#[derive(Clone, Copy, Debug, PartialEq, Eq, Structural)]
pub enum Percent {
    /// Not a number between zero and one hundred.
    Outside,
    /// A number between zero and one hundred: whether it is above zero, and its
    /// hundredths rounded to the nearest.
    Within { positive: bool, permyriad: u32 },
}

impl Percent {
    /// Zero percent.
    pub open spec fn zero() -> Percent {
        Percent::Within { positive: false, permyriad: 0 }
    }

    /// Zero rounds to zero, and nothing rounds to more than a hundred percent.
    pub open spec fn wf(self) -> bool {
        self matches Percent::Within { positive, permyriad } ==> permyriad <= PERMYRIAD && (positive
            || permyriad == 0)
    }

    /// Whether the number is above zero.
    pub open spec fn above_zero(self) -> bool {
        self matches Percent::Within { positive, .. } && positive
    }

    /// The rounded rate.
    pub open spec fn rate(self) -> u32 {
        match self {
            Percent::Within { permyriad, .. } => permyriad,
            Percent::Outside => 0,
        }
    }

    /// A percentage of whole and hundredth parts: `permyriad` hundredths.
    pub fn of(permyriad: u32) -> (r: Percent)
        ensures
            r == (if permyriad > PERMYRIAD {
                Percent::Outside
            } else {
                Percent::Within { positive: permyriad > 0, permyriad }
            }),
            r.wf(),
    {
        if permyriad > PERMYRIAD {
            Percent::Outside
        } else {
            Percent::Within { positive: permyriad > 0, permyriad }
        }
    }

    pub fn is_positive(&self) -> (r: bool)
        ensures
            r == self.above_zero(),
    {
        match self {
            Percent::Within { positive, .. } => *positive,
            Percent::Outside => false,
        }
    }

    /// The rate in ten-thousandths.
    pub fn quantize_loss(&self) -> (r: u32)
        ensures
            r == self.rate(),
    {
        match self {
            Percent::Within { permyriad, .. } => *permyriad,
            Percent::Outside => 0,
        }
    }
}

/// A rule before its conversion to the wire form.
#[derive(Clone, Copy, Debug)]
pub struct RuleInput {
    pub id: u32,
    pub source: Option<IpNet>,
    pub destination: IpNet,
    pub protocol: u8,
    pub destination_port: u16,
    pub loss: Percent,
    pub loss_algorithm: u8,
    pub seed: u32,
    pub burst_loss: Option<Percent>,
    pub burst_recovery: Percent,
    pub burst_bad_loss: Percent,
    pub burst_good_loss: Percent,
    pub burst_idle_reset: Option<Duration>,
    pub duplicate: Percent,
    pub reorder: Percent,
    pub delay: Option<Duration>,
    pub jitter: Option<Duration>,
    pub bandwidth_bps: Option<u64>,
}

/// What is wrong with a percentage: it lies outside its range, or rounding
/// would make it disappear.
pub open spec fn percentage_error(id: u32, name: Seq<char>, value: Percent) -> Option<Seq<char>> {
    match value {
        Percent::Outside => Some(about_rule(id, " has "@ + name + " outside 0..=100%"@)),
        Percent::Within { positive, permyriad } => if positive && permyriad == 0 {
            Some(
                about_rule(
                    id,
                    " has "@ + name + " below the representable minimum of 0.01%"@,
                ),
            )
        } else {
            None
        },
    }
}

fn validate_percentage(id: u32, name: &str, value: Percent) -> (r: Result<(), String>)
    ensures
        reports(r, percentage_error(id, name@, value)),
{
    match value {
        Percent::Outside => {
            let mut rest = " has ".to_owned();
            rest.append(name);
            rest.append(" outside 0..=100%");
            Err(rule_message(id, rest.as_str()))
        },
        Percent::Within { positive, permyriad } => {
            if positive && permyriad == 0 {
                let mut rest = " has ".to_owned();
                rest.append(name);
                rest.append(" below the representable minimum of 0.01%");
                Err(rule_message(id, rest.as_str()))
            } else {
                Ok(())
            }
        },
    }
}

/// A length of time in nanoseconds, capped; zero without one.
pub open spec fn nanos_of(value: Option<Duration>) -> u64 {
    match value {
        Some(duration) => if duration.nanos > u64::MAX {
            u64::MAX
        } else {
            duration.nanos as u64
        },
        None => 0,
    }
}

fn duration_ns(value: Option<Duration>) -> (r: u64)
    ensures
        r == nanos_of(value),
{
    match value {
        Some(duration) => duration.as_nanos_capped(),
        None => 0,
    }
}

impl RuleInput {
    pub open spec fn percentages_error(self) -> Option<Seq<char>> {
        first_error(
            percentage_error(self.id, "loss"@, self.loss),
            first_error(
                percentage_error(self.id, "burst recovery"@, self.burst_recovery),
                first_error(
                    percentage_error(self.id, "burst bad loss"@, self.burst_bad_loss),
                    first_error(
                        percentage_error(self.id, "burst good loss"@, self.burst_good_loss),
                        first_error(
                            percentage_error(self.id, "duplication"@, self.duplicate),
                            first_error(
                                percentage_error(self.id, "reordering"@, self.reorder),
                                match self.burst_loss {
                                    Some(value) => percentage_error(
                                        self.id,
                                        "burst loss"@,
                                        value,
                                    ),
                                    None => None,
                                },
                            ),
                        ),
                    ),
                ),
            ),
        )
    }

    pub open spec fn filter_error(self) -> Option<Seq<char>> {
        if self.destination_port != 0 && self.protocol == PROTOCOL_ANY {
            Some(about_rule(self.id, " specifies a port without TCP or UDP"@))
        } else {
            None
        }
    }

    pub open spec fn impairments_error(self) -> Option<Seq<char>> {
        if self.jitter is Some && self.delay is None {
            Some(about_rule(self.id, " uses jitter without delay"@))
        } else if self.reorder.above_zero() && self.delay is None {
            Some(about_rule(self.id, " uses reordering without delay"@))
        } else if self.delay is Some && self.delay->0.nanos == 0 {
            Some(about_rule(self.id, " has zero delay"@))
        } else if self.jitter is Some && self.jitter->0.nanos == 0 {
            Some(about_rule(self.id, " has zero jitter"@))
        } else {
            None
        }
    }

    /// Whether the rule uses the two-state burst process.
    pub open spec fn bursts(self) -> bool {
        self.burst_loss is Some || self.loss_algorithm == LOSS_ALGORITHM_GILBERT_ELLIOTT
    }

    pub open spec fn burst_error(self) -> Option<Seq<char>> {
        if self.burst_idle_reset is Some && self.burst_idle_reset->0.nanos < 1_000_000_000 {
            Some(about_rule(self.id, " has burst_idle_reset below 1s"@))
        } else if self.burst_loss is Some && self.loss != Percent::zero() {
            Some(
                about_rule(
                    self.id,
                    " cannot combine loss with burst_loss; use burst_good_loss instead"@,
                ),
            )
        } else if self.burst_loss is Some && self.loss_algorithm == LOSS_ALGORITHM_RANDOM {
            Some(
                about_rule(
                    self.id,
                    " cannot combine burst_loss with the random loss algorithm"@,
                ),
            )
        } else if self.bursts() && self.burst_loss is None {
            Some(about_rule(self.id, " uses gilbert-elliott without burst_loss"@))
        } else if self.bursts() && (self.burst_loss->0.rate() == 0 || self.burst_recovery.rate()
            == 0) {
            Some(about_rule(self.id, " requires non-zero burst loss and recovery"@))
        } else {
            None
        }
    }

    pub open spec fn algorithm_error(self) -> Option<Seq<char>> {
        if self.loss_algorithm != LOSS_ALGORITHM_HASH && self.loss_algorithm
            != LOSS_ALGORITHM_RANDOM && self.loss_algorithm != LOSS_ALGORITHM_GILBERT_ELLIOTT {
            Some(about_rule(self.id, " has an unknown loss algorithm"@))
        } else {
            None
        }
    }

    /// The first thing that is wrong with the input itself.
    pub open spec fn input_error(self) -> Option<Seq<char>> {
        first_error(
            self.percentages_error(),
            first_error(
                self.filter_error(),
                first_error(
                    self.impairments_error(),
                    first_error(self.burst_error(), self.algorithm_error()),
                ),
            ),
        )
    }

    /// The wire form of the rule.
    pub open spec fn spec_of(self) -> RuleSpec {
        RuleSpec {
            id: self.id,
            source: self.source,
            destination: self.destination,
            protocol: self.protocol,
            destination_port: self.destination_port,
            seed: self.seed,
            loss_algorithm: if self.bursts() {
                LOSS_ALGORITHM_GILBERT_ELLIOTT
            } else {
                self.loss_algorithm
            },
            drop_permyriad: self.loss.rate(),
            ge_enter_permyriad: match self.burst_loss {
                Some(value) => value.rate(),
                None => 0,
            },
            ge_recover_permyriad: if self.bursts() {
                self.burst_recovery.rate()
            } else {
                0
            },
            ge_good_loss_permyriad: if self.bursts() {
                self.burst_good_loss.rate()
            } else {
                0
            },
            ge_bad_loss_permyriad: if self.bursts() {
                self.burst_bad_loss.rate()
            } else {
                0
            },
            ge_idle_reset_secs: match self.burst_idle_reset {
                Some(duration) => if duration.nanos / 1_000_000_000 > u32::MAX {
                    u32::MAX
                } else {
                    (duration.nanos / 1_000_000_000) as u32
                },
                None => 0,
            },
            duplicate_permyriad: self.duplicate.rate(),
            reorder_permyriad: self.reorder.rate(),
            delay_ns: nanos_of(self.delay),
            jitter_ns: nanos_of(self.jitter),
            bandwidth_bps: match self.bandwidth_bps {
                Some(value) => value,
                None => 0,
            },
        }
    }

    /// The first thing that keeps the rule from being compiled.
    pub open spec fn error(self) -> Option<Seq<char>> {
        first_error(self.input_error(), self.spec_of().error())
    }

    /// Checks the input and converts it.
    pub fn compile(&self) -> (r: Result<RuleSpec, String>)
        ensures
            match (r, self.error()) {
                (Ok(spec), None) => spec == self.spec_of(),
                (Err(message), Some(wanted)) => message@ == wanted,
                _ => false,
            },
    {
        match self.validate() {
            Ok(_) => {},
            Err(message) => return Err(message),
        }
        let spec = self.into_spec();
        match spec.validate() {
            Ok(_) => Ok(spec),
            Err(message) => Err(message),
        }
    }

    fn validate(&self) -> (r: Result<(), String>)
        ensures
            reports(r, self.input_error()),
    {
        match self.validate_percentages() {
            Ok(_) => {},
            Err(message) => return Err(message),
        }
        match self.validate_filter() {
            Ok(_) => {},
            Err(message) => return Err(message),
        }
        match self.validate_impairments() {
            Ok(_) => {},
            Err(message) => return Err(message),
        }
        match self.validate_burst_loss() {
            Ok(_) => {},
            Err(message) => return Err(message),
        }
        self.validate_algorithm()
    }

    fn validate_percentages(&self) -> (r: Result<(), String>)
        ensures
            reports(r, self.percentages_error()),
    {
        match validate_percentage(self.id, "loss", self.loss) {
            Ok(_) => {},
            Err(message) => return Err(message),
        }
        match validate_percentage(self.id, "burst recovery", self.burst_recovery) {
            Ok(_) => {},
            Err(message) => return Err(message),
        }
        match validate_percentage(self.id, "burst bad loss", self.burst_bad_loss) {
            Ok(_) => {},
            Err(message) => return Err(message),
        }
        match validate_percentage(self.id, "burst good loss", self.burst_good_loss) {
            Ok(_) => {},
            Err(message) => return Err(message),
        }
        match validate_percentage(self.id, "duplication", self.duplicate) {
            Ok(_) => {},
            Err(message) => return Err(message),
        }
        match validate_percentage(self.id, "reordering", self.reorder) {
            Ok(_) => {},
            Err(message) => return Err(message),
        }
        match self.burst_loss {
            Some(value) => validate_percentage(self.id, "burst loss", value),
            None => Ok(()),
        }
    }

    fn validate_filter(&self) -> (r: Result<(), String>)
        ensures
            reports(r, self.filter_error()),
    {
        if self.destination_port != 0 && self.protocol == PROTOCOL_ANY {
            Err(rule_message(self.id, " specifies a port without TCP or UDP"))
        } else {
            Ok(())
        }
    }

    fn validate_impairments(&self) -> (r: Result<(), String>)
        ensures
            reports(r, self.impairments_error()),
    {
        if self.jitter.is_some() && self.delay.is_none() {
            return Err(rule_message(self.id, " uses jitter without delay"));
        }
        if self.reorder.is_positive() && self.delay.is_none() {
            return Err(rule_message(self.id, " uses reordering without delay"));
        }
        if let Some(duration) = self.delay {
            if duration.is_zero() {
                return Err(rule_message(self.id, " has zero delay"));
            }
        }
        if let Some(duration) = self.jitter {
            if duration.is_zero() {
                return Err(rule_message(self.id, " has zero jitter"));
            }
        }
        Ok(())
    }

    fn validate_burst_loss(&self) -> (r: Result<(), String>)
        ensures
            reports(r, self.burst_error()),
    {
        if let Some(duration) = self.burst_idle_reset {
            if duration.nanos < 1_000_000_000 {
                return Err(rule_message(self.id, " has burst_idle_reset below 1s"));
            }
        }
        if self.burst_loss.is_some() {
            if self.loss != (Percent::Within { positive: false, permyriad: 0 }) {
                return Err(
                    rule_message(
                        self.id,
                        " cannot combine loss with burst_loss; use burst_good_loss instead",
                    ),
                );
            }
            if self.loss_algorithm == LOSS_ALGORITHM_RANDOM {
                return Err(
                    rule_message(
                        self.id,
                        " cannot combine burst_loss with the random loss algorithm",
                    ),
                );
            }
        }
        if self.ge_enabled() {
            let burst = match self.burst_loss {
                Some(value) => value,
                None => return Err(rule_message(self.id, " uses gilbert-elliott without burst_loss")),
            };
            if burst.quantize_loss() == 0 || self.burst_recovery.quantize_loss() == 0 {
                return Err(rule_message(self.id, " requires non-zero burst loss and recovery"));
            }
        }
        Ok(())
    }

    fn validate_algorithm(&self) -> (r: Result<(), String>)
        ensures
            reports(r, self.algorithm_error()),
    {
        if self.loss_algorithm != LOSS_ALGORITHM_HASH && self.loss_algorithm
            != LOSS_ALGORITHM_RANDOM && self.loss_algorithm != LOSS_ALGORITHM_GILBERT_ELLIOTT {
            Err(rule_message(self.id, " has an unknown loss algorithm"))
        } else {
            Ok(())
        }
    }

    fn ge_enabled(&self) -> (r: bool)
        ensures
            r == self.bursts(),
    {
        self.burst_loss.is_some() || self.loss_algorithm == LOSS_ALGORITHM_GILBERT_ELLIOTT
    }

    fn into_spec(&self) -> (r: RuleSpec)
        ensures
            r == self.spec_of(),
    {
        let ge_enabled = self.ge_enabled();
        let reset: u32 = match self.burst_idle_reset {
            Some(duration) => {
                let secs: u128 = duration.nanos / 1_000_000_000;
                if secs > u32::MAX as u128 {
                    u32::MAX
                } else {
                    secs as u32
                }
            },
            None => 0,
        };
        RuleSpec {
            id: self.id,
            source: self.source,
            destination: self.destination,
            protocol: self.protocol,
            destination_port: self.destination_port,
            seed: self.seed,
            loss_algorithm: if ge_enabled {
                LOSS_ALGORITHM_GILBERT_ELLIOTT
            } else {
                self.loss_algorithm
            },
            drop_permyriad: self.loss.quantize_loss(),
            ge_enter_permyriad: match self.burst_loss {
                Some(value) => value.quantize_loss(),
                None => 0,
            },
            ge_recover_permyriad: if ge_enabled {
                self.burst_recovery.quantize_loss()
            } else {
                0
            },
            ge_good_loss_permyriad: if ge_enabled {
                self.burst_good_loss.quantize_loss()
            } else {
                0
            },
            ge_bad_loss_permyriad: if ge_enabled {
                self.burst_bad_loss.quantize_loss()
            } else {
                0
            },
            ge_idle_reset_secs: reset,
            duplicate_permyriad: self.duplicate.quantize_loss(),
            reorder_permyriad: self.reorder.quantize_loss(),
            delay_ns: duration_ns(self.delay),
            jitter_ns: duration_ns(self.jitter),
            bandwidth_bps: match self.bandwidth_bps {
                Some(value) => value,
                None => 0,
            },
        }
    }
}

/// A percentage that was asked for never disappears: where an input passes,
/// each rate above zero stays above zero on the wire.
pub proof fn accepted_rates_survive_rounding(input: RuleInput)
    requires
        input.error() is None,
    ensures
        input.loss.above_zero() ==> input.spec_of().drop_permyriad > 0,
        input.duplicate.above_zero() ==> input.spec_of().duplicate_permyriad > 0,
        input.reorder.above_zero() ==> input.spec_of().reorder_permyriad > 0,
        input.burst_loss is Some ==> input.spec_of().ge_enter_permyriad > 0
            && input.spec_of().ge_recover_permyriad > 0 && input.spec_of().loss_algorithm
            == LOSS_ALGORITHM_GILBERT_ELLIOTT && input.spec_of().drop_permyriad == 0,
{
}

} // verus!
