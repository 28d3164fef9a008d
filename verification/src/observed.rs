//! An experiment that runs and is watched: its events, what is recorded of
//! them, and what the screen shows.

use vstd::prelude::*;
use vstd::string::*;
use crate::console::{App, Screen};
use crate::driver::{
    follows, planned_traffic, rule_impairs, rules_impair, starts_traffic, status_shown, times_of,
    traffic_fault, ApplyEvent, ExperimentDriver, Generator, Progress, TrafficPlan,
};
use crate::duration::Duration;
use crate::execution::ExperimentExecution;
use crate::json::{json_string, json_unsigned, read_string, read_unsigned};
use crate::protocol::{rules_of, RuleSpec, Timeline, TimelineEvent};
use crate::recorder::{duration_ms, millis_of, noted, seen_since, ObservationRecorder};
use crate::text::{decimal, digits, optional_text, same_text};
use crate::traffic::TrafficStatus;
use crate::workload_spec::{AttachSpec, TrafficSpec};

verus! {

/// The phase that an event brings an experiment into.
pub open spec fn phase_of(impairs: bool, index: int) -> Seq<char> {
    if impairs {
        "Impair"@
    } else if index == 0 {
        "Connect"@
    } else {
        "Observe"@
    }
}

/// Whether one of the rules asks for a fault.
pub open spec fn impaired(rules: Seq<RuleSpec>) -> bool {
    exists|i: int| 0 <= i < rules.len() && rule_impairs(#[trigger] rules[i])
}

/// Why a message ends an experiment.
pub open spec fn agent_error(line: Seq<char>) -> Option<Seq<char>> {
    if json_string(line, "type"@) == Some("error"@) {
        Some(
            "timeline event failed: "@ + match json_string(line, "message"@) {
                Some(message) => message,
                None => "unknown agent error"@,
            },
        )
    } else {
        None
    }
}

/// The request that a message says was carried out.
pub open spec fn applied_request(line: Seq<char>) -> Option<u64> {
    if json_string(line, "type"@) == Some("applied"@) {
        json_unsigned(line, "id"@)
    } else {
        None
    }
}

fn read_agent_error(line: &str) -> (r: Option<String>)
    ensures
        optional_text(r) == agent_error(line@),
{
    match read_string(line, "type") {
        Some(kind) => {
            if !same_text(kind.as_str(), "error") {
                return None;
            }
            let mut message = "timeline event failed: ".to_owned();
            match read_string(line, "message") {
                Some(text) => {
                    message.append(text.as_str());
                },
                None => {
                    message.append("unknown agent error");
                },
            }
            Some(message)
        },
        None => None,
    }
}

fn read_applied(line: &str) -> (r: Option<u64>)
    ensures
        r == applied_request(line@),
{
    match read_string(line, "type") {
        Some(kind) => if same_text(kind.as_str(), "applied") {
            read_unsigned(line, "id")
        } else {
            None
        },
        None => None,
    }
}

/// Checks the moment at which the screen is to be printed.
pub fn check_snapshot(after_ms: Option<u64>) -> (r: Result<(), String>)
    ensures
        crate::protocol::reports(
            r,
            if after_ms == Some(0u64) {
                Some("--snapshot-after-ms must be greater than zero"@)
            } else {
                None
            },
        ),
{
    match after_ms {
        Some(moment) => if moment == 0 {
            Err("--snapshot-after-ms must be greater than zero".to_owned())
        } else {
            Ok(())
        },
        None => Ok(()),
    }
}

/// How an experiment goes on.
#[derive(Clone, Copy, Debug, PartialEq, Eq, Structural)]
pub enum RunStep {
    Continue,
    Finished,
    /// An acknowledgement is overdue.
    TimedOut,
}

/// An experiment that runs and is watched.
pub struct ObservedRun<'a> {
    driver: ExperimentDriver<'a>,
    recorder: ObservationRecorder,
    app: App,
    /// The moment at which the screen is printed, if it is, in milliseconds.
    snapshot_ms: Option<u64>,
}

/// The moment at which the screen is printed: never behind the end of the
/// timeline.
pub open spec fn snapshot_moment(after_ms: Option<u64>, duration_ms: u64) -> Option<u64> {
    match after_ms {
        Some(moment) => Some(
            if moment < duration_ms {
                moment
            } else {
                duration_ms
            },
        ),
        None => None,
    }
}

impl<'a> ObservedRun<'a> {
    pub closed spec fn events(&self) -> Seq<TimelineEvent> {
        self.driver.events()
    }

    pub closed spec fn progress(&self) -> Progress {
        self.driver.progress()
    }

    /// The traffic that the experiment brings.
    pub closed spec fn plan(&self) -> TrafficPlan {
        self.driver.plan()
    }

    /// Whether the traffic of the experiment was started.
    pub closed spec fn runs(&self) -> bool {
        self.driver.runs()
    }

    pub closed spec fn recorder(&self) -> ObservationRecorder {
        self.recorder
    }

    pub closed spec fn screen(&self) -> Screen {
        self.app@
    }

    pub closed spec fn snapshot(&self) -> Option<u64> {
        self.snapshot_ms
    }

    /// What is recorded is in step with what was handed out: both wait for the
    /// same event.
    pub open spec fn wf(&self) -> bool {
        &&& self.progress().wf()
        &&& self.screen().wf()
        &&& self.recorder().wf()
        &&& match (self.progress().pending, self.recorder().pending) {
            (Some((_, index)), Some(pending)) => index == pending.event_index,
            (None, None) => true,
            _ => false,
        }
    }

    pub fn new(
        timeline: &'a Timeline,
        traffic_plan: Option<(&'a AttachSpec, &'a TrafficSpec)>,
        snapshot_after_ms: Option<u64>,
    ) -> (r: ObservedRun<'a>)
        ensures
            r.wf(),
            r.events() == timeline.events@,
            r.progress() == Progress::begun(times_of(timeline.events@), timeline.duration_ms),
            r.plan() == planned_traffic(traffic_plan),
            !r.runs(),
            r.snapshot() == snapshot_moment(snapshot_after_ms, timeline.duration_ms),
            r.recorder().is_fresh(),
            r.screen() == Screen::opened(),
    {
        let snapshot_ms = match snapshot_after_ms {
            Some(moment) => Some(
                if moment < timeline.duration_ms {
                    moment
                } else {
                    timeline.duration_ms
                },
            ),
            None => None,
        };
        ObservedRun {
            driver: ExperimentDriver::new(timeline, traffic_plan),
            recorder: ObservationRecorder::default(),
            app: App::new(),
            snapshot_ms,
        }
    }

    /// The screen.
    pub fn app(&self) -> (r: &App)
        ensures
            r@ == self.screen(),
    {
        &self.app
    }

    /// Shows how generated traffic fares, given the status of its generator;
    /// before it has started, zeros.
    pub fn show_traffic(&mut self, status: Option<TrafficStatus>)
        requires
            old(self).wf(),
        ensures
            final(self).wf(),
            final(self).events() == old(self).events(),
            final(self).progress() == old(self).progress(),
            final(self).plan() == old(self).plan(),
            final(self).runs() == old(self).runs(),
            final(self).recorder() == old(self).recorder(),
            final(self).snapshot() == old(self).snapshot(),
            final(self).screen() == (Screen {
                traffic: status_shown(old(self).runs(), status),
                ..old(self).screen()
            }),
    {
        self.app.traffic = self.driver.traffic_status(status);
    }

    /// Hands out the event that is due, if one is. It is to be sent, and then
    /// `sent` is to be called.
    pub fn next_event(&mut self, elapsed: Duration) -> (r: Option<ApplyEvent>)
        requires
            old(self).wf(),
        ensures
            final(self).events() == old(self).events(),
            final(self).progress() == old(self).progress().after_time(elapsed),
            final(self).progress().wf(),
            final(self).plan() == old(self).plan(),
            final(self).runs() == old(self).runs(),
            final(self).snapshot() == old(self).snapshot(),
            match r {
                Some(event) => {
                    &&& old(self).progress().due(elapsed)
                    &&& event.index == old(self).progress().next
                    &&& event.id == event.index + 1
                    &&& event.index < old(self).events().len()
                    &&& event.at_ms == old(self).events()[event.index as int].at_ms
                    &&& event.rules@ == old(self).events()[event.index as int].rules@
                    &&& final(self).progress().pending == Some((event.id, event.index as int))
                    &&& final(self).recorder() == old(self).recorder()
                    &&& final(self).screen() == old(self).screen()
                },
                None => {
                    &&& !old(self).progress().due(elapsed)
                    &&& final(self).recorder() == old(self).recorder()
                    &&& final(self).screen() == old(self).screen()
                },
            },
    {
        self.driver.next_at(elapsed)
    }

    /// Notes that an event was sent, and shows it.
    pub fn sent(&mut self, event: &ApplyEvent, elapsed: Duration, sent_at: Duration)
        requires
            old(self).progress().wf(),
            old(self).screen().wf(),
            old(self).recorder().wf(),
            old(self).progress().pending == Some((event.id, event.index as int)),
        ensures
            final(self).wf(),
            final(self).events() == old(self).events(),
            final(self).progress() == old(self).progress(),
            final(self).plan() == old(self).plan(),
            final(self).runs() == old(self).runs(),
            final(self).snapshot() == old(self).snapshot(),
            final(self).recorder().pending matches Some(pending) && pending.event_index
                == event.index && pending.scheduled_at_ms == event.at_ms
                && pending.requested_at_ms == millis_of(elapsed) && pending.rules@ == event.rules@
                && pending.sent_at == sent_at,
            final(self).recorder().applied_events == old(self).recorder().applied_events,
            final(self).recorder().same_rules(old(self).recorder()),
            final(self).recorder().observed_since_apply == old(
                self,
            ).recorder().observed_since_apply,
            final(self).recorder().same_observations(old(self).recorder()),
            final(self).screen() == (Screen {
                phase: phase_of(impaired(event.rules@), event.index as int),
                status: "applying event "@ + digits(event.index as nat) + " at "@ + digits(
                    event.at_ms as nat,
                ) + "ms"@,
                ..old(self).screen()
            }),
    {
        self.recorder.requested(event, elapsed, sent_at);
        let impairs = rules_impair(&event.rules);
        assert(impairs == impaired(event.rules@));
        self.app.phase = if impairs {
            "Impair".to_owned()
        } else if event.index == 0 {
            "Connect".to_owned()
        } else {
            "Observe".to_owned()
        };
        let mut status = "applying event ".to_owned();
        status.append(decimal(event.index as u64).as_str());
        status.append(" at ");
        status.append(decimal(event.at_ms).as_str());
        status.append("ms");
        self.app.status = status;
    }

    /// Takes a message, and gives the traffic of the experiment if it starts now.
    /// `parsed` holds the rules that the message tells, if they could be read. A
    /// failed event, an answer to another request than the one that waits, or
    /// traffic that cannot be generated ends the experiment.
    pub fn receive(&mut self, line: &str, parsed: Option<Vec<RuleSpec>>, elapsed: Duration) -> (r:
        Result<Option<Generator>, String>)
        requires
            old(self).wf(),
        ensures
            r is Ok || traffic_fault(old(self).plan()) is None ==> final(self).wf(),
            final(self).events() == old(self).events(),
            final(self).plan() == old(self).plan(),
            final(self).runs() == (old(self).runs() || (agent_error(line@) is None
                && applied_request(line@) is Some && starts_traffic(
                old(self).progress(),
                old(self).plan(),
                applied_request(line@)->0,
            ))),
            final(self).snapshot() == old(self).snapshot(),
            final(self).progress() == (match (agent_error(line@), applied_request(line@)) {
                (None, Some(id)) => old(self).progress().after_acknowledgement(id),
                _ => old(self).progress(),
            }),
            match agent_error(line@) {
                Some(wanted) => {
                    &&& r matches Err(message) && message@ == wanted
                    &&& final(self).recorder() == old(self).recorder()
                    &&& final(self).screen() == old(self).screen()
                },
                None => {
                    &&& final(self).screen() == old(self).screen().with_message(
                        line@,
                        match parsed {
                            Some(list) => Some(rules_of(list@)),
                            None => None,
                        },
                        millis_of(elapsed),
                    )
                    &&& noted(final(self).recorder(), old(self).recorder(), line@, elapsed)
                    &&& match (applied_request(line@), old(self).progress().pending) {
                        (Some(id), Some((pending, index))) => if pending == id && index == 0
                            && traffic_fault(old(self).plan()) is Some {
                            &&& r matches Err(message) && traffic_fault(old(self).plan()) == Some(
                                message@,
                            )
                            &&& final(self).recorder().same_schedule(old(self).recorder())
                            &&& final(self).recorder().observed_since_apply@ == seen_since(
                                old(self).recorder(),
                                line@,
                            )
                        } else if pending == id {
                            &&& r matches Ok(traffic) && (traffic is Some <==> starts_traffic(
                                old(self).progress(),
                                old(self).plan(),
                                id,
                            )) && (traffic matches Some(generator) ==> follows(
                                generator,
                                old(self).plan(),
                            ))
                            &&& final(self).recorder().pending is None
                            &&& final(self).recorder().activates(
                                old(self).recorder(),
                                old(self).recorder().pending->0,
                                elapsed,
                            )
                        } else {
                            &&& r matches Err(message) && message@ == "acknowledgement "@ + digits(
                                id as nat,
                            ) + " does not match pending event "@ + digits(pending as nat)
                            &&& final(self).recorder().same_schedule(old(self).recorder())
                            &&& final(self).recorder().observed_since_apply@ == seen_since(
                                old(self).recorder(),
                                line@,
                            )
                        },
                        _ => {
                            &&& r matches Ok(traffic) && traffic is None
                            &&& final(self).recorder().same_schedule(old(self).recorder())
                            &&& final(self).recorder().observed_since_apply@ == seen_since(
                                old(self).recorder(),
                                line@,
                            )
                        },
                    }
                },
            },
    {
        if let Some(message) = read_agent_error(line) {
            return Err(message);
        }
        let applied = read_applied(line);
        self.recorder.message(line, elapsed);
        self.app.handle_message(line, parsed, duration_ms(elapsed));
        match applied {
            Some(id) => match self.driver.acknowledge(id) {
                Ok(taken) => {
                    if let Some(index) = taken.event {
                        self.recorder.applied(index, elapsed);
                    }
                    Ok(taken.traffic)
                },
                Err(message) => Err(message),
            },
            None => Ok(None),
        }
    }

    /// Decides how the experiment goes on. An overdue acknowledgement is told
    /// before anything else. With a moment to print the screen, the experiment
    /// ends there, but not before the last event that was sent is acknowledged.
    pub fn step(&self, elapsed: Duration, now: Duration, timeout: Duration, cancelled: bool) -> (r:
        RunStep)
        ensures
            r == (if self.recorder().pending matches Some(pending) && now.nanos
                >= pending.sent_at.nanos + timeout.nanos {
                RunStep::TimedOut
            } else if self.progress().complete(elapsed) || cancelled || (
            self.snapshot() matches Some(moment) && elapsed.nanos >= moment * 1_000_000
                && self.recorder().pending is None) {
                RunStep::Finished
            } else {
                RunStep::Continue
            }),
    {
        if self.recorder.acknowledgement_timed_out(now, timeout) {
            return RunStep::TimedOut;
        }
        let printed = match self.snapshot_ms {
            Some(moment) => elapsed.nanos >= moment as u128 * 1_000_000
                && !self.recorder.has_pending(),
            None => false,
        };
        if self.driver.complete(elapsed) || cancelled || printed {
            RunStep::Finished
        } else {
            RunStep::Continue
        }
    }

    /// The record of the whole run, and the screen as it was last.
    pub fn finish(self, started_at_unix_ms: u64, completed_at_unix_ms: u64) -> (r: (
        ExperimentExecution,
        App,
    ))
        ensures
            r.0.started_at_unix_ms == started_at_unix_ms,
            r.0.completed_at_unix_ms == completed_at_unix_ms,
            r.0.applied_events == self.recorder().applied_events,
            r.0.rule_observations == self.recorder().rule_observations,
            r.0.selection_diagnostics == self.recorder().selection_diagnostics,
            r.0.final_rule_stats == self.recorder().final_rule_stats,
            r.0.final_diagnostics == self.recorder().final_diagnostics,
            r.1@ == self.screen(),
    {
        let record = self.recorder.finish(started_at_unix_ms, completed_at_unix_ms);
        (record, self.app)
    }
}

} // verus!
