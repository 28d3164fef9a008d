//! Traffic that an experiment generates, without a shell.

use vstd::prelude::*;
use vstd::string::*;
use crate::duration::Duration;
use crate::invocation::{Call, Invocation};
use crate::text::{decimal, digits};
use crate::workload_spec::{AttachSpec, Traffic, TrafficSpec, Workload};

verus! {

/// How generated traffic fares.
#[derive(Clone, Debug, PartialEq, Eq)]
pub struct TrafficStatus {
    pub attempts: u64,
    pub succeeded: u64,
    pub failed: u64,
    pub last_error: Option<String>,
}

impl Default for TrafficStatus {
    fn default() -> (r: Self)
        ensures
            r == (TrafficStatus { attempts: 0, succeeded: 0, failed: 0, last_error: None }),
    {
        TrafficStatus { attempts: 0, succeeded: 0, failed: 0, last_error: None }
    }
}

impl TrafficStatus {
    /// Every attempt succeeded or failed.
    pub open spec fn wf(self) -> bool {
        self.attempts == self.succeeded + self.failed
    }

    /// Counts an attempt: whether the command succeeded, or why it could not
    /// be run.
    pub fn record(&mut self, result: Result<bool, String>)
        requires
            old(self).wf(),
            old(self).attempts < u64::MAX,
        ensures
            final(self).wf(),
            final(self).attempts == old(self).attempts + 1,
            final(self).succeeded == old(self).succeeded + (if result == Ok::<bool, String>(true) {
                1int
            } else {
                0
            }),
            match result {
                Ok(_) => final(self).last_error == old(self).last_error,
                Err(message) => final(self).last_error == Some(message),
            },
    {
        self.attempts = self.attempts + 1;
        match result {
            Ok(success) => {
                if success {
                    self.succeeded = self.succeeded + 1;
                } else {
                    self.failed = self.failed + 1;
                }
            },
            Err(message) => {
                self.failed = self.failed + 1;
                self.last_error = Some(message);
            },
        }
    }
}

/// Milliseconds as seconds with three decimals.
pub open spec fn seconds_text(millis: u64) -> Seq<char> {
    digits((millis / 1000) as nat) + "."@ + digits((millis / 100 % 10) as nat) + digits(
        (millis / 10 % 10) as nat,
    ) + digits((millis % 10) as nat)
}

fn write_seconds(millis: u64) -> (r: String)
    ensures
        r@ == seconds_text(millis),
{
    let mut text = decimal(millis / 1000);
    text.append(".");
    text.append(decimal(millis / 100 % 10).as_str());
    text.append(decimal(millis / 10 % 10).as_str());
    text.append(decimal(millis % 10).as_str());
    text
}

/// The command that generates traffic once.
pub open spec fn traffic_call(traffic: Traffic) -> Call {
    match traffic {
        Traffic::Http { url, timeout_ms, .. } => Call {
            program: "curl"@,
            args: seq![
                "--silent"@,
                "--show-error"@,
                "--output"@,
                "/dev/null"@,
                "--max-time"@,
                seconds_text(timeout_ms),
                url,
            ],
        },
        Traffic::Command { program, args, .. } => Call { program, args },
    }
}

/// The command that generates traffic once. A request over HTTP is given up
/// after its timeout.
pub fn traffic_command(traffic: &TrafficSpec) -> (r: Invocation)
    ensures
        r@ == traffic_call(traffic@),
{
    match traffic {
        TrafficSpec::Http { url, timeout_ms, .. } => {
            let mut command = Invocation::new("curl");
            command.arg("--silent");
            command.arg("--show-error");
            command.arg("--output");
            command.arg("/dev/null");
            command.arg("--max-time");
            command.arg(write_seconds(*timeout_ms).as_str());
            command.arg(url.as_str());
            assert(command@.args =~= traffic_call(traffic@).args);
            command
        },
        TrafficSpec::Command { program, args, .. } => {
            let mut command = Invocation::new(program.as_str());
            command.args(args);
            assert(command@.args =~= traffic_call(traffic@).args);
            command
        },
    }
}

/// A command inside a workload: as it is on this machine, through the runtime
/// in a container. Arguments keep their boundaries.
pub open spec fn inside(attach: Workload, call: Call) -> Call {
    match attach {
        Workload::Local { .. } => call,
        Workload::Docker { container, .. } => Call {
            program: "docker"@,
            args: seq!["exec"@, container, call.program] + call.args,
        },
        Workload::Lxc { container, .. } => Call {
            program: "lxc-attach"@,
            args: seq!["-n"@, container, "--"@, call.program] + call.args,
        },
    }
}

/// Puts a command inside a workload.
pub fn run_inside(attach: &AttachSpec, command: Invocation) -> (r: Invocation)
    ensures
        r@ == inside(attach@, command@),
{
    match attach {
        AttachSpec::Local { .. } => command,
        AttachSpec::Docker { container, .. } => {
            let mut outer = Invocation::new("docker");
            outer.arg("exec");
            outer.arg(container.as_str());
            outer.arg(command.program.as_str());
            outer.args(&command.args);
            assert(outer@.args =~= inside(attach@, command@).args);
            outer
        },
        AttachSpec::Lxc { container, .. } => {
            let mut outer = Invocation::new("lxc-attach");
            outer.arg("-n");
            outer.arg(container.as_str());
            outer.arg("--");
            outer.arg(command.program.as_str());
            outer.args(&command.args);
            assert(outer@.args =~= inside(attach@, command@).args);
            outer
        },
    }
}

/// The command that generates the traffic of an experiment, inside its source.
pub fn invocation(attach: &AttachSpec, traffic: &TrafficSpec) -> (r: Invocation)
    ensures
        r@ == inside(attach@, traffic_call(traffic@)),
{
    run_inside(attach, traffic_command(traffic))
}

/// How long the generator rests after an attempt: what is left of the
/// interval.
pub fn rest_after(interval: Duration, elapsed: Duration) -> (r: Duration)
    ensures
        r.nanos == (if elapsed.nanos >= interval.nanos {
            0
        } else {
            interval.nanos - elapsed.nanos
        }),
{
    if elapsed.nanos >= interval.nanos {
        Duration { nanos: 0 }
    } else {
        Duration { nanos: interval.nanos - elapsed.nanos }
    }
}

/// How long the generator sleeps at a time: at most fifty milliseconds, so
/// that it ends soon after it is told to.
pub fn nap(remaining: Duration) -> (r: Duration)
    ensures
        r.nanos == (if remaining.nanos < 50_000_000 {
            remaining.nanos
        } else {
            50_000_000
        }),
{
    if remaining.nanos < 50_000_000 {
        remaining
    } else {
        Duration { nanos: 50_000_000 }
    }
}

/// What is done about an attempt that is under way.
#[derive(Clone, Copy, Debug, PartialEq, Eq, Structural)]
pub enum AttemptStep {
    /// The command ended; whether it succeeded.
    Ended(bool),
    /// End the command by force. The attempt failed.
    Kill,
    Wait,
}

/// Decides about an attempt: how the command ended, if it did, and whether the
/// generator was told to end.
pub fn attempt_step(ended: Option<bool>, cancelled: bool) -> (r: AttemptStep)
    ensures
        r == (match ended {
            Some(success) => AttemptStep::Ended(success),
            None => if cancelled {
                AttemptStep::Kill
            } else {
                AttemptStep::Wait
            },
        }),
{
    match ended {
        Some(success) => AttemptStep::Ended(success),
        None => if cancelled {
            AttemptStep::Kill
        } else {
            AttemptStep::Wait
        },
    }
}

} // verus!
