//! The state of a target before and during an experiment.

use vstd::prelude::*;
use vstd::string::*;
use crate::container::{attach_of, found_interfaces, resolve_attach};
use crate::execution::ExecutionEnvironment;
use crate::experiment_spec::ExperimentSpec;
use crate::invocation::{Call, Invocation, ProcessOutput};
use crate::json::{json_text, read_value, text_result};
use crate::plan::{plans, Answers, Plan, ResolvedExperiment};
use crate::preparation::Ownership;
use crate::selection::DestinationResolver;
use crate::text::{
    comes_before, lines, lines_from, optional_text, precedes, precedes_is_total,
    precedes_is_transitive, same_text, slices, split_at_first, split_once, texts, trim, trimmed,
};
use crate::traffic::{inside, run_inside};
use crate::words::{ascending_names_differ, first_word, names_ascend, read_word};
use crate::workload_spec::AttachSpec;

verus! {

/// The commands that tell about a target.
pub open spec fn kernel_call() -> Call {
    Call { program: "uname"@, args: seq!["-r"@] }
}

pub open spec fn offloads_call(interface: Seq<char>) -> Call {
    Call { program: "ethtool"@, args: seq!["-k"@, interface] }
}

pub open spec fn qdiscs_call(interface: Seq<char>) -> Call {
    Call { program: "tc"@, args: seq!["-j"@, "qdisc"@, "show"@, "dev"@, interface] }
}

/// The command that tells the kernel of a target.
pub fn kernel_command(attach: &AttachSpec) -> (r: Invocation)
    ensures
        r@ == inside(attach@, kernel_call()),
{
    let mut command = Invocation::new("uname");
    command.arg("-r");
    assert(command@.args =~= kernel_call().args);
    run_inside(attach, command)
}

/// The command that tells the offloads of a target.
pub fn offloads_command(attach: &AttachSpec) -> (r: Invocation)
    ensures
        r@ == inside(attach@, offloads_call(attach@.interface())),
{
    let mut command = Invocation::new("ethtool");
    command.arg("-k");
    command.arg(attach.interface().as_str());
    assert(command@.args =~= offloads_call(attach@.interface()).args);
    run_inside(attach, command)
}

/// The command that tells the queues of a target.
pub fn qdiscs_command(attach: &AttachSpec) -> (r: Invocation)
    ensures
        r@ == inside(attach@, qdiscs_call(attach@.interface())),
{
    let mut command = Invocation::new("tc");
    command.arg("-j");
    command.arg("qdisc");
    command.arg("show");
    command.arg("dev");
    command.arg(attach.interface().as_str());
    assert(command@.args =~= qdiscs_call(attach@.interface()).args);
    run_inside(attach, command)
}

/// How a command went that tells about a target.
#[derive(Debug, PartialEq, Eq)]
pub enum Capture {
    /// It could not be run; the words of the system.
    Unavailable(String),
    /// It ran, but what it wrote is no text; why.
    Unreadable(String),
    Ran(ProcessOutput),
}

/// What a command told, or why it told nothing.
pub open spec fn told(program: Seq<char>, capture: Capture) -> Result<Seq<char>, Seq<char>> {
    match capture {
        Capture::Unavailable(cause) => Err("could not run "@ + program + ": "@ + cause@),
        Capture::Unreadable(cause) => Err(program + " returned non-UTF-8: "@ + cause@),
        Capture::Ran(output) => if output.exit.success {
            Ok(output.stdout@)
        } else {
            Err(
                program + " exited with "@ + output.exit.status@ + ": "@ + trimmed(
                    output.stderr@,
                ),
            )
        },
    }
}

/// Reads what a command told.
pub fn captured(program: &str, capture: Capture) -> (r: Result<String, String>)
    ensures
        text_result(r) == told(program@, capture),
{
    match capture {
        Capture::Unavailable(cause) => {
            let mut message = "could not run ".to_owned();
            message.append(program);
            message.append(": ");
            message.append(cause.as_str());
            Err(message)
        },
        Capture::Unreadable(cause) => {
            let mut message = program.to_owned();
            message.append(" returned non-UTF-8: ");
            message.append(cause.as_str());
            Err(message)
        },
        Capture::Ran(output) => {
            if output.exit.success {
                return Ok(output.stdout);
            }
            let mut message = program.to_owned();
            message.append(" exited with ");
            message.append(output.exit.status.as_str());
            message.append(": ");
            message.append(trim(output.stderr.as_str()));
            Err(message)
        },
    }
}

/// A name and whether what it names is on.
pub type Switch = (Seq<char>, bool);

pub open spec fn switches(list: Seq<(String, bool)>) -> Seq<Switch> {
    list.map_values(|entry: (String, bool)| (entry.0@, entry.1))
}

/// The offload that a line tells: its name before a colon, and behind it a word
/// that is `on` or `off`.
pub open spec fn offload_in(line: Seq<char>) -> Option<Switch> {
    match split_at_first(trimmed(line), ':') {
        None => None,
        Some((name, state)) => match first_word(state) {
            None => None,
            Some(word) => if word == "on"@ {
                Some((name, true))
            } else if word == "off"@ {
                Some((name, false))
            } else {
                None
            },
        },
    }
}

/// The place of a name among ordered switches: that of its equal, or the one it
/// would take.
pub open spec fn switch_slot(list: Seq<Switch>, name: Seq<char>, from: int) -> int
    decreases list.len() - from,
{
    if from >= list.len() || list[from].0 == name || precedes(name, list[from].0) {
        from
    } else {
        switch_slot(list, name, from + 1)
    }
}

/// Ordered switches with one of them set. What is told last counts.
pub open spec fn with_switch(list: Seq<Switch>, entry: Switch) -> Seq<Switch> {
    let at = switch_slot(list, entry.0, 0);
    if at < list.len() && list[at].0 == entry.0 {
        list.update(at, entry)
    } else {
        list.insert(at, entry)
    }
}

/// The offloads that the first `n` lines tell, in ascending order of their
/// names.
pub open spec fn offloads_in(rows: Seq<Seq<char>>, n: nat) -> Seq<Switch>
    decreases n,
{
    if n == 0 {
        Seq::empty()
    } else {
        let before = offloads_in(rows, (n - 1) as nat);
        match offload_in(rows[n - 1]) {
            Some(entry) => with_switch(before, entry),
            None => before,
        }
    }
}

proof fn switch_slot_fits(list: Seq<Switch>, name: Seq<char>, from: int)
    requires
        0 <= from <= list.len(),
    ensures
        from <= switch_slot(list, name, from) <= list.len(),
        forall|i: int|
            from <= i < switch_slot(list, name, from) ==> (#[trigger] list[i]).0 != name
                && !precedes(name, list[i].0),
        switch_slot(list, name, from) < list.len() ==> list[switch_slot(list, name, from)].0
            == name || precedes(name, list[switch_slot(list, name, from)].0),
    decreases list.len() - from,
{
    if from < list.len() && list[from].0 != name && !precedes(name, list[from].0) {
        switch_slot_fits(list, name, from + 1);
    }
}

proof fn set_switches_stay_in_order(list: Seq<Switch>, entry: Switch)
    requires
        names_ascend(list),
    ensures
        names_ascend(with_switch(list, entry)),
{
    let at = switch_slot(list, entry.0, 0);
    switch_slot_fits(list, entry.0, 0);
    let grown = with_switch(list, entry);
    assert forall|i: int, j: int| 0 <= i < j < grown.len() implies precedes(
        (#[trigger] grown[i]).0,
        (#[trigger] grown[j]).0,
    ) by {
        if at < list.len() && list[at].0 == entry.0 {
            assert(grown[i].0 == list[i].0 && grown[j].0 == list[j].0);
        } else if i < at && j == at {
            precedes_is_total(list[i].0, entry.0);
        } else if i == at && j > at {
            if j - 1 > at {
                precedes_is_transitive(entry.0, list[at].0, list[j - 1].0);
            }
        } else {
            let a = if i < at {
                i
            } else {
                i - 1
            };
            let b = if j < at {
                j
            } else {
                j - 1
            };
            assert(grown[i] == list[a] && grown[j] == list[b]);
        }
    }
}

/// Offloads are listed by ascending names, none twice, whatever was told.
pub proof fn offloads_ascend(rows: Seq<Seq<char>>, n: nat)
    requires
        n <= rows.len(),
    ensures
        names_ascend(offloads_in(rows, n)),
    decreases n,
{
    if n > 0 {
        offloads_ascend(rows, (n - 1) as nat);
        if let Some(entry) = offload_in(rows[n - 1]) {
            set_switches_stay_in_order(offloads_in(rows, (n - 1) as nat), entry);
        }
    }
}

/// Whether a list holds a switch.
pub open spec fn switched(list: Seq<Switch>, entry: Switch) -> bool {
    exists|i: int| 0 <= i < list.len() && #[trigger] list[i] == entry
}

proof fn set_switches_are_held(list: Seq<Switch>, entry: Switch, other: Switch)
    requires
        names_ascend(list),
    ensures
        switched(with_switch(list, entry), other) <==> if other.0 == entry.0 {
            other == entry
        } else {
            switched(list, other)
        },
{
    let at = switch_slot(list, entry.0, 0);
    switch_slot_fits(list, entry.0, 0);
    set_switches_stay_in_order(list, entry);
    let grown = with_switch(list, entry);
    assert(grown[at] == entry);
    if switched(grown, other) {
        let i = choose|i: int| 0 <= i < grown.len() && #[trigger] grown[i] == other;
        if other.0 == entry.0 {
            ascending_names_differ(grown, i, at);
        } else if i < at || grown.len() == list.len() {
            assert(list[i] == other);
        } else {
            assert(list[i - 1] == other);
        }
    }
    if other.0 != entry.0 && switched(list, other) {
        let i = choose|i: int| 0 <= i < list.len() && #[trigger] list[i] == other;
        if i < at || grown.len() == list.len() {
            assert(grown[i] == other);
        } else {
            assert(grown[i + 1] == other);
        }
    }
}

/// An offload stands as the last line that tells of it says, and one that no
/// line tells of does not stand at all.
pub proof fn last_told_offloads_stand(rows: Seq<Seq<char>>, n: nat, name: Seq<char>, on: bool)
    requires
        n <= rows.len(),
    ensures
        n > 0 && offload_in(rows[n - 1]) == Some((name, on)) ==> switched(
            offloads_in(rows, n),
            (name, on),
        ) && !switched(offloads_in(rows, n), (name, !on)),
        n > 0 && (offload_in(rows[n - 1]) matches Some(entry) ==> entry.0 != name) ==> (switched(
            offloads_in(rows, n),
            (name, on),
        ) <==> switched(offloads_in(rows, (n - 1) as nat), (name, on))),
        n == 0 ==> !switched(offloads_in(rows, n), (name, on)),
{
    if n > 0 {
        let m = (n - 1) as nat;
        offloads_ascend(rows, m);
        if let Some(entry) = offload_in(rows[m as int]) {
            set_switches_are_held(offloads_in(rows, m), entry, (name, on));
            set_switches_are_held(offloads_in(rows, m), entry, (name, !on));
        }
    }
}

fn read_offload(line: &str) -> (r: Option<(&str, bool)>)
    ensures
        match (r, offload_in(line@)) {
            (Some((name, on)), Some(wanted)) => (name@, on) == wanted,
            (None, None) => true,
            _ => false,
        },
{
    match split_once(trim(line), ':') {
        None => None,
        Some((name, state)) => match read_word(state) {
            None => None,
            Some(word) => if same_text(word, "on") {
                Some((name, true))
            } else if same_text(word, "off") {
                Some((name, false))
            } else {
                None
            },
        },
    }
}

fn set_switch(list: &mut Vec<(String, bool)>, name: &str, on: bool)
    ensures
        switches(final(list)@) == with_switch(switches(old(list)@), (name@, on)),
{
    let ghost before = switches(list@);
    let mut at: usize = 0;
    while at < list.len() && !same_text(list[at].0.as_str(), name) && !comes_before(
        name,
        list[at].0.as_str(),
    )
        invariant
            at <= list@.len(),
            *list == *old(list),
            before == switches(list@),
            switch_slot(before, name@, 0) == switch_slot(before, name@, at as int),
        decreases list@.len() - at,
    {
        assert(before[at as int] == (list@[at as int].0@, list@[at as int].1));
        at += 1;
    }
    if at < list.len() {
        assert(before[at as int] == (list@[at as int].0@, list@[at as int].1));
        if same_text(list[at].0.as_str(), name) {
            list.set(at, (name.to_owned(), on));
            assert(switches(list@) =~= before.update(at as int, (name@, on)));
            return;
        }
    }
    list.insert(at, (name.to_owned(), on));
    assert(switches(list@) =~= before.insert(at as int, (name@, on)));
}

/// Reads the offloads that a listing tells.
pub fn parse_offloads(output: &str) -> (r: Vec<(String, bool)>)
    ensures
        switches(r@) == offloads_in(lines_from(output@, 0), lines_from(output@, 0).len()),
{
    let rows = lines(output);
    let ghost wanted = lines_from(output@, 0);
    let mut out: Vec<(String, bool)> = Vec::new();
    assert(switches(out@) =~= Seq::<Switch>::empty());
    let mut index: usize = 0;
    while index < rows.len()
        invariant
            index <= rows@.len(),
            slices(rows@) == wanted,
            switches(out@) == offloads_in(wanted, index as nat),
        decreases rows@.len() - index,
    {
        assert(wanted[index as int] == rows@[index as int]@);
        if let Some((name, on)) = read_offload(rows[index]) {
            set_switch(&mut out, name, on);
        }
        index += 1;
    }
    assert(wanted.len() == rows@.len());
    out
}

/// The queues that a listing tells, or why they are not known.
pub open spec fn qdiscs_in(listing: Result<Seq<char>, Seq<char>>) -> Result<Seq<char>, Seq<char>> {
    match listing {
        Err(message) => Err(message),
        Ok(text) => match json_text(text) {
            Ok(value) => Ok(value),
            Err(error) => Err("invalid tc JSON: "@ + error),
        },
    }
}

fn read_qdiscs(listing: Result<String, String>) -> (r: Result<String, String>)
    ensures
        text_result(r) == qdiscs_in(text_result(listing)),
{
    match listing {
        Err(message) => Err(message),
        Ok(text) => match read_value(text.as_str()) {
            Ok(value) => Ok(value),
            Err(error) => {
                let mut message = "invalid tc JSON: ".to_owned();
                message.append(error.as_str());
                Err(message)
            },
        },
    }
}

/// A complaint, if there is one.
pub open spec fn complaint(subject: Seq<char>, result: Result<Seq<char>, Seq<char>>) -> Seq<
    Seq<char>,
> {
    match result {
        Ok(_) => Seq::empty(),
        Err(message) => seq![subject + message],
    }
}

fn complain(list: &mut Vec<String>, subject: &str, result: &Result<String, String>)
    ensures
        texts(final(list)@) == texts(old(list)@) + complaint(subject@, text_result(*result)),
{
    let ghost before = texts(list@);
    match result {
        Ok(_) => {},
        Err(message) => {
            let mut text = subject.to_owned();
            text.append(message.as_str());
            list.push(text);
            assert(texts(list@) =~= before + seq![subject@ + message@]);
        },
    }
    assert(texts(list@) =~= before + complaint(subject@, text_result(*result)));
}

/// Puts together what is known of a target. What could not be found out is
/// left out and explained.
pub fn capture_environment(
    attach: &AttachSpec,
    captured_at_unix_ms: u64,
    version: &str,
    kernel: Result<String, String>,
    offloads: Result<String, String>,
    qdiscs: Result<String, String>,
) -> (r: ExecutionEnvironment)
    ensures
        r.captured_at_unix_ms == captured_at_unix_ms,
        r.target@ == attach@.uri(),
        r.interface@ == attach@.interface(),
        r.faultline_version@ == version@,
        optional_text(r.kernel_release) == (match kernel {
            Ok(text) => Some(trimmed(text@)),
            Err(_) => None,
        }),
        switches(r.offloads@) == (match offloads {
            Ok(text) => offloads_in(lines_from(text@, 0), lines_from(text@, 0).len()),
            Err(_) => Seq::empty(),
        }),
        optional_text(r.qdiscs) == (match qdiscs_in(text_result(qdiscs)) {
            Ok(text) => Some(text),
            Err(_) => None,
        }),
        texts(r.diagnostics@) == complaint("kernel: "@, text_result(kernel)) + complaint(
            "offloads: "@,
            text_result(offloads),
        ) + complaint("qdiscs: "@, qdiscs_in(text_result(qdiscs))),
{
    let queues = read_qdiscs(qdiscs);
    let mut diagnostics: Vec<String> = Vec::new();
    assert(texts(diagnostics@) =~= Seq::<Seq<char>>::empty());
    complain(&mut diagnostics, "kernel: ", &kernel);
    complain(&mut diagnostics, "offloads: ", &offloads);
    complain(&mut diagnostics, "qdiscs: ", &queues);
    assert(texts(diagnostics@) =~= complaint("kernel: "@, text_result(kernel)) + complaint(
        "offloads: "@,
        text_result(offloads),
    ) + complaint("qdiscs: "@, qdiscs_in(text_result(qdiscs))));
    let none: Vec<(String, bool)> = Vec::new();
    assert(switches(none@) =~= Seq::<Switch>::empty());
    ExecutionEnvironment {
        captured_at_unix_ms,
        target: attach.target_uri(),
        interface: attach.interface().clone(),
        faultline_version: version.to_owned(),
        kernel_release: match kernel {
            Ok(text) => Some(trim(text.as_str()).to_owned()),
            Err(_) => None,
        },
        offloads: match offloads {
            Ok(text) => parse_offloads(text.as_str()),
            Err(_) => none,
        },
        qdiscs: match queues {
            Ok(text) => Some(text),
            Err(_) => None,
        },
        diagnostics,
    }
}

/// Plans an experiment whose source is available, given the interfaces that
/// were found there.
pub fn plan_prepared<R: DestinationResolver>(
    spec: &ExperimentSpec,
    resolver: &R,
    found: &Result<Vec<String>, String>,
) -> (r: Result<ResolvedExperiment, String>)
    ensures
        match attach_of(spec@.source, found_interfaces(*found)) {
            Err(wanted) => r matches Err(message) && message@ == wanted,
            Ok(attach) => {
                &&& exists|answers: Seq<Answers>|
                    answers.len() == spec@.relations().len() && plans(
                        r,
                        #[trigger] spec@.plan(answers, attach),
                    ) && spec@.resolved_by(resolver, answers, attach)
                &&& spec@.literal() ==> plans(r, spec@.plan(spec@.no_answers(), attach))
            },
        },
{
    match resolve_attach(&spec.source, found) {
        Ok(attach) => spec.compile(resolver, attach),
        Err(message) => Err(message),
    }
}

/// A plan, and what the session owns that it was made for. What is owned goes
/// with the plan for as long as the session lasts.
#[derive(Clone, Debug, PartialEq, Eq)]
pub struct PreparedExperiment {
    plan: ResolvedExperiment,
    owned: Ownership,
}

impl PreparedExperiment {
    pub closed spec fn planned(&self) -> ResolvedExperiment {
        self.plan
    }

    pub closed spec fn owns(&self) -> Ownership {
        self.owned
    }

    pub fn plan(&self) -> (r: &ResolvedExperiment)
        ensures
            *r == self.planned(),
    {
        &self.plan
    }

    /// Notes the state of the target before the experiment.
    pub fn record_environment(&mut self, environment: ExecutionEnvironment)
        ensures
            final(self).owns() == old(self).owns(),
            final(self).planned() == (ResolvedExperiment {
                environment: Some(environment),
                ..old(self).planned()
            }),
    {
        self.plan.environment = Some(environment);
    }

    pub fn into_parts(self) -> (r: (ResolvedExperiment, Ownership))
        ensures
            r == (self.planned(), self.owns()),
    {
        (self.plan, self.owned)
    }
}

/// Plans an experiment whose source is available and owned as told, given the
/// interfaces that were found there.
pub fn prepare_experiment<R: DestinationResolver>(
    spec: &ExperimentSpec,
    resolver: &R,
    owned: Ownership,
    found: &Result<Vec<String>, String>,
) -> (r: Result<PreparedExperiment, String>)
    ensures
        match attach_of(spec@.source, found_interfaces(*found)) {
            Err(wanted) => r matches Err(message) && message@ == wanted,
            Ok(attach) => {
                &&& exists|answers: Seq<Answers>|
                    answers.len() == spec@.relations().len() && prepares(
                        r,
                        owned,
                        #[trigger] spec@.plan(answers, attach),
                    ) && spec@.resolved_by(resolver, answers, attach)
                &&& spec@.literal() ==> prepares(r, owned, spec@.plan(spec@.no_answers(), attach))
            },
        },
{
    match plan_prepared(spec, resolver, found) {
        Ok(plan) => Ok(PreparedExperiment { plan, owned }),
        Err(message) => Err(message),
    }
}

/// Whether preparing came out as it should.
pub open spec fn prepares(
    r: Result<PreparedExperiment, String>,
    owned: Ownership,
    wanted: Result<Plan, Seq<char>>,
) -> bool {
    match r {
        Ok(prepared) => prepared.owns() == owned && plans(
            Ok::<ResolvedExperiment, String>(prepared.planned()),
            wanted,
        ),
        Err(message) => plans(Err::<ResolvedExperiment, String>(message), wanted),
    }
}

} // verus!
