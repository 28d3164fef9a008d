//! When the events of a timeline are applied: in their order, each in its time,
//! and none before the one before it was acknowledged.

use vstd::prelude::*;
use vstd::string::*;
use crate::classifier::{marked_action, treated, Action, Answers};
use crate::common::{burst_step, FaultRule, Flow, LOSS_ALGORITHM_GILBERT_ELLIOTT};
use crate::control::copy_rules;
use crate::duration::Duration;
use crate::invocation::Invocation;
use crate::protocol::{RuleSpec, Timeline, TimelineEvent, TimelineKind};
use crate::rule_store::compiled;
use crate::text::{decimal, digits};
use crate::traffic::{inside, invocation, traffic_call, TrafficStatus};
use crate::workload_spec::{AttachSpec, Traffic, TrafficSpec, Workload};

verus! {

/// An event that is to be applied.
#[derive(Clone, Debug, PartialEq, Eq)]
pub struct ApplyEvent {
    pub id: u64,
    pub index: usize,
    pub at_ms: u64,
    pub rules: Vec<RuleSpec>,
}

/// How far a timeline has been applied. Whoever drives it decides how to wait,
/// what to show and how requests travel.
pub struct TimelineDriver<'a> {
    timeline: &'a Timeline,
    next_event: usize,
    pending: Option<(u64, usize)>,
}

/// How far a timeline has been applied, as a value.
pub struct Progress {
    /// The times of the events.
    pub times: Seq<u64>,
    pub duration_ms: u64,
    /// How many events were handed out.
    pub next: int,
    /// The request and the event that wait for their acknowledgement.
    pub pending: Option<(u64, int)>,
}

/// The times of events.
pub open spec fn times_of(events: Seq<TimelineEvent>) -> Seq<u64> {
    events.map_values(|event: TimelineEvent| event.at_ms)
}

impl Progress {
    /// Nothing was handed out yet.
    pub open spec fn begun(times: Seq<u64>, duration_ms: u64) -> Progress {
        Progress { times, duration_ms, next: 0, pending: None }
    }

    /// Only the last event that was handed out can wait for its
    /// acknowledgement, and a request has the number of its event, counted
    /// from one.
    pub open spec fn wf(self) -> bool {
        &&& 0 <= self.next <= self.times.len()
        &&& self.pending matches Some((id, index)) ==> index + 1 == self.next && id == self.next
    }

    /// Whether the next event is to be applied.
    pub open spec fn due(self, elapsed: Duration) -> bool {
        &&& self.pending is None
        &&& self.next < self.times.len()
        &&& elapsed.nanos >= self.times[self.next] * 1_000_000
    }

    /// After the next event was handed out, if it is due.
    pub open spec fn after_time(self, elapsed: Duration) -> Progress {
        if self.due(elapsed) {
            Progress {
                next: self.next + 1,
                pending: Some(((self.next + 1) as u64, self.next)),
                ..self
            }
        } else {
            self
        }
    }

    /// Whether an acknowledgement answers the request that waits.
    pub open spec fn answered_by(self, id: u64) -> bool {
        self.pending matches Some((pending, _)) && pending == id
    }

    /// After an acknowledgement.
    pub open spec fn after_acknowledgement(self, id: u64) -> Progress {
        if self.answered_by(id) {
            Progress { pending: None, ..self }
        } else {
            self
        }
    }

    /// Whether the timeline is over.
    pub open spec fn complete(self, elapsed: Duration) -> bool {
        &&& elapsed.nanos >= self.duration_ms * 1_000_000
        &&& self.next == self.times.len()
        &&& self.pending is None
    }
}

fn has_passed(elapsed: Duration, at_ms: u64) -> (r: bool)
    ensures
        r == (elapsed.nanos >= at_ms * 1_000_000),
{
    elapsed.nanos >= at_ms as u128 * 1_000_000
}

impl<'a> TimelineDriver<'a> {
    /// The events that are applied.
    pub closed spec fn events(&self) -> Seq<TimelineEvent> {
        self.timeline.events@
    }

    pub closed spec fn progress(&self) -> Progress {
        Progress {
            times: times_of(self.timeline.events@),
            duration_ms: self.timeline.duration_ms,
            next: self.next_event as int,
            pending: match self.pending {
                Some((id, index)) => Some((id, index as int)),
                None => None,
            },
        }
    }

    pub fn new(timeline: &'a Timeline) -> (r: TimelineDriver<'a>)
        ensures
            r.events() == timeline.events@,
            r.progress() == Progress::begun(times_of(timeline.events@), timeline.duration_ms),
            r.progress().wf(),
    {
        TimelineDriver { timeline, next_event: 0, pending: None }
    }

    /// Hands out the next event if its time has come and nothing waits for its
    /// acknowledgement.
    pub fn next_at(&mut self, elapsed: Duration) -> (r: Option<ApplyEvent>)
        requires
            old(self).progress().wf(),
        ensures
            final(self).progress().wf(),
            final(self).events() == old(self).events(),
            final(self).progress() == old(self).progress().after_time(elapsed),
            match r {
                Some(event) => {
                    &&& old(self).progress().due(elapsed)
                    &&& event.index == old(self).progress().next
                    &&& event.id == event.index + 1
                    &&& event.index < old(self).events().len()
                    &&& event.at_ms == old(self).events()[event.index as int].at_ms
                    &&& event.rules@ == old(self).events()[event.index as int].rules@
                },
                None => !old(self).progress().due(elapsed),
            },
    {
        if self.pending.is_some() {
            return None;
        }
        if self.next_event >= self.timeline.events.len() {
            return None;
        }
        let event = &self.timeline.events[self.next_event];
        assert(times_of(self.timeline.events@)[self.next_event as int] == event.at_ms);
        if !has_passed(elapsed, event.at_ms) {
            return None;
        }
        let index: usize = self.next_event;
        let id: u64 = index as u64 + 1;
        self.next_event = index + 1;
        self.pending = Some((id, index));
        Some(ApplyEvent { id, index, at_ms: event.at_ms, rules: copy_rules(&event.rules) })
    }

    /// Takes an acknowledgement: which event it is about, or none where nothing
    /// waits for one. One for another request is an error.
    pub fn acknowledge(&mut self, id: u64) -> (r: Result<Option<usize>, String>)
        requires
            old(self).progress().wf(),
        ensures
            final(self).progress().wf(),
            final(self).events() == old(self).events(),
            final(self).progress() == old(self).progress().after_acknowledgement(id),
            match (r, old(self).progress().pending) {
                (Ok(None), None) => true,
                (Ok(Some(index)), Some((pending, wanted))) => pending == id && index == wanted,
                (Err(message), Some((pending, _))) => pending != id && message@
                    == "acknowledgement "@ + digits(id as nat)
                    + " does not match pending event "@ + digits(pending as nat),
                _ => false,
            },
    {
        match self.pending {
            Some((pending, index)) => {
                if pending == id {
                    self.pending = None;
                    Ok(Some(index))
                } else {
                    let mut message = "acknowledgement ".to_owned();
                    message.append(decimal(id).as_str());
                    message.append(" does not match pending event ");
                    message.append(decimal(pending).as_str());
                    Err(message)
                }
            },
            None => Ok(None),
        }
    }

    /// Whether the timeline is over: its time has passed, and all of its events
    /// were acknowledged.
    pub fn complete(&self, elapsed: Duration) -> (r: bool)
        ensures
            r == self.progress().complete(elapsed),
    {
        has_passed(elapsed, self.timeline.duration_ms) && self.next_event
            == self.timeline.events.len() && self.pending.is_none()
    }
}

/// Traffic that is to be generated from now on: what is run, and the pause
/// between two runs.
#[derive(Clone, Debug, PartialEq, Eq)]
pub struct Generator {
    pub invocation: Invocation,
    pub interval_ms: u64,
}

/// What an acknowledgement brings about.
#[derive(Clone, Debug, PartialEq, Eq)]
pub struct Acknowledgement {
    /// The event that was acknowledged.
    pub event: Option<usize>,
    /// The traffic of the experiment, if it starts now.
    pub traffic: Option<Generator>,
}

/// The traffic that an experiment brings, and where it comes from.
pub type TrafficPlan = Option<(Workload, Traffic)>;

/// Planned traffic as a value.
pub open spec fn planned_traffic(plan: Option<(&AttachSpec, &TrafficSpec)>) -> TrafficPlan {
    match plan {
        Some((attach, traffic)) => Some((attach@, traffic@)),
        None => None,
    }
}

/// What is wrong with planned traffic.
pub open spec fn traffic_fault(plan: TrafficPlan) -> Option<Seq<char>> {
    match plan {
        Some((_, traffic)) => traffic.error(),
        None => None,
    }
}

/// Whether traffic was planned and can be generated.
pub open spec fn can_generate(plan: TrafficPlan) -> bool {
    plan is Some && traffic_fault(plan) is None
}

/// Whether an acknowledgement starts the traffic: it answers the first event.
pub open spec fn starts_traffic(progress: Progress, plan: TrafficPlan, id: u64) -> bool {
    progress.pending == Some((id, 0int)) && can_generate(plan)
}

/// Whether generated traffic is that of a plan.
pub open spec fn follows(generator: Generator, plan: TrafficPlan) -> bool {
    plan matches Some((attach, traffic)) && generator.invocation@ == inside(
        attach,
        traffic_call(traffic),
    ) && generator.interval_ms == traffic.interval()
}

/// What is shown of generated traffic: how it fares once it runs, and zeros
/// before.
pub open spec fn status_shown(runs: bool, status: Option<TrafficStatus>) -> TrafficStatus {
    match status {
        Some(known) if runs => known,
        _ => TrafficStatus { attempts: 0, succeeded: 0, failed: 0, last_error: None },
    }
}

/// A timeline and the traffic of its experiment. Traffic starts only once the
/// first event was acknowledged, so that the first request is already seen.
pub struct ExperimentDriver<'a> {
    timeline: TimelineDriver<'a>,
    traffic_plan: Option<(&'a AttachSpec, &'a TrafficSpec)>,
    started: bool,
}

impl<'a> ExperimentDriver<'a> {
    pub closed spec fn events(&self) -> Seq<TimelineEvent> {
        self.timeline.events()
    }

    pub closed spec fn progress(&self) -> Progress {
        self.timeline.progress()
    }

    /// The traffic that the experiment brings.
    pub closed spec fn plan(&self) -> TrafficPlan {
        planned_traffic(self.traffic_plan)
    }

    /// Whether the traffic of the experiment was started.
    pub closed spec fn runs(&self) -> bool {
        self.started
    }

    pub fn new(timeline: &'a Timeline, traffic_plan: Option<(&'a AttachSpec, &'a TrafficSpec)>) -> (r:
        ExperimentDriver<'a>)
        ensures
            r.events() == timeline.events@,
            r.progress() == Progress::begun(times_of(timeline.events@), timeline.duration_ms),
            r.progress().wf(),
            r.plan() == planned_traffic(traffic_plan),
            !r.runs(),
    {
        ExperimentDriver { timeline: TimelineDriver::new(timeline), traffic_plan, started: false }
    }

    /// Hands out the next event if it is due.
    pub fn next_at(&mut self, elapsed: Duration) -> (r: Option<ApplyEvent>)
        requires
            old(self).progress().wf(),
        ensures
            final(self).progress().wf(),
            final(self).events() == old(self).events(),
            final(self).plan() == old(self).plan(),
            final(self).runs() == old(self).runs(),
            final(self).progress() == old(self).progress().after_time(elapsed),
            match r {
                Some(event) => {
                    &&& old(self).progress().due(elapsed)
                    &&& event.index == old(self).progress().next
                    &&& event.id == event.index + 1
                    &&& event.index < old(self).events().len()
                    &&& event.at_ms == old(self).events()[event.index as int].at_ms
                    &&& event.rules@ == old(self).events()[event.index as int].rules@
                },
                None => !old(self).progress().due(elapsed),
            },
    {
        self.timeline.next_at(elapsed)
    }

    /// Takes an acknowledgement. That of the first event starts the traffic of
    /// the experiment, and fails where that traffic cannot be generated.
    pub fn acknowledge(&mut self, id: u64) -> (r: Result<Acknowledgement, String>)
        requires
            old(self).progress().wf(),
        ensures
            final(self).progress().wf(),
            final(self).events() == old(self).events(),
            final(self).plan() == old(self).plan(),
            final(self).progress() == old(self).progress().after_acknowledgement(id),
            final(self).runs() == (old(self).runs() || starts_traffic(
                old(self).progress(),
                old(self).plan(),
                id,
            )),
            match (r, old(self).progress().pending) {
                (Ok(taken), None) => taken.event is None && taken.traffic is None,
                (Ok(taken), Some((pending, wanted))) => {
                    &&& pending == id
                    &&& taken.event matches Some(index) && index == wanted
                    &&& wanted == 0 ==> traffic_fault(old(self).plan()) is None
                    &&& taken.traffic is Some <==> starts_traffic(
                        old(self).progress(),
                        old(self).plan(),
                        id,
                    )
                    &&& taken.traffic matches Some(generator) ==> follows(
                        generator,
                        old(self).plan(),
                    )
                },
                (Err(message), Some((pending, wanted))) => if pending == id {
                    wanted == 0 && traffic_fault(old(self).plan()) == Some(message@)
                } else {
                    message@ == "acknowledgement "@ + digits(id as nat)
                        + " does not match pending event "@ + digits(pending as nat)
                },
                _ => false,
            },
    {
        let event = match self.timeline.acknowledge(id) {
            Ok(event) => event,
            Err(message) => return Err(message),
        };
        let mut traffic: Option<Generator> = None;
        if event == Some(0usize) {
            if let Some((attach, spec)) = self.traffic_plan {
                match spec.validate() {
                    Ok(_) => {},
                    Err(message) => return Err(message),
                }
                traffic =
                Some(
                    Generator {
                        invocation: invocation(attach, spec),
                        interval_ms: spec.interval_ms(),
                    },
                );
                self.started = true;
            }
        }
        Ok(Acknowledgement { event, traffic })
    }

    /// How the traffic of the experiment fares, given the status of its
    /// generator. Before the traffic has started, nothing was attempted.
    pub fn traffic_status(&self, status: Option<TrafficStatus>) -> (r: TrafficStatus)
        ensures
            r == status_shown(self.runs(), status),
    {
        match status {
            Some(known) => if self.started {
                known
            } else {
                TrafficStatus::default()
            },
            None => TrafficStatus::default(),
        }
    }

    /// Whether the timeline is over.
    pub fn complete(&self, elapsed: Duration) -> (r: bool)
        ensures
            r == self.progress().complete(elapsed),
    {
        self.timeline.complete(elapsed)
    }
}

/// Whether a rule loses packets in bursts.
pub open spec fn loses_in_bursts(rule: RuleSpec) -> bool {
    rule.loss_algorithm == LOSS_ALGORITHM_GILBERT_ELLIOTT && (rule.ge_good_loss_permyriad != 0
        || rule.ge_bad_loss_permyriad != 0)
}

/// Whether a rule asks for a fault: loss, also in bursts, duplication,
/// reordering, delay, jitter or a bandwidth limit.
pub open spec fn rule_impairs(rule: RuleSpec) -> bool {
    rule.drop_permyriad != 0 || loses_in_bursts(rule) || rule.duplicate_permyriad != 0
        || rule.reorder_permyriad != 0 || rule.delay_ns != 0 || rule.jitter_ns != 0
        || rule.bandwidth_bps != 0
}

/// Whether one of the rules asks for a fault.
pub fn rules_impair(rules: &Vec<RuleSpec>) -> (r: bool)
    ensures
        r == exists|i: int| 0 <= i < rules@.len() && rule_impairs(#[trigger] rules@[i]),
{
    let mut index: usize = 0;
    while index < rules.len()
        invariant
            index <= rules@.len(),
            forall|i: int| 0 <= i < index ==> !rule_impairs(#[trigger] rules@[i]),
        decreases rules@.len() - index,
    {
        let rule = &rules[index];
        let bursts = rule.loss_algorithm == LOSS_ALGORITHM_GILBERT_ELLIOTT && (
        rule.ge_good_loss_permyriad != 0 || rule.ge_bad_loss_permyriad != 0);
        if rule.drop_permyriad != 0 || bursts || rule.duplicate_permyriad != 0
            || rule.reorder_permyriad != 0 || rule.delay_ns != 0 || rule.jitter_ns != 0
            || rule.bandwidth_bps != 0 {
            assert(rule_impairs(rules@[index as int]));
            return true;
        }
        index += 1;
    }
    false
}

/// How a kind of timeline is called.
pub open spec fn kind_name(kind: TimelineKind) -> Seq<char> {
    match kind {
        TimelineKind::Profile => "Profile"@,
        TimelineKind::Replay => "Replay"@,
    }
}

fn write_kind(kind: TimelineKind) -> (r: &'static str)
    ensures
        r@ == kind_name(kind),
{
    match kind {
        TimelineKind::Profile => "Profile",
        TimelineKind::Replay => "Replay",
    }
}

/// Checks a timeline that was read from a file: it must be valid and of the
/// kind that was asked for.
pub fn check_loaded(timeline: &Timeline, expected_kind: TimelineKind, path: &str) -> (r: Result<
    (),
    String,
>)
    ensures
        crate::protocol::reports(
            r,
            crate::protocol::first_error(
                timeline@.error(),
                if timeline.kind != expected_kind {
                    Some(
                        "timeline "@ + path@ + " has kind "@ + kind_name(timeline.kind)
                            + ", expected "@ + kind_name(expected_kind),
                    )
                } else {
                    None
                },
            ),
        ),
{
    match timeline.validate() {
        Ok(_) => {},
        Err(message) => return Err(message),
    }
    if timeline.kind != expected_kind {
        let mut message = "timeline ".to_owned();
        message.append(path);
        message.append(" has kind ");
        message.append(write_kind(timeline.kind));
        message.append(", expected ");
        message.append(write_kind(expected_kind));
        return Err(message);
    }
    Ok(())
}

// ---------------------------------------------------------------------------
// Laws
// ---------------------------------------------------------------------------
/// What a driver is told: how much time has passed, or that a request was
/// acknowledged.
pub enum Signal {
    Time(Duration),
    Acknowledged(u64),
}

impl Progress {
    pub open spec fn after(self, signal: Signal) -> Progress {
        match signal {
            Signal::Time(elapsed) => self.after_time(elapsed),
            Signal::Acknowledged(id) => self.after_acknowledgement(id),
        }
    }
}

/// How far a timeline was applied after the first `n` signals.
pub open spec fn reached(begun: Progress, signals: Seq<Signal>, n: nat) -> Progress
    decreases n,
{
    if n == 0 {
        begun
    } else {
        reached(begun, signals, (n - 1) as nat).after(signals[n - 1])
    }
}

/// Whether the signal with this number made a driver hand out an event.
pub open spec fn hands_out(begun: Progress, signals: Seq<Signal>, n: nat, index: int) -> bool {
    signals[n as int] matches Signal::Time(elapsed) && reached(begun, signals, n).due(elapsed)
        && reached(begun, signals, n).next == index
}

/// Whether the signal with this number was the acknowledgement of an event.
pub open spec fn acknowledges(begun: Progress, signals: Seq<Signal>, n: nat, index: int) -> bool {
    signals[n as int] matches Signal::Acknowledged(id) && reached(begun, signals, n).pending
        == Some((id, index))
}

proof fn reached_is_wf(begun: Progress, signals: Seq<Signal>, n: nat)
    requires
        begun.wf(),
        begun.times.len() <= u64::MAX,
    ensures
        reached(begun, signals, n).wf(),
        reached(begun, signals, n).times == begun.times,
    decreases n,
{
    if n > 0 {
        reached_is_wf(begun, signals, (n - 1) as nat);
    }
}

proof fn handed_out_or_acknowledged(begun: Progress, signals: Seq<Signal>, n: nat, index: int)
    requires
        begun.next == 0,
        begun.pending is None,
        begun.times.len() <= u64::MAX,
        0 <= index < reached(begun, signals, n).next,
    ensures
        reached(begun, signals, n).pending matches Some((_, waiting)) && waiting == index
            || exists|m: nat| m < n && #[trigger] acknowledges(begun, signals, m, index),
    decreases n,
{
    reached_is_wf(begun, signals, n);
    if n > 0 {
        let m = (n - 1) as nat;
        reached_is_wf(begun, signals, m);
        let before = reached(begun, signals, m);
        if index < before.next {
            handed_out_or_acknowledged(begun, signals, m, index);
            if before.pending matches Some((_, waiting)) && waiting == index {
                match signals[m as int] {
                    Signal::Acknowledged(id) => {
                        if before.answered_by(id) {
                            assert(acknowledges(begun, signals, m, index));
                        }
                    },
                    Signal::Time(_) => {},
                }
            } else {
                let k = choose|k: nat| k < m && #[trigger] acknowledges(begun, signals, k, index);
                assert(k < n && acknowledges(begun, signals, k, index));
            }
        }
    }
}

/// Whatever a driver is told, it hands an event out only after each event
/// before it was acknowledged.
pub proof fn events_wait_for_acknowledgements(
    times: Seq<u64>,
    duration_ms: u64,
    signals: Seq<Signal>,
    n: nat,
    index: int,
    earlier: int,
)
    requires
        times.len() <= u64::MAX,
        hands_out(Progress::begun(times, duration_ms), signals, n, index),
        0 <= earlier < index,
    ensures
        exists|m: nat|
            m < n && #[trigger] acknowledges(
                Progress::begun(times, duration_ms),
                signals,
                m,
                earlier,
            ),
{
    handed_out_or_acknowledged(Progress::begun(times, duration_ms), signals, n, earlier);
}

/// When a driver says that its timeline is over, every event was acknowledged.
pub proof fn complete_timelines_were_acknowledged(
    times: Seq<u64>,
    duration_ms: u64,
    signals: Seq<Signal>,
    n: nat,
    elapsed: Duration,
    index: int,
)
    requires
        times.len() <= u64::MAX,
        reached(Progress::begun(times, duration_ms), signals, n).complete(elapsed),
        0 <= index < times.len(),
    ensures
        exists|m: nat|
            m < n && #[trigger] acknowledges(
                Progress::begun(times, duration_ms),
                signals,
                m,
                index,
            ),
{
    let begun = Progress::begun(times, duration_ms);
    reached_is_wf(begun, signals, n);
    handed_out_or_acknowledged(begun, signals, n, index);
}

/// Whether the traffic of an experiment runs after the first `n` signals.
pub open spec fn running(begun: Progress, plan: TrafficPlan, signals: Seq<Signal>, n: nat) -> bool
    decreases n,
{
    n > 0 && (running(begun, plan, signals, (n - 1) as nat) || (signals[n - 1] matches
        Signal::Acknowledged(id) && starts_traffic(
        reached(begun, signals, (n - 1) as nat),
        plan,
        id,
    )))
}

proof fn acknowledged_events_stay_behind(
    begun: Progress,
    signals: Seq<Signal>,
    m: nat,
    n: nat,
    index: int,
)
    requires
        begun.wf(),
        begun.times.len() <= u64::MAX,
        m < n,
        acknowledges(begun, signals, m, index),
    ensures
        reached(begun, signals, n).next > index,
        reached(begun, signals, n).pending matches Some((_, waiting)) ==> waiting > index,
    decreases n,
{
    reached_is_wf(begun, signals, m);
    reached_is_wf(begun, signals, (n - 1) as nat);
    if m < n - 1 {
        acknowledged_events_stay_behind(begun, signals, m, (n - 1) as nat, index);
    }
}

/// The traffic of an experiment runs once its first event was acknowledged, and
/// not before; traffic that was not planned, or that cannot be generated, never
/// runs. What is shown of it until then is zeros, whatever status there is.
pub proof fn traffic_waits_for_the_first_event(
    times: Seq<u64>,
    duration_ms: u64,
    plan: TrafficPlan,
    signals: Seq<Signal>,
    n: nat,
    status: Option<TrafficStatus>,
)
    requires
        times.len() <= u64::MAX,
        n <= signals.len(),
    ensures
        running(Progress::begun(times, duration_ms), plan, signals, n) <==> can_generate(plan)
            && exists|m: nat|
            m < n && #[trigger] acknowledges(
                Progress::begun(times, duration_ms),
                signals,
                m,
                0,
            ),
        !running(Progress::begun(times, duration_ms), plan, signals, n) ==> status_shown(
            running(Progress::begun(times, duration_ms), plan, signals, n),
            status,
        ) == (TrafficStatus { attempts: 0, succeeded: 0, failed: 0, last_error: None }),
    decreases n,
{
    let begun = Progress::begun(times, duration_ms);
    if n > 0 {
        let last = (n - 1) as nat;
        traffic_waits_for_the_first_event(times, duration_ms, plan, signals, last, status);
        if running(begun, plan, signals, n) && !running(begun, plan, signals, last) {
            assert(acknowledges(begun, signals, last, 0));
        }
        if running(begun, plan, signals, last) {
            let m = choose|m: nat| m < last && #[trigger] acknowledges(begun, signals, m, 0);
            assert(m < n && acknowledges(begun, signals, m, 0));
        }
        if can_generate(plan) && exists|m: nat|
            m < n && #[trigger] acknowledges(begun, signals, m, 0) {
            let m = choose|m: nat| m < n && #[trigger] acknowledges(begun, signals, m, 0);
            if m < last {
                assert(running(begun, plan, signals, last));
            }
        }
    }
}

/// Traffic starts at most once: no later signal is the acknowledgement of the
/// first event again.
pub proof fn traffic_starts_once(
    times: Seq<u64>,
    duration_ms: u64,
    plan: TrafficPlan,
    signals: Seq<Signal>,
    n: nat,
    id: u64,
)
    requires
        times.len() <= u64::MAX,
        n <= signals.len(),
        running(Progress::begun(times, duration_ms), plan, signals, n),
    ensures
        !starts_traffic(reached(Progress::begun(times, duration_ms), signals, n), plan, id),
{
    let begun = Progress::begun(times, duration_ms);
    traffic_waits_for_the_first_event(times, duration_ms, plan, signals, n, None);
    let m = choose|m: nat| m < n && #[trigger] acknowledges(begun, signals, m, 0);
    acknowledged_events_stay_behind(begun, signals, m, n, 0);
}

/// No fault is overlooked: a rule that asks for none passes every packet that it
/// meets, with its timestamp. Of burst loss, the decision is that of any step
/// of the rule's own process.
pub proof fn rules_without_faults_change_nothing(
    spec: RuleSpec,
    rule: FaultRule,
    flow: Flow,
    tstamp: u64,
    answers: Answers,
    packet_index: u64,
    bad: bool,
)
    requires
        !rule_impairs(spec),
        compiled(rule, spec),
        answers.burst_lost == burst_step(flow, packet_index, bad, rule).1,
    ensures
        marked_action(treated(flow, rule, tstamp, answers).0) == Action::Pass,
        treated(flow, rule, tstamp, answers).1 == tstamp,
        !treated(flow, rule, tstamp, answers).0.duplicated,
{
}

} // verus!
