//! From an experiment to a plan that can be carried out as it is, now or again
//! later.

use vstd::prelude::*;
use vstd::string::*;
use crate::common::LOSS_ALGORITHM_HASH;
use crate::experiment_spec::{
    authored_of, incidents_of, named_faults, Authored, CommunicationSelector, Experiment,
    ExperimentSpec, FaultEvent, FaultSpec, Incident,
};
use crate::net::{Address, IpAddr, IpNet, Network};
use crate::protocol::{
    changes_of, optional_network, reports, rules_of, Change, Rule, RuleSpec, Score, Timeline,
    TimelineEvent, TimelineKind, TIMELINE_VERSION,
};
use crate::execution::{ExecutionEnvironment, ExperimentExecution};
use crate::selection::{
    addresses_of, all_numbered, answer_of, compile_selectors, copy_networks, literal, named_rules,
    needs_resolver, pairs_printable, relations_of, resolution, resolve_selector,
    resolve_selector_input, rules_before, selection_notes, settled_of, settlement, validate_resolved_bindings, Answer,
    Binding, DestinationResolver, Endpoint, Named, Relation, ResolvedDestination, ResolvedSelector,
    ResolvedSelectorInput, Settled,
};
use crate::text::{same_text, texts};
use crate::workload_spec::{copy_traffic, traffic_of, AttachSpec, Traffic, TrafficSpec, Workload};

verus! {

/// A plan: what is to happen, where, and what happened when it was carried
/// out.
#[derive(Clone, Debug, PartialEq, Eq)]
pub struct ResolvedExperiment {
    pub version: u32,
    pub name: String,
    pub attach: AttachSpec,
    /// For readers of plans with a single relation.
    pub destination: Option<ResolvedDestination>,
    pub selectors: Vec<ResolvedSelector>,
    pub selection_notes: Vec<String>,
    pub timeline: Timeline,
    pub environment: Option<ExecutionEnvironment>,
    /// The environment once the agent has attached and queues are installed.
    pub effective_environment: Option<ExecutionEnvironment>,
    pub execution: Option<ExperimentExecution>,
    pub execution_error: Option<String>,
    pub traffic: Option<TrafficSpec>,
}

/// A plan as a value, without what happened.
pub struct Plan {
    pub version: u32,
    pub name: Seq<char>,
    pub attach: Workload,
    pub destination: Option<Endpoint>,
    pub selectors: Seq<Relation>,
    pub selection_notes: Seq<Seq<char>>,
    pub timeline: Score,
    pub traffic: Option<Traffic>,
}

pub open spec fn endpoint_of(destination: Option<ResolvedDestination>) -> Option<Endpoint> {
    match destination {
        Some(value) => Some(value@),
        None => None,
    }
}

impl View for ResolvedExperiment {
    type V = Plan;

    open spec fn view(&self) -> Plan {
        Plan {
            version: self.version,
            name: self.name@,
            attach: self.attach@,
            destination: endpoint_of(self.destination),
            selectors: relations_of(self.selectors@),
            selection_notes: texts(self.selection_notes@),
            timeline: self.timeline@,
            traffic: traffic_of(self.traffic),
        }
    }
}

/// The place of the first fault with a name, or the number of faults.
pub open spec fn fault_place(faults: Seq<(Seq<char>, FaultSpec)>, name: Seq<char>, from: int) -> int
    decreases faults.len() - from,
{
    if from >= faults.len() || faults[from].0 == name {
        from
    } else {
        fault_place(faults, name, from + 1)
    }
}

/// The fault of a relation: its own, or the one for all.
pub open spec fn fault_for(incident: Incident, name: Seq<char>) -> FaultSpec {
    let at = fault_place(incident.faults, name, 0);
    if at < incident.faults.len() {
        incident.faults[at].1
    } else {
        incident.fault
    }
}

/// The rule that puts a fault in force.
pub open spec fn fault_rule(
    fault: FaultSpec,
    id: u32,
    source: Option<Network>,
    destination: Network,
    protocol: u8,
    destination_port: u16,
) -> Rule {
    Rule {
        id,
        source,
        destination,
        protocol,
        loss_algorithm: LOSS_ALGORITHM_HASH,
        destination_port,
        drop_permyriad: fault.drop_permyriad,
        ge_enter_permyriad: 0,
        ge_recover_permyriad: 0,
        ge_good_loss_permyriad: 0,
        ge_bad_loss_permyriad: 0,
        ge_idle_reset_secs: 0,
        duplicate_permyriad: fault.duplicate_permyriad,
        reorder_permyriad: fault.reorder_permyriad,
        delay_ns: fault.delay_ns,
        jitter_ns: fault.jitter_ns,
        bandwidth_bps: fault.bandwidth_bps,
        seed: if fault.seed == 0 {
            1
        } else {
            fault.seed
        },
    }
}

/// The port of a rule; zero stands for any.
pub open spec fn port_number(port: Option<u16>) -> u16 {
    match port {
        Some(number) => number,
        None => 0,
    }
}

/// The rule of a binding under a change of faults.
pub open spec fn bound_rule(incident: Incident, named: Named) -> Rule {
    fault_rule(
        fault_for(incident, named.0),
        named.1.rule_id,
        named.1.source,
        named.1.destination,
        named.1.protocol.code(),
        port_number(named.1.port),
    )
}

/// The rules that a change of faults puts in force: one for every binding.
pub open spec fn bound_rules(incident: Incident, rules: Seq<Named>) -> Seq<Rule> {
    rules.map_values(|named: Named| bound_rule(incident, named))
}

/// The events of a timeline, one for every change of faults.
pub open spec fn changes_for(events: Seq<Incident>, rules: Seq<Named>) -> Seq<Change> {
    events.map_values(
        |incident: Incident|
            Change { at_ms: incident.at_ms, rules: bound_rules(incident, rules) },
    )
}

impl FaultSpec {
    /// The rule that puts the fault in force.
    pub fn rule_for(
        &self,
        id: u32,
        source: Option<IpNet>,
        destination: IpNet,
        protocol: u8,
        destination_port: u16,
    ) -> (r: RuleSpec)
        ensures
            r@ == fault_rule(
                *self,
                id,
                optional_network(source),
                destination@,
                protocol,
                destination_port,
            ),
    {
        RuleSpec {
            id,
            source,
            destination,
            protocol,
            loss_algorithm: LOSS_ALGORITHM_HASH,
            destination_port,
            drop_permyriad: self.drop_permyriad,
            ge_enter_permyriad: 0,
            ge_recover_permyriad: 0,
            ge_good_loss_permyriad: 0,
            ge_bad_loss_permyriad: 0,
            ge_idle_reset_secs: 0,
            duplicate_permyriad: self.duplicate_permyriad,
            reorder_permyriad: self.reorder_permyriad,
            delay_ns: self.delay_ns,
            jitter_ns: self.jitter_ns,
            bandwidth_bps: self.bandwidth_bps,
            seed: if self.seed == 0 {
                1
            } else {
                self.seed
            },
        }
    }
}

fn find_fault(event: &FaultEvent, name: &str) -> (r: FaultSpec)
    ensures
        r == fault_for(event@, name@),
{
    let ghost faults = named_faults(event.faults@);
    let mut at: usize = 0;
    while at < event.faults.len() && !same_text(event.faults[at].0.as_str(), name)
        invariant
            at <= event.faults@.len(),
            faults == named_faults(event.faults@),
            fault_place(faults, name@, 0) == fault_place(faults, name@, at as int),
        decreases event.faults@.len() - at,
    {
        assert(faults[at as int].0 == event.faults@[at as int].0@);
        at += 1;
    }
    if at < event.faults.len() {
        assert(faults[at as int] == (event.faults@[at as int].0@, event.faults@[at as int].1));
        event.faults[at].1
    } else {
        event.fault
    }
}

fn compile_event(event: &FaultEvent, selectors: &Vec<ResolvedSelector>) -> (r: TimelineEvent)
    ensures
        r@.at_ms == event.at_ms,
        r@.rules == bound_rules(
            event@,
            named_rules(relations_of(selectors@), selectors@.len()),
        ),
{
    let ghost relations = relations_of(selectors@);
    let mut rules: Vec<RuleSpec> = Vec::new();
    assert(rules_of(rules@) =~= bound_rules(event@, Seq::empty()));
    let mut index: usize = 0;
    while index < selectors.len()
        invariant
            index <= selectors@.len(),
            relations == relations_of(selectors@),
            rules_of(rules@) == bound_rules(event@, named_rules(relations, index as nat)),
        decreases selectors@.len() - index,
    {
        let selector = &selectors[index];
        let ghost relation = relations[index as int];
        assert(relation == selector@);
        let fault = find_fault(event, selector.name.as_str());
        let ghost before = named_rules(relations, index as nat);
        let ghost added = relation.rules.map_values(|binding: Binding| (relation.name, binding));
        let mut k: usize = 0;
        assert(before + added.take(0) =~= before);
        while k < selector.rules.len()
            invariant
                k <= selector.rules@.len(),
                relation == selector@,
                fault == fault_for(event@, selector.name@),
                added == relation.rules.map_values(|binding: Binding| (relation.name, binding)),
                rules_of(rules@) == bound_rules(event@, before + added.take(k as int)),
            decreases selector.rules@.len() - k,
        {
            let binding = &selector.rules[k];
            assert(relation.rules[k as int] == binding@);
            let port: u16 = match binding.port {
                Some(port) => port,
                None => 0,
            };
            let ghost reached = rules@;
            rules.push(
                fault.rule_for(
                    binding.rule_id,
                    binding.source,
                    binding.destination,
                    binding.protocol.number(),
                    port,
                ),
            );
            assert(rules_of(rules@) =~= rules_of(reached).push(
                bound_rule(event@, added[k as int]),
            ));
            assert(before + added.take(k + 1) =~= (before + added.take(k as int)).push(
                added[k as int],
            ));
            assert(bound_rules(event@, before + added.take(k + 1)) =~= bound_rules(
                event@,
                before + added.take(k as int),
            ).push(bound_rule(event@, added[k as int])));
            k += 1;
        }
        assert(added.take(added.len() as int) =~= added);
        assert(added.len() == selector.rules@.len());
        index += 1;
    }
    TimelineEvent { at_ms: event.at_ms, rules }
}

fn compile_events(events: &Vec<FaultEvent>, selectors: &Vec<ResolvedSelector>) -> (r: Vec<
    TimelineEvent,
>)
    ensures
        changes_of(r@) == changes_for(
            incidents_of(events@),
            named_rules(relations_of(selectors@), selectors@.len()),
        ),
{
    let ghost rules = named_rules(relations_of(selectors@), selectors@.len());
    let mut out: Vec<TimelineEvent> = Vec::new();
    let mut index: usize = 0;
    while index < events.len()
        invariant
            index <= events@.len(),
            rules == named_rules(relations_of(selectors@), selectors@.len()),
            out@.len() == index,
            forall|i: int|
                0 <= i < index ==> (#[trigger] out@[i])@ == (Change {
                    at_ms: events@[i].at_ms,
                    rules: bound_rules(events@[i]@, rules),
                }),
        decreases events@.len() - index,
    {
        out.push(compile_event(&events[index], selectors));
        index += 1;
    }
    assert(changes_of(out@) =~= changes_for(incidents_of(events@), rules));
    out
}

/// What a resolver answered for a relation.
#[derive(Debug)]
pub struct ResolverAnswers {
    pub destination: Result<Vec<IpAddr>, String>,
    pub source: Result<Vec<IpAddr>, String>,
}

/// What a resolver answered for a relation, as a value.
pub type Answers = (Answer, Answer);

impl View for ResolverAnswers {
    type V = Answers;

    open spec fn view(&self) -> Answers {
        (answer_of(self.destination), answer_of(self.source))
    }
}

pub open spec fn answers_of(list: Seq<ResolverAnswers>) -> Seq<Answers> {
    list.map_values(|answers: ResolverAnswers| answers@)
}

impl Experiment {
    /// Why an experiment cannot be planned for an attach point, before any
    /// address is looked at.
    pub open spec fn attach_error(self, attach: Workload) -> Option<Seq<char>> {
        match self.error() {
            Some(error) => Some(error),
            None => match attach.concrete_error() {
                Some(error) => Some(error),
                None => self.source.attach_error(attach),
            },
        }
    }

    /// The first `n` relations with their addresses settled, or the first
    /// reason why they cannot be.
    pub open spec fn settlements(self, answers: Seq<Answers>, n: nat) -> Result<
        Seq<Settled>,
        Seq<char>,
    >
        decreases n,
    {
        if n == 0 {
            Ok(Seq::empty())
        } else {
            match self.settlements(answers, (n - 1) as nat) {
                Err(error) => Err(error),
                Ok(before) => match settlement(
                    self.relations()[n - 1],
                    answers[n - 1].0,
                    answers[n - 1].1,
                ) {
                    Err(error) => Err(error),
                    Ok(settled) => Ok(before.push(settled)),
                },
            }
        }
    }

    /// The timeline of an experiment whose relations have these rules.
    pub open spec fn timeline(self, relations: Seq<Relation>, attach: Workload) -> Score {
        Score {
            version: TIMELINE_VERSION,
            kind: TimelineKind::Profile,
            name: Some(self.name),
            target: Some(attach.uri()),
            duration_ms: self.profile.duration_ms,
            events: changes_for(self.profile.events, named_rules(relations, relations.len())),
        }
    }

    /// The plan of an experiment whose relations have these rules.
    pub open spec fn numbered_plan(self, relations: Seq<Relation>, attach: Workload) -> Result<
        Plan,
        Seq<char>,
    > {
        match selection_notes(relations) {
            Err(error) => Err(error),
            Ok(notes) => match self.timeline(relations, attach).error() {
                Some(error) => Err(error),
                None => Ok(
                    Plan {
                        version: self.version,
                        name: self.name,
                        attach,
                        destination: match self.destination {
                            Some(_) => Some(relations[0].destination),
                            None => None,
                        },
                        selectors: relations,
                        selection_notes: notes,
                        timeline: self.timeline(relations, attach),
                        traffic: self.traffic,
                    },
                ),
            },
        }
    }

    /// The plan of an experiment whose addresses are settled.
    pub open spec fn settled_plan(self, settled: Seq<Settled>, attach: Workload) -> Result<
        Plan,
        Seq<char>,
    > {
        if rules_before(settled, settled.len()) > u32::MAX {
            Err("experiment produces too many rules"@)
        } else {
            self.numbered_plan(all_numbered(settled), attach)
        }
    }

    /// The plan of an experiment at an attach point, given what a resolver
    /// answered for each relation; or the first reason why there is none.
    pub open spec fn plan(self, answers: Seq<Answers>, attach: Workload) -> Result<
        Plan,
        Seq<char>,
    > {
        match self.attach_error(attach) {
            Some(error) => Err(error),
            None => match self.settlements(answers, self.relations().len()) {
                Err(error) => Err(error),
                Ok(settled) => self.settled_plan(settled, attach),
            },
        }
    }

    /// Whether no relation needs a resolver.
    pub open spec fn literal(self) -> bool {
        forall|i: int|
            0 <= i < self.relations().len() ==> literal(
                (#[trigger] self.relations()[i]).destination.selector,
            ) is Some && (self.relations()[i].source is Some ==> literal(
                self.relations()[i].source->0,
            ) is Some)
    }

    /// Answers for an experiment that needs no resolver.
    pub open spec fn no_answers(self) -> Seq<Answers> {
        Seq::new(self.relations().len(), |i: int| nothing())
    }
}

/// Whether planning came out as it should, with nothing carried out yet.
pub open spec fn plans(r: Result<ResolvedExperiment, String>, wanted: Result<Plan, Seq<char>>) -> bool {
    match (r, wanted) {
        (Ok(plan), Ok(value)) => {
            &&& plan@ == value
            &&& plan.environment is None
            &&& plan.effective_environment is None
            &&& plan.execution is None
            &&& plan.execution_error is None
        },
        (Err(message), Err(error)) => message@ == error,
        _ => false,
    }
}

impl ResolvedDestination {
    pub fn copy(&self) -> (r: ResolvedDestination)
        ensures
            r@ == self@,
    {
        ResolvedDestination {
            selector: self.selector.clone(),
            networks: copy_networks(&self.networks),
            protocol: self.protocol,
            port: self.port,
            resolution: self.resolution,
        }
    }
}

/// The answer for an experiment that needs none.
pub open spec fn nothing() -> Answers {
    (Result::<Seq<Address>, Seq<char>>::Ok(Seq::empty()), Result::<Seq<Address>, Seq<char>>::Ok(
        Seq::empty(),
    ))
}

fn no_addresses() -> (r: Result<Vec<IpAddr>, String>)
    ensures
        answer_of(r) == nothing().0,
{
    let none: Vec<IpAddr> = Vec::new();
    assert(addresses_of(none@) =~= Seq::<Address>::empty());
    Ok(none)
}

/// Whether an answer is one that a resolver gives for a text. Addresses and
/// networks are not asked for.
pub open spec fn may_answer<R: DestinationResolver>(
    resolver: &R,
    text: Seq<char>,
    answer: Answer,
) -> bool {
    literal(text) is None ==> exists|name: &str, given: Result<Vec<IpAddr>, String>|
        name@ == text && #[trigger] call_ensures(R::resolve, (resolver, name), given) && answer_of(
            given,
        ) == answer
}

/// Whether answers are those that a resolver gives for a relation: for its
/// destination, and then for its source.
pub open spec fn answered_by<R: DestinationResolver>(
    resolver: &R,
    relation: Authored,
    answers: Answers,
) -> bool {
    &&& may_answer(resolver, relation.destination.selector, answers.0)
    &&& relation.source matches Some(text) ==> resolution(
        relation.destination.selector,
        answers.0,
    ) is Ok ==> may_answer(resolver, text, answers.1)
}

impl Experiment {
    /// Whether answers are those that a resolver gives for the relations of the
    /// experiment, in turn, up to the first that cannot be settled.
    pub open spec fn resolved_by<R: DestinationResolver>(
        self,
        resolver: &R,
        answers: Seq<Answers>,
        attach: Workload,
    ) -> bool {
        self.attach_error(attach) is None ==> forall|i: int|
            0 <= i < answers.len() && self.settlements(answers, i as nat) is Ok ==> answered_by(
                resolver,
                self.relations()[i],
                #[trigger] answers[i],
            )
    }
}

fn answer<R: DestinationResolver>(resolver: &R, text: &str) -> (r: Result<Vec<IpAddr>, String>)
    ensures
        literal(text@) is Some ==> answer_of(r) == nothing().0,
        may_answer(resolver, text@, answer_of(r)),
{
    if needs_resolver(text) {
        let r = resolver.resolve(text);
        assert(call_ensures(R::resolve, (resolver, text), r));
        r
    } else {
        no_addresses()
    }
}

fn ask<R: DestinationResolver>(resolver: &R, selector: &CommunicationSelector) -> (r:
    ResolverAnswers)
    ensures
        literal(selector@.destination.selector) is Some && (selector@.source is Some ==> literal(
            selector@.source->0,
        ) is Some) ==> r@ == nothing(),
        answered_by(resolver, selector@, r@),
{
    let destination = answer(resolver, selector.destination.selector.as_str());
    let reached = resolve_selector(selector.destination.selector.as_str(), &destination).is_ok();
    let source = match &selector.source {
        Some(source) => if reached {
            answer(resolver, source.as_str())
        } else {
            no_addresses()
        },
        None => no_addresses(),
    };
    ResolverAnswers { destination, source }
}

/// Whether every pair of every relation can be written.
pub open spec fn inputs_printable(inputs: Seq<ResolvedSelectorInput>) -> bool {
    forall|i: int| 0 <= i < inputs.len() ==> pairs_printable((#[trigger] inputs[i]).bindings@)
}

proof fn settlements_look_back(experiment: Experiment, a: Seq<Answers>, b: Seq<Answers>, n: nat)
    requires
        forall|i: int| 0 <= i < n ==> a[i] == b[i],
    ensures
        experiment.settlements(a, n) == experiment.settlements(b, n),
    decreases n,
{
    if n > 0 {
        settlements_look_back(experiment, a, b, (n - 1) as nat);
        assert(a[n - 1] == b[n - 1]);
    }
}

proof fn settlements_stop(experiment: Experiment, answers: Seq<Answers>, m: nat, n: nat)
    requires
        m <= n,
        experiment.settlements(answers, m) is Err,
    ensures
        experiment.settlements(answers, n) == experiment.settlements(answers, m),
    decreases n,
{
    if m < n {
        settlements_stop(experiment, answers, m, (n - 1) as nat);
    }
}

impl ExperimentSpec {
    fn check_attach(&self, attach: &AttachSpec) -> (r: Result<(), String>)
        ensures
            reports(r, self@.attach_error(attach@)),
    {
        match self.validate() {
            Ok(_) => {},
            Err(message) => return Err(message),
        }
        match attach.validate_concrete() {
            Ok(_) => {},
            Err(message) => return Err(message),
        }
        self.source.validate_attach(attach)
    }

    fn number(&self, inputs: Vec<ResolvedSelectorInput>, attach: AttachSpec) -> (r: Result<
        ResolvedExperiment,
        String,
    >)
        requires
            inputs_printable(inputs@),
            self.destination is Some ==> inputs@.len() > 0,
        ensures
            plans(r, self@.settled_plan(settled_of(inputs@), attach@)),
    {
        let selectors = match compile_selectors(&inputs) {
            Ok(selectors) => selectors,
            Err(message) => return Err(message),
        };
        let ghost relations = all_numbered(settled_of(inputs@));
        assert(relations_of(selectors@) == relations);
        assert(relations_of(selectors@).len() == selectors@.len());
        let selection_notes = match validate_resolved_bindings(&selectors) {
            Ok(notes) => notes,
            Err(message) => return Err(message),
        };
        let timeline = Timeline {
            version: TIMELINE_VERSION,
            kind: TimelineKind::Profile,
            name: Some(self.name.clone()),
            target: Some(attach.target_uri()),
            duration_ms: self.profile.duration_ms,
            events: compile_events(&self.profile.events, &selectors),
        };
        assert(timeline@ == self@.timeline(relations, attach@));
        match timeline.validate() {
            Ok(_) => {},
            Err(message) => return Err(message),
        }
        let destination = match &self.destination {
            Some(_) => {
                assert(relations[0] == selectors@[0]@);
                Some(selectors[0].destination.copy())
            },
            None => None,
        };
        Ok(
            ResolvedExperiment {
                version: self.version,
                name: self.name.clone(),
                attach,
                destination,
                selectors,
                selection_notes,
                timeline,
                environment: None,
                effective_environment: None,
                execution: None,
                execution_error: None,
                traffic: copy_traffic(&self.traffic),
            },
        )
    }

    /// Plans the experiment at an attach point. The resolver is asked for host
    /// names alone, and no more once a relation cannot be settled.
    pub fn compile<R: DestinationResolver>(&self, resolver: &R, attach: AttachSpec) -> (r: Result<
        ResolvedExperiment,
        String,
    >)
        ensures
            exists|answers: Seq<Answers>|
                answers.len() == self@.relations().len() && plans(
                    r,
                    #[trigger] self@.plan(answers, attach@),
                ) && self@.resolved_by(resolver, answers, attach@),
            self@.literal() ==> plans(r, self@.plan(self@.no_answers(), attach@)),
    {
        let ghost mut answers = self@.no_answers();
        match self.check_attach(&attach) {
            Ok(_) => {},
            Err(message) => {
                let r = Err(message);
                assert(plans(r, self@.plan(answers, attach@)));
                return r;
            },
        }
        let selectors = self.authored_selectors();
        let ghost relations = self@.relations();
        let mut inputs: Vec<ResolvedSelectorInput> = Vec::new();
        assert(settled_of(inputs@) =~= Seq::<Settled>::empty());
        let mut index: usize = 0;
        while index < selectors.len()
            invariant
                index <= selectors@.len(),
                relations == self@.relations(),
                authored_of(selectors@) == relations,
                selectors@.len() == relations.len(),
                answers.len() == relations.len(),
                self@.attach_error(attach@) is None,
                self@.literal() ==> answers == self@.no_answers(),
                forall|i: int|
                    0 <= i < index ==> answered_by(resolver, relations[i], #[trigger] answers[i]),
                inputs@.len() == index,
                inputs_printable(inputs@),
                self@.settlements(answers, index as nat) == Result::<Seq<Settled>, Seq<char>>::Ok(
                    settled_of(inputs@),
                ),
            decreases selectors@.len() - index,
        {
            let asked = ask(resolver, &selectors[index]);
            assert(relations[index as int] == selectors@[index as int]@);
            proof {
                let before = answers;
                answers = answers.update(index as int, asked@);
                settlements_look_back(self@, before, answers, index as nat);
                if self@.literal() {
                    assert(literal(relations[index as int].destination.selector) is Some);
                    assert(answers =~= self@.no_answers());
                }
            }
            match resolve_selector_input(&selectors[index], &asked.destination, &asked.source) {
                Ok(input) => {
                    let ghost reached = inputs@;
                    inputs.push(input);
                    assert(settled_of(inputs@) =~= settled_of(reached).push(input@));
                },
                Err(message) => {
                    let r = Err(message);
                    proof {
                        settlements_stop(self@, answers, (index + 1) as nat, relations.len());
                        assert forall|i: int|
                            0 <= i < answers.len() && self@.settlements(
                                answers,
                                i as nat,
                            ) is Ok implies answered_by(
                            resolver,
                            self@.relations()[i],
                            #[trigger] answers[i],
                        ) by {
                            if i > index {
                                settlements_stop(self@, answers, (index + 1) as nat, i as nat);
                            }
                        }
                    }
                    assert(plans(r, self@.plan(answers, attach@)));
                    return r;
                },
            }
            index += 1;
        }
        let r = self.number(inputs, attach);
        assert(plans(r, self@.plan(answers, attach@)));
        r
    }

    /// Plans the experiment at an attach point, with what a resolver answered
    /// for each of its relations.
    pub fn compile_with(&self, answers: &Vec<ResolverAnswers>, attach: AttachSpec) -> (r: Result<
        ResolvedExperiment,
        String,
    >)
        requires
            answers@.len() == self@.relations().len(),
        ensures
            plans(r, self@.plan(answers_of(answers@), attach@)),
    {
        match self.check_attach(&attach) {
            Ok(_) => {},
            Err(message) => return Err(message),
        }
        let selectors = self.authored_selectors();
        let ghost relations = self@.relations();
        let ghost given = answers_of(answers@);
        let mut inputs: Vec<ResolvedSelectorInput> = Vec::new();
        assert(settled_of(inputs@) =~= Seq::<Settled>::empty());
        let mut index: usize = 0;
        while index < selectors.len()
            invariant
                index <= selectors@.len(),
                relations == self@.relations(),
                given == answers_of(answers@),
                authored_of(selectors@) == relations,
                selectors@.len() == relations.len(),
                answers@.len() == relations.len(),
                self@.attach_error(attach@) is None,
                inputs@.len() == index,
                inputs_printable(inputs@),
                self@.settlements(given, index as nat) == Result::<Seq<Settled>, Seq<char>>::Ok(
                    settled_of(inputs@),
                ),
            decreases selectors@.len() - index,
        {
            let asked = &answers[index];
            assert(relations[index as int] == selectors@[index as int]@);
            assert(given[index as int] == asked@);
            match resolve_selector_input(&selectors[index], &asked.destination, &asked.source) {
                Ok(input) => {
                    let ghost reached = inputs@;
                    inputs.push(input);
                    assert(settled_of(inputs@) =~= settled_of(reached).push(input@));
                },
                Err(message) => {
                    proof {
                        settlements_stop(self@, given, (index + 1) as nat, relations.len());
                    }
                    return Err(message);
                },
            }
            index += 1;
        }
        self.number(inputs, attach)
    }
}

} // verus!
