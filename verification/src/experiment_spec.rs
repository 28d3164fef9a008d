//! Experiments as users write them, and what is checked of them.

use vstd::prelude::*;
use vstd::string::*;
use crate::common::{PERMYRIAD, PROTOCOL_TCP, PROTOCOL_UDP};
use crate::protocol::{first_error, reports};
use crate::text::{decimal, digits, optional_text, same_text};
use crate::workload_spec::{
    copy_optional_text, empty_error, order_error, pairs, traffic_of, validate_non_empty,
    validate_order, Traffic, TrafficSpec, Workload, WorkloadSpec,
};
use crate::words::{ascending_names_differ, has_ascending_names, named_entries, names_ascend};

verus! {

pub const EXPERIMENT_VERSION: u32 = 1;

/// How names of destinations become addresses.
#[derive(Clone, Copy, Debug, PartialEq, Eq, Structural)]
pub enum ResolutionStrategy {
    /// Once, before the experiment starts.
    Snapshot,
}

impl Default for ResolutionStrategy {
    fn default() -> (r: Self)
        ensures
            r == ResolutionStrategy::Snapshot,
    {
        ResolutionStrategy::Snapshot
    }
}

/// The protocols that a destination can name.
#[derive(Clone, Copy, Debug, PartialEq, Eq, Structural)]
pub enum NetworkProtocol {
    Any,
    Tcp,
    Udp,
}

impl Default for NetworkProtocol {
    fn default() -> (r: Self)
        ensures
            r == NetworkProtocol::Any,
    {
        NetworkProtocol::Any
    }
}

impl NetworkProtocol {
    pub open spec fn code(self) -> u8 {
        match self {
            NetworkProtocol::Any => 0,
            NetworkProtocol::Tcp => PROTOCOL_TCP,
            NetworkProtocol::Udp => PROTOCOL_UDP,
        }
    }

    /// The protocol number on the wire; zero stands for any.
    pub fn number(self) -> (r: u8)
        ensures
            r == self.code(),
    {
        match self {
            NetworkProtocol::Any => 0,
            NetworkProtocol::Tcp => PROTOCOL_TCP,
            NetworkProtocol::Udp => PROTOCOL_UDP,
        }
    }
}

/// The destination of an experiment.
#[derive(Clone, Debug, PartialEq, Eq)]
pub struct DestinationSpec {
    /// An address, a network or a host name. Host names become addresses
    /// before the experiment starts.
    pub selector: String,
    pub protocol: NetworkProtocol,
    pub port: Option<u16>,
    pub resolution: ResolutionStrategy,
}

/// A named relation between a source and a destination.
#[derive(Clone, Debug, PartialEq, Eq)]
pub struct CommunicationSelector {
    pub name: String,
    /// An address, a network or a host name. Without one every source counts.
    pub source: Option<String>,
    pub destination: DestinationSpec,
}

/// The faults in force at one time.
#[derive(Clone, Copy, Debug, PartialEq, Eq, Structural)]
pub struct FaultSpec {
    pub drop_permyriad: u32,
    pub duplicate_permyriad: u32,
    pub reorder_permyriad: u32,
    pub delay_ns: u64,
    pub jitter_ns: u64,
    pub bandwidth_bps: u64,
    pub seed: u32,
}

impl FaultSpec {
    /// No fault at all.
    pub open spec fn harmless() -> FaultSpec {
        FaultSpec {
            drop_permyriad: 0,
            duplicate_permyriad: 0,
            reorder_permyriad: 0,
            delay_ns: 0,
            jitter_ns: 0,
            bandwidth_bps: 0,
            seed: 0,
        }
    }
}

impl Default for FaultSpec {
    fn default() -> (r: Self)
        ensures
            r == FaultSpec::harmless(),
    {
        FaultSpec {
            drop_permyriad: 0,
            duplicate_permyriad: 0,
            reorder_permyriad: 0,
            delay_ns: 0,
            jitter_ns: 0,
            bandwidth_bps: 0,
            seed: 0,
        }
    }
}

/// A change of faults.
#[derive(Clone, Debug, PartialEq, Eq)]
pub struct FaultEvent {
    pub at_ms: u64,
    pub fault: FaultSpec,
    /// The complete state of every named relation, in ascending order of the
    /// names, none twice.
    pub faults: Vec<(String, FaultSpec)>,
}

/// How faults change over the time of an experiment.
#[derive(Clone, Debug, PartialEq, Eq)]
pub struct FaultProfile {
    pub duration_ms: u64,
    pub events: Vec<FaultEvent>,
}

/// An experiment as users write it.
#[derive(Clone, Debug, PartialEq, Eq)]
pub struct ExperimentSpec {
    pub version: u32,
    pub name: String,
    pub source: WorkloadSpec,
    pub destination: Option<DestinationSpec>,
    /// Named relations, for experiments with more than one of them or with a
    /// source network.
    pub selectors: Vec<CommunicationSelector>,
    pub profile: FaultProfile,
    pub traffic: Option<TrafficSpec>,
    /// What other tools keep with an experiment: names in ascending order, none
    /// twice, and encoded values.
    pub extensions: Vec<(String, String)>,
}

/// A destination as a value.
pub struct Destination {
    pub selector: Seq<char>,
    pub protocol: NetworkProtocol,
    pub port: Option<u16>,
    pub resolution: ResolutionStrategy,
}

impl View for DestinationSpec {
    type V = Destination;

    open spec fn view(&self) -> Destination {
        Destination {
            selector: self.selector@,
            protocol: self.protocol,
            port: self.port,
            resolution: self.resolution,
        }
    }
}

/// A relation as a value.
pub struct Authored {
    pub name: Seq<char>,
    pub source: Option<Seq<char>>,
    pub destination: Destination,
}

impl View for CommunicationSelector {
    type V = Authored;

    open spec fn view(&self) -> Authored {
        Authored {
            name: self.name@,
            source: optional_text(self.source),
            destination: self.destination@,
        }
    }
}

/// The relations of a list as values.
pub open spec fn authored_of(list: Seq<CommunicationSelector>) -> Seq<Authored> {
    list.map_values(|selector: CommunicationSelector| selector@)
}

/// Named faults as values.
pub open spec fn named_faults(list: Seq<(String, FaultSpec)>) -> Seq<(Seq<char>, FaultSpec)> {
    list.map_values(|entry: (String, FaultSpec)| (entry.0@, entry.1))
}

/// A change of faults as a value.
pub struct Incident {
    pub at_ms: u64,
    pub fault: FaultSpec,
    pub faults: Seq<(Seq<char>, FaultSpec)>,
}

impl View for FaultEvent {
    type V = Incident;

    open spec fn view(&self) -> Incident {
        Incident { at_ms: self.at_ms, fault: self.fault, faults: named_faults(self.faults@) }
    }
}

/// The changes of a list as values.
pub open spec fn incidents_of(events: Seq<FaultEvent>) -> Seq<Incident> {
    events.map_values(|event: FaultEvent| event@)
}

/// A profile as a value.
pub struct Profile {
    pub duration_ms: u64,
    pub events: Seq<Incident>,
}

impl View for FaultProfile {
    type V = Profile;

    open spec fn view(&self) -> Profile {
        Profile { duration_ms: self.duration_ms, events: incidents_of(self.events@) }
    }
}

pub open spec fn destination_value(destination: Option<DestinationSpec>) -> Option<Destination> {
    match destination {
        Some(value) => Some(value@),
        None => None,
    }
}

/// An experiment as a value.
pub struct Experiment {
    pub version: u32,
    pub name: Seq<char>,
    pub source: Workload,
    pub destination: Option<Destination>,
    pub selectors: Seq<Authored>,
    pub profile: Profile,
    pub traffic: Option<Traffic>,
    pub extensions: Seq<(Seq<char>, Seq<char>)>,
}

impl View for ExperimentSpec {
    type V = Experiment;

    open spec fn view(&self) -> Experiment {
        Experiment {
            version: self.version,
            name: self.name@,
            source: self.source@,
            destination: destination_value(self.destination),
            selectors: authored_of(self.selectors@),
            profile: self.profile@,
            traffic: traffic_of(self.traffic),
            extensions: pairs(self.extensions@),
        }
    }
}

impl Destination {
    /// What is wrong with a destination.
    pub open spec fn error(self) -> Option<Seq<char>> {
        first_error(
            empty_error(self.selector, "destination selector must not be empty"@),
            if self.port == Some(0u16) {
                Some("destination port must be non-zero when present"@)
            } else if self.port is Some && self.protocol == NetworkProtocol::Any {
                Some("destination port requires tcp or udp"@)
            } else {
                None
            },
        )
    }
}

impl DestinationSpec {
    /// Checks a destination.
    pub fn validate(&self) -> (r: Result<(), String>)
        ensures
            reports(r, self@.error()),
    {
        match validate_non_empty(self.selector.as_str(), "destination selector must not be empty") {
            Ok(_) => {},
            Err(message) => return Err(message),
        }
        if let Some(port) = self.port {
            if port == 0 {
                return Err("destination port must be non-zero when present".to_owned());
            }
            if self.protocol == NetworkProtocol::Any {
                return Err("destination port requires tcp or udp".to_owned());
            }
        }
        Ok(())
    }

    pub fn copy(&self) -> (r: DestinationSpec)
        ensures
            r@ == self@,
    {
        DestinationSpec {
            selector: self.selector.clone(),
            protocol: self.protocol,
            port: self.port,
            resolution: self.resolution,
        }
    }
}

impl Authored {
    /// What is wrong with a relation.
    pub open spec fn error(self) -> Option<Seq<char>> {
        first_error(
            empty_error(self.name, "selector name must not be empty"@),
            first_error(
                self.destination.error(),
                if self.source is Some && self.source->0.len() == 0 {
                    Some("selector "@ + self.name + " has an empty source"@)
                } else {
                    None
                },
            ),
        )
    }
}

impl CommunicationSelector {
    fn validate(&self) -> (r: Result<(), String>)
        ensures
            reports(r, self@.error()),
    {
        match validate_non_empty(self.name.as_str(), "selector name must not be empty") {
            Ok(_) => {},
            Err(message) => return Err(message),
        }
        match self.destination.validate() {
            Ok(_) => {},
            Err(message) => return Err(message),
        }
        if let Some(source) = &self.source {
            if source.as_str().is_empty() {
                let mut message = "selector ".to_owned();
                message.append(self.name.as_str());
                message.append(" has an empty source");
                return Err(message);
            }
        }
        Ok(())
    }

    pub fn copy(&self) -> (r: CommunicationSelector)
        ensures
            r@ == self@,
    {
        CommunicationSelector {
            name: self.name.clone(),
            source: copy_optional_text(&self.source),
            destination: self.destination.copy(),
        }
    }
}

/// The first thing that is wrong with the relations from `from` on.
pub open spec fn selectors_error(selectors: Seq<Authored>, from: int) -> Option<Seq<char>>
    decreases selectors.len() - from,
{
    if from >= selectors.len() {
        None
    } else {
        first_error(selectors[from].error(), selectors_error(selectors, from + 1))
    }
}

/// Whether two relations share a name.
pub open spec fn names_repeat(selectors: Seq<Authored>) -> bool {
    exists|i: int, j: int|
        0 <= i < j < selectors.len() && (#[trigger] selectors[i]).name == (
        #[trigger] selectors[j]).name
}

/// Whether a relation has a name.
pub open spec fn named_relation(selectors: Seq<Authored>, name: Seq<char>) -> bool {
    exists|i: int| 0 <= i < selectors.len() && (#[trigger] selectors[i]).name == name
}

/// Whether a fault has a name.
pub open spec fn named_fault(faults: Seq<(Seq<char>, FaultSpec)>, name: Seq<char>) -> bool {
    exists|i: int| 0 <= i < faults.len() && (#[trigger] faults[i]).0 == name
}

/// Whether faults are named after the relations: each has exactly one, and no
/// other name occurs.
pub open spec fn covers_exactly(
    faults: Seq<(Seq<char>, FaultSpec)>,
    selectors: Seq<Authored>,
) -> bool {
    &&& names_ascend(faults)
    &&& forall|i: int|
        0 <= i < selectors.len() ==> named_fault(faults, (#[trigger] selectors[i]).name)
    &&& forall|i: int|
        0 <= i < faults.len() ==> named_relation(selectors, (#[trigger] faults[i]).0)
}

/// `profile event <index><rest>`.
pub open spec fn about_profile_event(index: nat, rest: Seq<char>) -> Seq<char> {
    "profile event "@ + digits(index) + rest
}

fn profile_message(index: usize, rest: &str) -> (r: String)
    ensures
        r@ == about_profile_event(index as nat, rest@),
{
    let mut message = "profile event ".to_owned();
    message.append(decimal(index as u64).as_str());
    message.append(rest);
    message
}

impl FaultSpec {
    /// What is wrong with faults: a rate above one hundred percent.
    pub open spec fn error(self, event_index: nat) -> Option<Seq<char>> {
        if self.drop_permyriad > PERMYRIAD {
            Some(about_profile_event(event_index, " has loss above 100%"@))
        } else if self.duplicate_permyriad > PERMYRIAD {
            Some(about_profile_event(event_index, " has duplication above 100%"@))
        } else if self.reorder_permyriad > PERMYRIAD {
            Some(about_profile_event(event_index, " has reordering above 100%"@))
        } else {
            None
        }
    }

    /// Checks the rates of faults.
    pub fn validate(&self, event_index: usize) -> (r: Result<(), String>)
        ensures
            reports(r, self.error(event_index as nat)),
    {
        if self.drop_permyriad > PERMYRIAD {
            Err(profile_message(event_index, " has loss above 100%"))
        } else if self.duplicate_permyriad > PERMYRIAD {
            Err(profile_message(event_index, " has duplication above 100%"))
        } else if self.reorder_permyriad > PERMYRIAD {
            Err(profile_message(event_index, " has reordering above 100%"))
        } else {
            Ok(())
        }
    }
}

/// The first thing that is wrong with the named faults from `from` on.
pub open spec fn faults_error(
    faults: Seq<(Seq<char>, FaultSpec)>,
    event_index: nat,
    from: int,
) -> Option<Seq<char>>
    decreases faults.len() - from,
{
    if from >= faults.len() {
        None
    } else {
        first_error(faults[from].1.error(event_index), faults_error(faults, event_index, from + 1))
    }
}

impl Incident {
    /// What is wrong with a change of faults, given its place, the time of the
    /// change before it, and the relations of the experiment.
    pub open spec fn error_after(
        self,
        index: nat,
        previous_at_ms: u64,
        duration_ms: u64,
        selectors: Seq<Authored>,
        named: bool,
    ) -> Option<Seq<char>> {
        if self.at_ms < previous_at_ms {
            Some(about_profile_event(index, " is out of order"@))
        } else if self.at_ms > duration_ms {
            Some(about_profile_event(index, " exceeds duration"@))
        } else {
            first_error(
                self.fault.error(index),
                if named && !names_ascend(self.faults) {
                    Some(
                        about_profile_event(
                            index,
                            " faults must have distinct names in ascending order"@,
                        ),
                    )
                } else if named && !covers_exactly(self.faults, selectors) {
                    Some(
                        about_profile_event(
                            index,
                            " faults must name every selector exactly once"@,
                        ),
                    )
                } else if !named && self.faults.len() > 0 {
                    Some(about_profile_event(index, " uses faults without selectors"@))
                } else {
                    faults_error(self.faults, index, 0)
                },
            )
        }
    }
}

fn fault_named(faults: &Vec<(String, FaultSpec)>, name: &str) -> (r: bool)
    ensures
        r == named_fault(named_faults(faults@), name@),
{
    let mut index: usize = 0;
    while index < faults.len()
        invariant
            index <= faults@.len(),
            forall|i: int| 0 <= i < index ==> (#[trigger] named_faults(faults@)[i]).0 != name@,
        decreases faults@.len() - index,
    {
        assert(named_faults(faults@)[index as int].0 == faults@[index as int].0@);
        if same_text(faults[index].0.as_str(), name) {
            return true;
        }
        index += 1;
    }
    false
}

fn relation_named(selectors: &Vec<CommunicationSelector>, name: &str) -> (r: bool)
    ensures
        r == named_relation(authored_of(selectors@), name@),
{
    let mut index: usize = 0;
    while index < selectors.len()
        invariant
            index <= selectors@.len(),
            forall|i: int| 0 <= i < index ==> (#[trigger] authored_of(selectors@)[i]).name != name@,
        decreases selectors@.len() - index,
    {
        assert(authored_of(selectors@)[index as int].name == selectors@[index as int].name@);
        if same_text(selectors[index].name.as_str(), name) {
            return true;
        }
        index += 1;
    }
    false
}

fn faults_cover(faults: &Vec<(String, FaultSpec)>, selectors: &Vec<CommunicationSelector>) -> (r:
    bool)
    requires
        names_ascend(named_faults(faults@)),
    ensures
        r == covers_exactly(named_faults(faults@), authored_of(selectors@)),
{
    let mut index: usize = 0;
    while index < selectors.len()
        invariant
            index <= selectors@.len(),
            forall|i: int|
                0 <= i < index ==> named_fault(
                    named_faults(faults@),
                    (#[trigger] authored_of(selectors@)[i]).name,
                ),
        decreases selectors@.len() - index,
    {
        assert(authored_of(selectors@)[index as int].name == selectors@[index as int].name@);
        if !fault_named(faults, selectors[index].name.as_str()) {
            return false;
        }
        index += 1;
    }
    let mut at: usize = 0;
    while at < faults.len()
        invariant
            at <= faults@.len(),
            names_ascend(named_faults(faults@)),
            forall|i: int|
                0 <= i < authored_of(selectors@).len() ==> named_fault(
                    named_faults(faults@),
                    (#[trigger] authored_of(selectors@)[i]).name,
                ),
            forall|i: int|
                0 <= i < at ==> named_relation(
                    authored_of(selectors@),
                    (#[trigger] named_faults(faults@)[i]).0,
                ),
        decreases faults@.len() - at,
    {
        assert(named_faults(faults@)[at as int].0 == faults@[at as int].0@);
        if !relation_named(selectors, faults[at].0.as_str()) {
            return false;
        }
        at += 1;
    }
    true
}

impl FaultEvent {
    fn validate_after(
        &self,
        index: usize,
        previous_at_ms: u64,
        duration_ms: u64,
        selectors: &Vec<CommunicationSelector>,
        named: bool,
    ) -> (r: Result<(), String>)
        ensures
            reports(
                r,
                self@.error_after(
                    index as nat,
                    previous_at_ms,
                    duration_ms,
                    authored_of(selectors@),
                    named,
                ),
            ),
    {
        if self.at_ms < previous_at_ms {
            return Err(profile_message(index, " is out of order"));
        }
        if self.at_ms > duration_ms {
            return Err(profile_message(index, " exceeds duration"));
        }
        match self.fault.validate(index) {
            Ok(_) => {},
            Err(message) => return Err(message),
        }
        if named {
            assert(named_faults(self.faults@) =~= named_entries(self.faults@));
            if !has_ascending_names(&self.faults) {
                return Err(
                    profile_message(index, " faults must have distinct names in ascending order"),
                );
            }
            if !faults_cover(&self.faults, selectors) {
                return Err(
                    profile_message(index, " faults must name every selector exactly once"),
                );
            }
        } else if self.faults.len() > 0 {
            return Err(profile_message(index, " uses faults without selectors"));
        }
        let mut at: usize = 0;
        while at < self.faults.len()
            invariant
                at <= self.faults@.len(),
                self@.error_after(
                    index as nat,
                    previous_at_ms,
                    duration_ms,
                    authored_of(selectors@),
                    named,
                ) == faults_error(self@.faults, index as nat, at as int),
            decreases self.faults@.len() - at,
        {
            assert(self@.faults[at as int].1 == self.faults@[at as int].1);
            match self.faults[at].1.validate(index) {
                Ok(_) => {},
                Err(message) => return Err(message),
            }
            at += 1;
        }
        Ok(())
    }

    pub fn copy(&self) -> (r: FaultEvent)
        ensures
            r@ == self@,
    {
        let mut faults: Vec<(String, FaultSpec)> = Vec::new();
        let mut index: usize = 0;
        while index < self.faults.len()
            invariant
                index <= self.faults@.len(),
                faults@ == self.faults@.take(index as int),
            decreases self.faults@.len() - index,
        {
            faults.push((self.faults[index].0.clone(), self.faults[index].1));
            assert(faults@ =~= self.faults@.take(index + 1));
            index += 1;
        }
        assert(self.faults@.take(self.faults@.len() as int) =~= self.faults@);
        FaultEvent { at_ms: self.at_ms, fault: self.fault, faults }
    }
}

/// The first thing that is wrong with the changes from `from` on.
pub open spec fn incidents_error(
    events: Seq<Incident>,
    duration_ms: u64,
    selectors: Seq<Authored>,
    named: bool,
    from: int,
) -> Option<Seq<char>>
    decreases events.len() - from,
{
    if from >= events.len() {
        None
    } else {
        first_error(
            events[from].error_after(
                from as nat,
                if from == 0 {
                    0
                } else {
                    events[from - 1].at_ms
                },
                duration_ms,
                selectors,
                named,
            ),
            incidents_error(events, duration_ms, selectors, named, from + 1),
        )
    }
}

impl Profile {
    /// What is wrong with a profile.
    pub open spec fn error(self, selectors: Seq<Authored>, named: bool) -> Option<Seq<char>> {
        if self.events.len() == 0 || self.events[0].at_ms != 0 {
            Some("profile must contain an event at 0ms"@)
        } else {
            incidents_error(self.events, self.duration_ms, selectors, named, 0)
        }
    }
}

impl FaultProfile {
    /// Checks a profile against the relations of its experiment.
    pub fn validate(&self, selectors: &Vec<CommunicationSelector>, named: bool) -> (r: Result<
        (),
        String,
    >)
        ensures
            reports(r, self@.error(authored_of(selectors@), named)),
    {
        if self.events.len() == 0 {
            return Err("profile must contain an event at 0ms".to_owned());
        }
        assert(self@.events[0] == self.events@[0]@);
        if self.events[0].at_ms != 0 {
            return Err("profile must contain an event at 0ms".to_owned());
        }
        let mut at: usize = 0;
        let mut previous: u64 = 0;
        while at < self.events.len()
            invariant
                at <= self.events@.len(),
                previous == (if at == 0 {
                    0
                } else {
                    self.events@[at - 1].at_ms
                }),
                self@.error(authored_of(selectors@), named) == incidents_error(
                    self@.events,
                    self.duration_ms,
                    authored_of(selectors@),
                    named,
                    at as int,
                ),
            decreases self.events@.len() - at,
        {
            assert(self@.events[at as int] == self.events@[at as int]@);
            if at > 0 {
                assert(self@.events[at - 1] == self.events@[at - 1]@);
            }
            match self.events[at].validate_after(at, previous, self.duration_ms, selectors, named) {
                Ok(_) => {},
                Err(message) => return Err(message),
            }
            previous = self.events[at].at_ms;
            at += 1;
        }
        Ok(())
    }
}

impl Experiment {
    /// The relations of an experiment: those it names, or the one from every
    /// source to its destination.
    pub open spec fn relations(self) -> Seq<Authored> {
        if self.selectors.len() > 0 {
            self.selectors
        } else {
            match self.destination {
                Some(destination) => seq![
                    Authored { name: "default"@, source: None, destination },
                ],
                None => Seq::empty(),
            }
        }
    }

    /// What is wrong with an experiment.
    pub open spec fn error(self) -> Option<Seq<char>> {
        if self.version != EXPERIMENT_VERSION {
            Some("unsupported experiment version "@ + digits(self.version as nat))
        } else {
            first_error(
                empty_error(self.name, "experiment name must not be empty"@),
                first_error(
                    self.source.error(),
                    if self.destination is Some && self.selectors.len() > 0 {
                        Some("use either destination or selectors, not both"@)
                    } else if self.relations().len() == 0 {
                        Some("experiment requires destination or selectors"@)
                    } else {
                        first_error(
                            selectors_error(self.relations(), 0),
                            if names_repeat(self.relations()) {
                                Some("selector names must be unique"@)
                            } else {
                                first_error(
                                    self.profile.error(
                                        self.relations(),
                                        self.selectors.len() > 0,
                                    ),
                                    first_error(
                                        match self.traffic {
                                            Some(traffic) => traffic.error(),
                                            None => None,
                                        },
                                        order_error(
                                            self.extensions,
                                            "extensions must have distinct names in ascending order"@,
                                        ),
                                    ),
                                )
                            },
                        )
                    },
                ),
            )
        }
    }
}

fn has_repeated_name(selectors: &Vec<CommunicationSelector>) -> (r: bool)
    ensures
        r == names_repeat(authored_of(selectors@)),
{
    let ghost values = authored_of(selectors@);
    let mut j: usize = 0;
    while j < selectors.len()
        invariant
            j <= selectors@.len(),
            values == authored_of(selectors@),
            forall|a: int, b: int|
                0 <= a < b < j ==> (#[trigger] values[a]).name != (#[trigger] values[b]).name,
        decreases selectors@.len() - j,
    {
        let mut i: usize = 0;
        while i < j
            invariant
                i <= j < selectors@.len(),
                values == authored_of(selectors@),
                forall|a: int, b: int|
                    0 <= a < b < j ==> (#[trigger] values[a]).name != (#[trigger] values[b]).name,
                forall|a: int| 0 <= a < i ==> (#[trigger] values[a]).name != values[j as int].name,
            decreases j - i,
        {
            assert(values[i as int].name == selectors@[i as int].name@);
            assert(values[j as int].name == selectors@[j as int].name@);
            if same_text(selectors[i].name.as_str(), selectors[j].name.as_str()) {
                return true;
            }
            i += 1;
        }
        j += 1;
    }
    false
}

impl ExperimentSpec {
    /// Checks an experiment.
    pub fn validate(&self) -> (r: Result<(), String>)
        ensures
            reports(r, self@.error()),
    {
        if self.version != EXPERIMENT_VERSION {
            let mut message = "unsupported experiment version ".to_owned();
            message.append(decimal(self.version as u64).as_str());
            return Err(message);
        }
        match validate_non_empty(self.name.as_str(), "experiment name must not be empty") {
            Ok(_) => {},
            Err(message) => return Err(message),
        }
        match self.source.validate() {
            Ok(_) => {},
            Err(message) => return Err(message),
        }
        if self.destination.is_some() && self.selectors.len() > 0 {
            return Err("use either destination or selectors, not both".to_owned());
        }
        let selectors = self.authored_selectors();
        if selectors.len() == 0 {
            return Err("experiment requires destination or selectors".to_owned());
        }
        match validate_selectors(&selectors) {
            Ok(_) => {},
            Err(message) => return Err(message),
        }
        if has_repeated_name(&selectors) {
            return Err("selector names must be unique".to_owned());
        }
        match self.profile.validate(&selectors, self.selectors.len() > 0) {
            Ok(_) => {},
            Err(message) => return Err(message),
        }
        if let Some(traffic) = &self.traffic {
            match traffic.validate() {
                Ok(_) => {},
                Err(message) => return Err(message),
            }
        }
        validate_order(
            &self.extensions,
            "extensions must have distinct names in ascending order",
        )
    }

    /// The relations of the experiment.
    pub fn authored_selectors(&self) -> (r: Vec<CommunicationSelector>)
        ensures
            authored_of(r@) == self@.relations(),
            r@.len() == self@.relations().len(),
    {
        if self.selectors.len() > 0 {
            return copy_selectors(&self.selectors);
        }
        let mut selectors: Vec<CommunicationSelector> = Vec::new();
        if let Some(destination) = &self.destination {
            selectors.push(
                CommunicationSelector {
                    name: "default".to_owned(),
                    source: None,
                    destination: destination.copy(),
                },
            );
        }
        assert(authored_of(selectors@) =~= self@.relations());
        selectors
    }
}

/// Copies relations.
pub fn copy_selectors(list: &Vec<CommunicationSelector>) -> (r: Vec<CommunicationSelector>)
    ensures
        authored_of(r@) == authored_of(list@),
        r@.len() == list@.len(),
{
    let mut out: Vec<CommunicationSelector> = Vec::new();
    let mut index: usize = 0;
    while index < list.len()
        invariant
            index <= list@.len(),
            out@.len() == index,
            forall|i: int| 0 <= i < index ==> (#[trigger] out@[i])@ == list@[i]@,
        decreases list@.len() - index,
    {
        out.push(list[index].copy());
        index += 1;
    }
    assert(authored_of(out@) =~= authored_of(list@));
    out
}

fn validate_selectors(selectors: &Vec<CommunicationSelector>) -> (r: Result<(), String>)
    ensures
        reports(r, selectors_error(authored_of(selectors@), 0)),
{
    let ghost values = authored_of(selectors@);
    let mut at: usize = 0;
    while at < selectors.len()
        invariant
            at <= selectors@.len(),
            values == authored_of(selectors@),
            selectors_error(values, 0) == selectors_error(values, at as int),
        decreases selectors@.len() - at,
    {
        assert(values[at as int] == selectors@[at as int]@);
        match selectors[at].validate() {
            Ok(_) => {},
            Err(message) => return Err(message),
        }
        at += 1;
    }
    Ok(())
}

/// A valid experiment lists variables and extensions as a map does: by ascending
/// names, none twice.
pub proof fn valid_lists_ascend(experiment: Experiment)
    requires
        experiment.error() is None,
    ensures
        names_ascend(experiment.extensions),
        experiment.source matches Workload::Local { process: Some(process), .. } ==> names_ascend(
            process.environment,
        ),
        experiment.source matches Workload::Docker { provision: Some(provision), .. }
            ==> names_ascend(provision.environment),
{
}

/// In a valid experiment every relation finds its own fault in every named
/// event, and just one, so that no relation silently goes without and no fault
/// is passed over.
pub proof fn valid_events_name_every_relation(experiment: Experiment, event: int, relation: int)
    requires
        experiment.error() is None,
        experiment.selectors.len() > 0,
        0 <= event < experiment.profile.events.len(),
        0 <= relation < experiment.selectors.len(),
    ensures
        named_fault(
            experiment.profile.events[event].faults,
            experiment.selectors[relation].name,
        ),
        forall|i: int, j: int|
            0 <= i < experiment.profile.events[event].faults.len() && 0 <= j
                < experiment.profile.events[event].faults.len()
                && #[trigger] experiment.profile.events[event].faults[i].0
                == #[trigger] experiment.profile.events[event].faults[j].0 ==> i == j,
{
    incidents_error_reaches(
        experiment.profile.events,
        experiment.profile.duration_ms,
        experiment.selectors,
        true,
        0,
        event,
    );
    let faults = experiment.profile.events[event].faults;
    assert(covers_exactly(faults, experiment.selectors));
    assert forall|i: int, j: int|
        0 <= i < faults.len() && 0 <= j < faults.len() && #[trigger] faults[i].0
            == #[trigger] faults[j].0 implies i == j by {
        ascending_names_differ(faults, i, j);
    }
}

/// A profile without errors has none in any of its changes.
pub proof fn incidents_error_reaches(
    events: Seq<Incident>,
    duration_ms: u64,
    selectors: Seq<Authored>,
    named: bool,
    from: int,
    at: int,
)
    requires
        0 <= from <= at < events.len(),
        incidents_error(events, duration_ms, selectors, named, from) is None,
    ensures
        events[at].error_after(
            at as nat,
            if at == 0 {
                0
            } else {
                events[at - 1].at_ms
            },
            duration_ms,
            selectors,
            named,
        ) is None,
    decreases at - from,
{
    if from < at {
        incidents_error_reaches(events, duration_ms, selectors, named, from + 1, at);
    }
}

} // verus!
