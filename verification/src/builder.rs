//! The form in which experiments are written and edited without a text editor.
//! What the form does not show is kept as it is.

use vstd::prelude::*;
use vstd::string::*;
use crate::console::Key;
use crate::container::Discovery;
use crate::experiment_spec::{
    authored_of, copy_selectors, destination_value, incidents_of, named_faults, Authored,
    CommunicationSelector, Destination, DestinationSpec, Experiment, ExperimentSpec, FaultEvent,
    FaultProfile, FaultSpec, Incident, NetworkProtocol, Profile, ResolutionStrategy,
    EXPERIMENT_VERSION,
};
use crate::text::{
    blank, is_blank, is_digit, number_up_to, parse_number, same_text, split_at_first, split_once,
    texts,
};
use crate::workload_spec::{
    copy_pairs, copy_traffic, pairs, system_of, traffic_of, Container, DockerProvision,
    LocalProcess, LxcProvision, Process, System, Traffic, TrafficSpec, Workload, WorkloadLifecycle,
    WorkloadSpec,
};

verus! {

/// Calls `String::push`, which adds a character at the end.
pub assume_specification[ String::push ](s: &mut String, ch: char)
    ensures
        final(s)@ == old(s)@.push(ch),
;

pub const FIELD_COUNT: usize = 13;

/// Where the source of an experiment runs.
#[derive(Clone, Copy, Debug, PartialEq, Eq, Structural)]
pub enum Runtime {
    Local,
    Docker,
    Lxc,
}

/// Faults that come ready-made.
#[derive(Clone, Copy, Debug, PartialEq, Eq, Structural)]
pub enum Template {
    BriefOutage,
    LossyLink,
    SlowLink,
    /// Those of an experiment that is edited.
    Custom,
}

/// What a user wants of the form.
#[derive(Clone, Copy, Debug, PartialEq, Eq, Structural)]
pub enum BuilderOutcome {
    Save,
    Execute,
    Cancel,
}

impl Template {
    pub open spec fn name(self) -> Seq<char> {
        match self {
            Template::BriefOutage => "brief outage"@,
            Template::LossyLink => "lossy link"@,
            Template::SlowLink => "slow link"@,
            Template::Custom => "custom/preserved"@,
        }
    }

    pub fn label(self) -> (r: &'static str)
        ensures
            r@ == self.name(),
    {
        match self {
            Template::BriefOutage => "brief outage",
            Template::LossyLink => "lossy link",
            Template::SlowLink => "slow link",
            Template::Custom => "custom/preserved",
        }
    }

    pub open spec fn following(self) -> Template {
        match self {
            Template::BriefOutage => Template::LossyLink,
            Template::LossyLink => Template::SlowLink,
            Template::SlowLink => Template::BriefOutage,
            Template::Custom => Template::BriefOutage,
        }
    }

    pub fn next(self) -> (r: Template)
        ensures
            r == self.following(),
    {
        match self {
            Template::BriefOutage => Template::LossyLink,
            Template::LossyLink => Template::SlowLink,
            Template::SlowLink => Template::BriefOutage,
            Template::Custom => Template::BriefOutage,
        }
    }

    /// The loss, in percent, and the delay of a template.
    pub open spec fn loss(self) -> Seq<char> {
        match self {
            Template::BriefOutage => "100"@,
            Template::LossyLink => "25"@,
            _ => "0"@,
        }
    }

    pub open spec fn delay_ns(self) -> u64 {
        match self {
            Template::SlowLink => 100_000_000,
            _ => 0,
        }
    }
}

impl Runtime {
    pub open spec fn name(self) -> Seq<char> {
        match self {
            Runtime::Local => "local"@,
            Runtime::Docker => "docker"@,
            Runtime::Lxc => "lxc"@,
        }
    }

    pub fn label(self) -> (r: &'static str)
        ensures
            r@ == self.name(),
    {
        match self {
            Runtime::Local => "local",
            Runtime::Docker => "docker",
            Runtime::Lxc => "lxc",
        }
    }

    pub open spec fn beside(self, forward: bool) -> Runtime {
        match (self, forward) {
            (Runtime::Local, true) => Runtime::Docker,
            (Runtime::Docker, true) => Runtime::Lxc,
            (Runtime::Lxc, true) => Runtime::Local,
            (Runtime::Local, false) => Runtime::Lxc,
            (Runtime::Docker, false) => Runtime::Local,
            (Runtime::Lxc, false) => Runtime::Docker,
        }
    }

    /// The runtime before or behind this one; they go round.
    pub fn next(self, forward: bool) -> (r: Runtime)
        ensures
            r == self.beside(forward),
    {
        match (self, forward) {
            (Runtime::Local, true) => Runtime::Docker,
            (Runtime::Docker, true) => Runtime::Lxc,
            (Runtime::Lxc, true) => Runtime::Local,
            (Runtime::Local, false) => Runtime::Lxc,
            (Runtime::Docker, false) => Runtime::Local,
            (Runtime::Lxc, false) => Runtime::Docker,
        }
    }
}

/// The protocol before or behind another one; they go round.
pub open spec fn protocol_beside(protocol: NetworkProtocol, forward: bool) -> NetworkProtocol {
    match (protocol, forward) {
        (NetworkProtocol::Any, true) => NetworkProtocol::Tcp,
        (NetworkProtocol::Tcp, true) => NetworkProtocol::Udp,
        (NetworkProtocol::Udp, true) => NetworkProtocol::Any,
        (NetworkProtocol::Any, false) => NetworkProtocol::Udp,
        (NetworkProtocol::Tcp, false) => NetworkProtocol::Any,
        (NetworkProtocol::Udp, false) => NetworkProtocol::Tcp,
    }
}

fn next_protocol(protocol: NetworkProtocol, forward: bool) -> (r: NetworkProtocol)
    ensures
        r == protocol_beside(protocol, forward),
{
    match (protocol, forward) {
        (NetworkProtocol::Any, true) => NetworkProtocol::Tcp,
        (NetworkProtocol::Tcp, true) => NetworkProtocol::Udp,
        (NetworkProtocol::Udp, true) => NetworkProtocol::Any,
        (NetworkProtocol::Any, false) => NetworkProtocol::Udp,
        (NetworkProtocol::Tcp, false) => NetworkProtocol::Any,
        (NetworkProtocol::Udp, false) => NetworkProtocol::Tcp,
    }
}

/// The form and what it was filled from.
#[derive(Clone, Debug, PartialEq, Eq)]
pub struct BuilderApp {
    pub selected: usize,
    pub runtime: Runtime,
    pub name: String,
    pub workload: String,
    pub image: String,
    pub interface: String,
    pub destination: String,
    pub protocol: NetworkProtocol,
    pub port: String,
    pub duration_ms: String,
    pub outage_start_ms: String,
    pub outage_end_ms: String,
    pub loss_percent: String,
    pub traffic_url: String,
    pub status: String,
    pub discovery: Discovery,
    pub candidate_index: usize,
    pub original: Option<ExperimentSpec>,
    pub template: Template,
    pub template_delay_ns: u64,
}

/// The form as a value.
pub struct Form {
    pub selected: int,
    pub runtime: Runtime,
    pub name: Seq<char>,
    pub workload: Seq<char>,
    pub image: Seq<char>,
    pub interface: Seq<char>,
    pub destination: Seq<char>,
    pub protocol: NetworkProtocol,
    pub port: Seq<char>,
    pub duration_ms: Seq<char>,
    pub outage_start_ms: Seq<char>,
    pub outage_end_ms: Seq<char>,
    pub loss_percent: Seq<char>,
    pub traffic_url: Seq<char>,
    pub status: Seq<char>,
    pub discovery: Found,
    pub candidate_index: int,
    pub original: Option<Experiment>,
    pub template: Template,
    pub template_delay_ns: u64,
}

/// What was found on a machine, as a value.
pub struct Found {
    pub local_interfaces: Seq<Seq<char>>,
    pub docker: Seq<Seq<char>>,
    pub lxc: Seq<Seq<char>>,
}

impl View for Discovery {
    type V = Found;

    open spec fn view(&self) -> Found {
        Found {
            local_interfaces: texts(self.local_interfaces@),
            docker: texts(self.docker@),
            lxc: texts(self.lxc@),
        }
    }
}

pub open spec fn experiment_of(spec: Option<ExperimentSpec>) -> Option<Experiment> {
    match spec {
        Some(value) => Some(value@),
        None => None,
    }
}

impl View for BuilderApp {
    type V = Form;

    open spec fn view(&self) -> Form {
        Form {
            selected: self.selected as int,
            runtime: self.runtime,
            name: self.name@,
            workload: self.workload@,
            image: self.image@,
            interface: self.interface@,
            destination: self.destination@,
            protocol: self.protocol,
            port: self.port@,
            duration_ms: self.duration_ms@,
            outage_start_ms: self.outage_start_ms@,
            outage_end_ms: self.outage_end_ms@,
            loss_percent: self.loss_percent@,
            traffic_url: self.traffic_url@,
            status: self.status@,
            discovery: self.discovery@,
            candidate_index: self.candidate_index as int,
            original: experiment_of(self.original),
            template: self.template,
            template_delay_ns: self.template_delay_ns,
        }
    }
}

impl Found {
    /// What a runtime offers to choose from.
    pub open spec fn candidates(self, runtime: Runtime) -> Seq<Seq<char>> {
        match runtime {
            Runtime::Local => self.local_interfaces,
            Runtime::Docker => self.docker,
            Runtime::Lxc => self.lxc,
        }
    }
}

impl Form {
    /// Whether a field and a candidate that exist are selected, and an
    /// experiment that is edited has the three events that the form shows.
    pub open spec fn wf(self) -> bool {
        &&& 0 <= self.selected < FIELD_COUNT
        &&& 0 <= self.candidate_index
        &&& self.candidate_index == 0 || self.candidate_index < self.discovery.candidates(
            self.runtime,
        ).len()
        &&& self.original matches Some(experiment) ==> experiment.profile.events.len() == 3
    }

    /// The text of a field that can be typed in.
    pub open spec fn field(self) -> Option<Seq<char>> {
        if self.selected == 1 {
            Some(self.name)
        } else if self.selected == 2 {
            Some(self.workload)
        } else if self.selected == 3 {
            Some(self.interface)
        } else if self.selected == 4 {
            Some(self.image)
        } else if self.selected == 5 {
            Some(self.destination)
        } else if self.selected == 7 {
            Some(self.port)
        } else if self.selected == 8 {
            Some(self.duration_ms)
        } else if self.selected == 9 {
            Some(self.outage_start_ms)
        } else if self.selected == 10 {
            Some(self.outage_end_ms)
        } else if self.selected == 11 {
            Some(self.loss_percent)
        } else if self.selected == 12 {
            Some(self.traffic_url)
        } else {
            None
        }
    }

    /// The form with another text in the selected field.
    pub open spec fn with_field(self, text: Seq<char>) -> Form {
        if self.selected == 1 {
            Form { name: text, ..self }
        } else if self.selected == 2 {
            Form { workload: text, ..self }
        } else if self.selected == 3 {
            Form { interface: text, ..self }
        } else if self.selected == 4 {
            Form { image: text, ..self }
        } else if self.selected == 5 {
            Form { destination: text, ..self }
        } else if self.selected == 7 {
            Form { port: text, ..self }
        } else if self.selected == 8 {
            Form { duration_ms: text, ..self }
        } else if self.selected == 9 {
            Form { outage_start_ms: text, ..self }
        } else if self.selected == 10 {
            Form { outage_end_ms: text, ..self }
        } else if self.selected == 11 {
            Form { loss_percent: text, ..self }
        } else if self.selected == 12 {
            Form { traffic_url: text, ..self }
        } else {
            self
        }
    }

    /// Whether the selected field takes digits alone.
    pub open spec fn numeric(self) -> bool {
        7 <= self.selected <= 11
    }

    /// After a character was typed.
    pub open spec fn typed(self, c: char) -> Form {
        match self.field() {
            Some(text) => if !self.numeric() || is_digit(c) {
                self.with_field(text.push(c))
            } else {
                self
            },
            None => self,
        }
    }

    /// After the last character was taken back.
    pub open spec fn erased(self) -> Form {
        match self.field() {
            Some(text) => if text.len() > 0 {
                self.with_field(text.drop_last())
            } else {
                self
            },
            None => self,
        }
    }

    /// After a candidate was taken over, if there is one at the place.
    pub open spec fn adopted(self, index: int) -> Form {
        let list = self.discovery.candidates(self.runtime);
        let moved = Form { candidate_index: index, ..self };
        if 0 <= index < list.len() {
            if self.runtime == Runtime::Local {
                Form { interface: list[index], ..moved }
            } else {
                Form { workload: list[index], ..moved }
            }
        } else {
            moved
        }
    }

    /// After the next candidate was taken over; they go round.
    pub open spec fn with_candidate(self, forward: bool) -> Form {
        let count = self.discovery.candidates(self.runtime).len();
        if count == 0 {
            self
        } else if forward {
            self.adopted(
                if self.candidate_index + 1 == count {
                    0
                } else {
                    self.candidate_index + 1
                },
            )
        } else {
            self.adopted(
                if self.candidate_index == 0 {
                    count - 1
                } else {
                    self.candidate_index - 1
                },
            )
        }
    }

    /// After another runtime was chosen: what belongs to the one before is
    /// given up.
    pub open spec fn with_runtime(self, forward: bool) -> Form {
        let runtime = self.runtime.beside(forward);
        let changed = Form {
            runtime,
            image: Seq::empty(),
            interface: if runtime == Runtime::Local {
                if self.discovery.local_interfaces.len() > 0 {
                    self.discovery.local_interfaces[0]
                } else {
                    "eth0"@
                }
            } else {
                "auto"@
            },
            ..self
        };
        changed.adopted(0)
    }

    /// After the next template was taken over.
    pub open spec fn with_template(self) -> Form {
        let template = self.template.following();
        Form {
            template,
            loss_percent: template.loss(),
            template_delay_ns: template.delay_ns(),
            status: "Template: "@ + template.name(),
            ..self
        }
    }

    /// Whether the selected field offers candidates.
    pub open spec fn offers(self) -> bool {
        self.selected == 2 || (self.selected == 3 && self.runtime == Runtime::Local)
    }

    /// After an arrow key to the side.
    pub open spec fn sideways(self, forward: bool) -> Form {
        if self.selected == 0 {
            self.with_runtime(forward)
        } else if self.offers() {
            self.with_candidate(forward)
        } else if self.selected == 6 {
            Form { protocol: protocol_beside(self.protocol, forward), ..self }
        } else {
            self
        }
    }

    /// The form after a key, and what the user wants of it.
    pub open spec fn with_key(self, key: Key, control: bool) -> (Form, Option<BuilderOutcome>) {
        if control {
            (
                self,
                if key == Key::Char('s') {
                    Some(BuilderOutcome::Save)
                } else if key == Key::Char('e') {
                    Some(BuilderOutcome::Execute)
                } else if key == Key::Char('q') {
                    Some(BuilderOutcome::Cancel)
                } else {
                    None
                },
            )
        } else {
            match key {
                Key::Escape => (self, Some(BuilderOutcome::Cancel)),
                Key::Function(2) => (self.with_template(), None),
                Key::Tab | Key::Down => (
                    Form {
                        selected: if self.selected + 1 == FIELD_COUNT {
                            0
                        } else {
                            self.selected + 1
                        },
                        ..self
                    },
                    None,
                ),
                Key::BackTab | Key::Up => (
                    Form {
                        selected: if self.selected == 0 {
                            FIELD_COUNT - 1
                        } else {
                            self.selected - 1
                        },
                        ..self
                    },
                    None,
                ),
                Key::Left => (self.sideways(false), None),
                Key::Right => (self.sideways(true), None),
                Key::Backspace => (self.erased(), None),
                Key::Char(c) => (self.typed(c), None),
                _ => (self, None),
            }
        }
    }
}

impl Default for BuilderApp {
    fn default() -> (r: Self)
        ensures
            r@ == new_form(Found {
                local_interfaces: Seq::empty(),
                docker: Seq::empty(),
                lxc: Seq::empty(),
            }),
    {
        let discovery = Discovery::default();
        assert(texts(discovery.local_interfaces@) =~= Seq::<Seq<char>>::empty());
        assert(texts(discovery.docker@) =~= Seq::<Seq<char>>::empty());
        assert(texts(discovery.lxc@) =~= Seq::<Seq<char>>::empty());
        empty_form(discovery)
    }
}

/// The form for a new experiment.
pub open spec fn new_form(discovery: Found) -> Form {
    Form {
        selected: 0,
        runtime: Runtime::Local,
        name: "New experiment"@,
        workload: Seq::empty(),
        image: Seq::empty(),
        interface: "eth0"@,
        destination: Seq::empty(),
        protocol: NetworkProtocol::Tcp,
        port: "443"@,
        duration_ms: "10000"@,
        outage_start_ms: "2000"@,
        outage_end_ms: "7000"@,
        loss_percent: "100"@,
        traffic_url: Seq::empty(),
        status: "Build an experiment; Ctrl-S saves, Ctrl-E saves and runs"@,
        discovery,
        candidate_index: 0,
        original: None,
        template: Template::BriefOutage,
        template_delay_ns: 0,
    }
}

fn empty_form(discovery: Discovery) -> (r: BuilderApp)
    ensures
        r@ == new_form(discovery@),
{
    proof {
        reveal_strlit("");
    }
    assert(""@ =~= Seq::<char>::empty());
    BuilderApp {
        selected: 0,
        runtime: Runtime::Local,
        name: "New experiment".to_owned(),
        workload: "".to_owned(),
        image: "".to_owned(),
        interface: "eth0".to_owned(),
        destination: "".to_owned(),
        protocol: NetworkProtocol::Tcp,
        port: "443".to_owned(),
        duration_ms: "10000".to_owned(),
        outage_start_ms: "2000".to_owned(),
        outage_end_ms: "7000".to_owned(),
        loss_percent: "100".to_owned(),
        traffic_url: "".to_owned(),
        status: "Build an experiment; Ctrl-S saves, Ctrl-E saves and runs".to_owned(),
        discovery,
        candidate_index: 0,
        original: None,
        template: Template::BriefOutage,
        template_delay_ns: 0,
    }
}

impl BuilderApp {
    /// A form for a new experiment on a machine.
    pub fn with_discovery(discovery: Discovery) -> (r: BuilderApp)
        ensures
            r@ == new_form(discovery@).adopted(0),
            r@.wf(),
    {
        let mut app = empty_form(discovery);
        app.adopt_candidate(0);
        app
    }

    fn candidates(&self) -> (r: &Vec<String>)
        ensures
            texts(r@) == self@.discovery.candidates(self@.runtime),
            r@.len() == self@.discovery.candidates(self@.runtime).len(),
    {
        match self.runtime {
            Runtime::Local => &self.discovery.local_interfaces,
            Runtime::Docker => &self.discovery.docker,
            Runtime::Lxc => &self.discovery.lxc,
        }
    }

    fn adopt_candidate(&mut self, index: usize)
        ensures
            final(self)@ == old(self)@.adopted(index as int),
    {
        self.candidate_index = index;
        let candidate = {
            let list = self.candidates();
            if index < list.len() {
                assert(texts(list@)[index as int] == list@[index as int]@);
                Some(list[index].clone())
            } else {
                None
            }
        };
        if let Some(text) = candidate {
            match self.runtime {
                Runtime::Local => {
                    self.interface = text;
                },
                _ => {
                    self.workload = text;
                },
            }
        }
    }

    fn move_candidate(&mut self, forward: bool)
        requires
            old(self)@.wf(),
        ensures
            final(self)@ == old(self)@.with_candidate(forward),
            final(self)@.wf(),
    {
        let count: usize = self.candidates().len();
        if count == 0 {
            return;
        }
        let index: usize = if forward {
            if self.candidate_index == count - 1 {
                0
            } else {
                self.candidate_index + 1
            }
        } else if self.candidate_index == 0 {
            count - 1
        } else {
            self.candidate_index - 1
        };
        self.adopt_candidate(index);
    }

    fn change_runtime(&mut self, forward: bool)
        requires
            old(self)@.wf(),
        ensures
            final(self)@ == old(self)@.with_runtime(forward),
            final(self)@.wf(),
    {
        proof {
            reveal_strlit("");
        }
        assert(""@ =~= Seq::<char>::empty());
        self.runtime = self.runtime.next(forward);
        self.image = "".to_owned();
        self.interface =
        match self.runtime {
            Runtime::Local => if self.discovery.local_interfaces.len() > 0 {
                assert(texts(self.discovery.local_interfaces@)[0]
                    == self.discovery.local_interfaces@[0]@);
                self.discovery.local_interfaces[0].clone()
            } else {
                "eth0".to_owned()
            },
            _ => "auto".to_owned(),
        };
        self.adopt_candidate(0);
    }

    fn apply_next_template(&mut self)
        requires
            old(self)@.wf(),
        ensures
            final(self)@ == old(self)@.with_template(),
            final(self)@.wf(),
    {
        self.template = self.template.next();
        match self.template {
            Template::BriefOutage => {
                self.loss_percent = "100".to_owned();
                self.template_delay_ns = 0;
            },
            Template::LossyLink => {
                self.loss_percent = "25".to_owned();
                self.template_delay_ns = 0;
            },
            _ => {
                self.loss_percent = "0".to_owned();
                self.template_delay_ns = 100_000_000;
            },
        }
        let mut status = "Template: ".to_owned();
        status.append(self.template.label());
        self.status = status;
    }

    fn selected_text(&self) -> (r: Option<&String>)
        ensures
            match (r, self@.field()) {
                (Some(text), Some(wanted)) => text@ == wanted,
                (None, None) => true,
                _ => false,
            },
    {
        match self.selected {
            1 => Some(&self.name),
            2 => Some(&self.workload),
            3 => Some(&self.interface),
            4 => Some(&self.image),
            5 => Some(&self.destination),
            7 => Some(&self.port),
            8 => Some(&self.duration_ms),
            9 => Some(&self.outage_start_ms),
            10 => Some(&self.outage_end_ms),
            11 => Some(&self.loss_percent),
            12 => Some(&self.traffic_url),
            _ => None,
        }
    }

    fn set_selected(&mut self, text: String)
        requires
            old(self)@.wf(),
        ensures
            final(self)@ == old(self)@.with_field(text@),
            final(self)@.wf(),
    {
        match self.selected {
            1 => {
                self.name = text;
            },
            2 => {
                self.workload = text;
            },
            3 => {
                self.interface = text;
            },
            4 => {
                self.image = text;
            },
            5 => {
                self.destination = text;
            },
            7 => {
                self.port = text;
            },
            8 => {
                self.duration_ms = text;
            },
            9 => {
                self.outage_start_ms = text;
            },
            10 => {
                self.outage_end_ms = text;
            },
            11 => {
                self.loss_percent = text;
            },
            12 => {
                self.traffic_url = text;
            },
            _ => {},
        }
    }

    fn type_char(&mut self, c: char)
        requires
            old(self)@.wf(),
        ensures
            final(self)@ == old(self)@.typed(c),
            final(self)@.wf(),
    {
        let numeric = 7 <= self.selected && self.selected <= 11;
        if numeric && !('0' <= c && c <= '9') {
            return;
        }
        let changed = match self.selected_text() {
            Some(text) => {
                let mut longer = text.clone();
                longer.push(c);
                Some(longer)
            },
            None => None,
        };
        if let Some(text) = changed {
            self.set_selected(text);
        }
    }

    fn erase_char(&mut self)
        requires
            old(self)@.wf(),
        ensures
            final(self)@ == old(self)@.erased(),
            final(self)@.wf(),
    {
        let changed = match self.selected_text() {
            Some(text) => {
                let count: usize = text.as_str().unicode_len();
                if count > 0 {
                    let shorter = text.as_str().substring_char(0, count - 1).to_owned();
                    assert(shorter@ =~= text@.drop_last());
                    Some(shorter)
                } else {
                    None
                }
            },
            None => None,
        };
        if let Some(text) = changed {
            self.set_selected(text);
        }
    }

    fn move_sideways(&mut self, forward: bool)
        requires
            old(self)@.wf(),
        ensures
            final(self)@ == old(self)@.sideways(forward),
            final(self)@.wf(),
    {
        if self.selected == 0 {
            self.change_runtime(forward);
        } else if self.selected == 2 || (self.selected == 3 && self.runtime == Runtime::Local) {
            self.move_candidate(forward);
        } else if self.selected == 6 {
            self.protocol = next_protocol(self.protocol, forward);
        }
    }

    /// Takes a key, and tells what the user wants of the form.
    pub fn handle_key(&mut self, key: Key, control: bool) -> (r: Option<BuilderOutcome>)
        requires
            old(self)@.wf(),
        ensures
            (final(self)@, r) == old(self)@.with_key(key, control),
            final(self)@.wf(),
    {
        if control {
            return match key {
                Key::Char(c) => if c == 's' {
                    Some(BuilderOutcome::Save)
                } else if c == 'e' {
                    Some(BuilderOutcome::Execute)
                } else if c == 'q' {
                    Some(BuilderOutcome::Cancel)
                } else {
                    None
                },
                _ => None,
            };
        }
        match key {
            Key::Escape => return Some(BuilderOutcome::Cancel),
            Key::Function(number) => {
                if number == 2 {
                    self.apply_next_template();
                }
            },
            Key::Tab | Key::Down => {
                self.selected = if self.selected == FIELD_COUNT - 1 {
                    0
                } else {
                    self.selected + 1
                };
            },
            Key::BackTab | Key::Up => {
                self.selected = if self.selected == 0 {
                    FIELD_COUNT - 1
                } else {
                    self.selected - 1
                };
            },
            Key::Left => self.move_sideways(false),
            Key::Right => self.move_sideways(true),
            Key::Backspace => self.erase_char(),
            Key::Char(c) => self.type_char(c),
            _ => {},
        }
        None
    }

    /// Shows a message below the form.
    pub fn set_status(&mut self, status: String)
        ensures
            final(self)@ == (Form { status: status@, ..old(self)@ }),
    {
        self.status = status;
    }
}

/// How an LXC image is written.
pub open spec fn lxc_image(system: System) -> Seq<char> {
    system.distribution + ":"@ + system.release + ":"@ + system.architecture
}

/// Writes an LXC image.
pub fn format_lxc_image(provision: &LxcProvision) -> (r: String)
    ensures
        r@ == lxc_image(provision@),
{
    let mut text = provision.distribution.clone();
    text.append(":");
    text.append(provision.release.as_str());
    text.append(":");
    text.append(provision.architecture.as_str());
    text
}

/// The LXC image that a text writes: three parts with colons between them,
/// none of them blank.
pub open spec fn lxc_parts(text: Seq<char>) -> Option<System> {
    match split_at_first(text, ':') {
        None => None,
        Some((distribution, rest)) => match split_at_first(rest, ':') {
            None => None,
            Some((release, architecture)) => if split_at_first(architecture, ':') is Some || blank(
                distribution,
            ) || blank(release) || blank(architecture) {
                None
            } else {
                Some(System { distribution, release, architecture, remove_on_exit: true })
            },
        },
    }
}

/// Reads an LXC image.
pub fn parse_lxc_provision(value: &str) -> (r: Result<LxcProvision, String>)
    ensures
        match (r, lxc_parts(value@)) {
            (Ok(provision), Some(wanted)) => provision@ == wanted,
            (Err(message), None) => message@
                == "LXC image must be distribution:release:architecture"@,
            _ => false,
        },
{
    if let Some((distribution, rest)) = split_once(value, ':') {
        if let Some((release, architecture)) = split_once(rest, ':') {
            if split_once(architecture, ':').is_none() && !is_blank(distribution) && !is_blank(
                release,
            ) && !is_blank(architecture) {
                return Ok(
                    LxcProvision {
                        distribution: distribution.to_owned(),
                        release: release.to_owned(),
                        architecture: architecture.to_owned(),
                        remove_on_exit: true,
                    },
                );
            }
        }
    }
    Err("LXC image must be distribution:release:architecture".to_owned())
}

/// The port that a text writes; none where it is empty.
pub open spec fn port_in(text: Seq<char>, name: Seq<char>) -> Result<Option<u16>, Seq<char>> {
    if text.len() == 0 {
        Ok(None)
    } else {
        match number_up_to(text, 65535) {
            Some(number) => Ok(Some(number as u16)),
            None => Err(name + " must be between 1 and 65535"@),
        }
    }
}

/// Reads a port.
pub fn parse_optional_u16(value: &str, name: &str) -> (r: Result<Option<u16>, String>)
    ensures
        match (r, port_in(value@, name@)) {
            (Ok(port), Ok(wanted)) => port == wanted,
            (Err(message), Err(wanted)) => message@ == wanted,
            _ => false,
        },
{
    if value.unicode_len() == 0 {
        return Ok(None);
    }
    match parse_number(value, 65535) {
        Some(number) => Ok(Some(number as u16)),
        None => {
            let mut message = name.to_owned();
            message.append(" must be between 1 and 65535");
            Err(message)
        },
    }
}

/// The whole number that a field holds.
pub open spec fn whole_in(text: Seq<char>, name: Seq<char>) -> Result<u64, Seq<char>> {
    match number_up_to(text, u64::MAX as nat) {
        Some(number) => Ok(number as u64),
        None => Err(name + " must be a whole number"@),
    }
}

/// Reads a whole number.
pub fn parse_u64(value: &str, name: &str) -> (r: Result<u64, String>)
    ensures
        match (r, whole_in(value@, name@)) {
            (Ok(number), Ok(wanted)) => number == wanted,
            (Err(message), Err(wanted)) => message@ == wanted,
            _ => false,
        },
{
    match parse_number(value, u64::MAX) {
        Some(number) => Ok(number),
        None => {
            let mut message = name.to_owned();
            message.append(" must be a whole number");
            Err(message)
        },
    }
}

/// The loss, in percent, that a field holds.
pub open spec fn loss_in(text: Seq<char>) -> Result<u32, Seq<char>> {
    match number_up_to(text, u32::MAX as nat) {
        None => Err("loss must be a whole percentage"@),
        Some(loss) => if loss > 100 {
            Err("loss must be between 0 and 100"@)
        } else {
            Ok(loss as u32)
        },
    }
}

fn parse_loss(value: &str) -> (r: Result<u32, String>)
    ensures
        match (r, loss_in(value@)) {
            (Ok(loss), Ok(wanted)) => loss == wanted,
            (Err(message), Err(wanted)) => message@ == wanted,
            _ => false,
        },
{
    match parse_number(value, u32::MAX as u64) {
        None => Err("loss must be a whole percentage".to_owned()),
        Some(loss) => if loss > 100 {
            Err("loss must be between 0 and 100".to_owned())
        } else {
            Ok(loss as u32)
        },
    }
}

impl Form {
    /// The process of a local source. One that is edited keeps what the form
    /// does not show.
    pub open spec fn process(self) -> Option<Process> {
        if blank(self.image) {
            None
        } else {
            Some(
                match self.original {
                    Some(Experiment {
                        source: Workload::Local { process: Some(process), .. },
                        ..
                    }) => Process { program: self.image, ..process },
                    _ => Process {
                        program: self.image,
                        args: Seq::empty(),
                        environment: Seq::empty(),
                        working_directory: None,
                    },
                },
            )
        }
    }

    /// How a Docker container is created.
    pub open spec fn container(self) -> Option<Container> {
        if blank(self.image) {
            None
        } else {
            Some(
                match self.original {
                    Some(Experiment {
                        source: Workload::Docker { provision: Some(provision), .. },
                        ..
                    }) => Container { image: self.image, ..provision },
                    _ => Container {
                        image: self.image,
                        command: Seq::empty(),
                        environment: Seq::empty(),
                        remove_on_exit: true,
                    },
                },
            )
        }
    }

    /// How an LXC container is created. One that was not edited stays as it is.
    pub open spec fn system(self) -> Result<Option<System>, Seq<char>> {
        if blank(self.image) {
            Ok(None)
        } else {
            let kept = match self.original {
                Some(Experiment { source: Workload::Lxc { provision, .. }, .. }) => provision,
                _ => None,
            };
            if kept is Some && lxc_image(kept->0) == self.image {
                Ok(kept)
            } else {
                match lxc_parts(self.image) {
                    Some(system) => Ok(Some(system)),
                    None => Err("LXC image must be distribution:release:architecture"@),
                }
            }
        }
    }

    /// Whether a container may be started: as in the experiment that is edited,
    /// else for the session.
    pub open spec fn lifecycle(self) -> WorkloadLifecycle {
        match self.original {
            Some(Experiment { source: Workload::Docker { lifecycle, .. }, .. }) => if self.runtime
                == Runtime::Docker {
                lifecycle
            } else {
                WorkloadLifecycle::Session
            },
            Some(Experiment { source: Workload::Lxc { lifecycle, .. }, .. }) => if self.runtime
                == Runtime::Lxc {
                lifecycle
            } else {
                WorkloadLifecycle::Session
            },
            _ => WorkloadLifecycle::Session,
        }
    }

    /// The source that the form describes.
    pub open spec fn source(self) -> Result<Workload, Seq<char>> {
        match self.runtime {
            Runtime::Local => Ok(
                Workload::Local { interface: self.interface, process: self.process() },
            ),
            Runtime::Docker => Ok(
                Workload::Docker {
                    container: self.workload,
                    interface: self.interface,
                    lifecycle: self.lifecycle(),
                    provision: self.container(),
                },
            ),
            Runtime::Lxc => match self.system() {
                Err(message) => Err(message),
                Ok(provision) => Ok(
                    Workload::Lxc {
                        container: self.workload,
                        interface: self.interface,
                        lifecycle: self.lifecycle(),
                        provision,
                    },
                ),
            },
        }
    }

    /// The faults that the form describes. Those of an experiment that is
    /// edited keep what the form does not show.
    pub open spec fn profile(self, duration_ms: u64, start: u64, end: u64, loss: u32) -> Profile {
        let rate = (loss * 100) as u32;
        match self.original {
            Some(experiment) => {
                let events = experiment.profile.events;
                Profile {
                    duration_ms,
                    events: seq![
                        Incident { at_ms: 0, ..events[0] },
                        Incident {
                            at_ms: start,
                            fault: FaultSpec { drop_permyriad: rate, ..events[1].fault },
                            ..events[1]
                        },
                        Incident { at_ms: end, ..events[2] },
                    ],
                }
            },
            None => Profile {
                duration_ms,
                events: seq![
                    Incident { at_ms: 0, fault: FaultSpec::harmless(), faults: Seq::empty() },
                    Incident {
                        at_ms: start,
                        fault: FaultSpec {
                            drop_permyriad: rate,
                            delay_ns: self.template_delay_ns,
                            seed: 1,
                            ..FaultSpec::harmless()
                        },
                        faults: Seq::empty(),
                    },
                    Incident { at_ms: end, fault: FaultSpec::harmless(), faults: Seq::empty() },
                ],
            },
        }
    }

    /// The traffic that the form describes. Without an address, that of the
    /// experiment that is edited stays.
    pub open spec fn traffic(self) -> Option<Traffic> {
        let kept = match self.original {
            Some(experiment) => experiment.traffic,
            None => None,
        };
        if blank(self.traffic_url) {
            kept
        } else {
            match kept {
                Some(Traffic::Http { interval_ms, timeout_ms, .. }) => Some(
                    Traffic::Http { url: self.traffic_url, interval_ms, timeout_ms },
                ),
                _ => Some(
                    Traffic::Http { url: self.traffic_url, interval_ms: 1_000, timeout_ms: 2_000 },
                ),
            }
        }
    }

    /// The destination that the form describes. An experiment with named
    /// relations has none, and gets none unless one is typed.
    pub open spec fn target(self, port: Option<u16>) -> Option<Destination> {
        let resolution = match self.original {
            Some(Experiment { destination: Some(destination), .. }) => destination.resolution,
            _ => ResolutionStrategy::Snapshot,
        };
        if self.destination.len() == 0 && (self.original matches Some(experiment)
            && experiment.destination is None) {
            None
        } else {
            Some(
                Destination {
                    selector: self.destination,
                    protocol: self.protocol,
                    port,
                    resolution,
                },
            )
        }
    }

    /// The experiment of a form whose numbers were read.
    pub open spec fn experiment(
        self,
        source: Workload,
        port: Option<u16>,
        profile: Profile,
    ) -> Experiment {
        Experiment {
            version: match self.original {
                Some(experiment) => experiment.version,
                None => EXPERIMENT_VERSION,
            },
            name: self.name,
            source,
            destination: self.target(port),
            selectors: match self.original {
                Some(experiment) => experiment.selectors,
                None => Seq::empty(),
            },
            profile,
            traffic: self.traffic(),
            extensions: match self.original {
                Some(experiment) => experiment.extensions,
                None => Seq::empty(),
            },
        }
    }

    /// The numbers of a form, or the first that cannot be read: port, duration,
    /// start and end of the faults, loss.
    pub open spec fn numbers(self) -> Result<(Option<u16>, u64, u64, u64, u32), Seq<char>> {
        match port_in(self.port, "port"@) {
            Err(message) => Err(message),
            Ok(port) => match whole_in(self.duration_ms, "duration"@) {
                Err(message) => Err(message),
                Ok(duration_ms) => match whole_in(self.outage_start_ms, "outage start"@) {
                    Err(message) => Err(message),
                    Ok(start) => match whole_in(self.outage_end_ms, "outage end"@) {
                        Err(message) => Err(message),
                        Ok(end) => match loss_in(self.loss_percent) {
                            Err(message) => Err(message),
                            Ok(loss) => if start >= end || end > duration_ms {
                                Err("timeline must satisfy start < end <= duration"@)
                            } else {
                                Ok((port, duration_ms, start, end, loss))
                            },
                        },
                    },
                },
            },
        }
    }

    /// The experiment that a form describes, or what is wrong with it.
    pub open spec fn built(self) -> Result<Experiment, Seq<char>> {
        match self.numbers() {
            Err(message) => Err(message),
            Ok((port, duration_ms, start, end, loss)) => match self.source() {
                Err(message) => Err(message),
                Ok(source) => {
                    let experiment = self.experiment(
                        source,
                        port,
                        self.profile(duration_ms, start, end, loss),
                    );
                    match experiment.error() {
                        Some(message) => Err(message),
                        None => Ok(experiment),
                    }
                },
            },
        }
    }
}

impl BuilderApp {
    fn read_numbers(&self) -> (r: Result<(Option<u16>, u64, u64, u64, u32), String>)
        ensures
            match (r, self@.numbers()) {
                (Ok(numbers), Ok(wanted)) => numbers == wanted,
                (Err(message), Err(wanted)) => message@ == wanted,
                _ => false,
            },
    {
        let port = match parse_optional_u16(self.port.as_str(), "port") {
            Ok(port) => port,
            Err(message) => return Err(message),
        };
        let duration_ms: u64 = match parse_u64(self.duration_ms.as_str(), "duration") {
            Ok(number) => number,
            Err(message) => return Err(message),
        };
        let start: u64 = match parse_u64(self.outage_start_ms.as_str(), "outage start") {
            Ok(number) => number,
            Err(message) => return Err(message),
        };
        let end: u64 = match parse_u64(self.outage_end_ms.as_str(), "outage end") {
            Ok(number) => number,
            Err(message) => return Err(message),
        };
        let loss: u32 = match parse_loss(self.loss_percent.as_str()) {
            Ok(loss) => loss,
            Err(message) => return Err(message),
        };
        if start >= end || end > duration_ms {
            return Err("timeline must satisfy start < end <= duration".to_owned());
        }
        Ok((port, duration_ms, start, end, loss))
    }

    fn build_local_source(&self) -> (r: WorkloadSpec)
        ensures
            r@ == (Workload::Local { interface: self@.interface, process: self@.process() }),
    {
        let process = if is_blank(self.image.as_str()) {
            None
        } else {
            let mut process = match &self.original {
                Some(ExperimentSpec {
                    source: WorkloadSpec::Local { process: Some(process), .. },
                    ..
                }) => process.copy(),
                _ => {
                    let args: Vec<String> = Vec::new();
                    let environment: Vec<(String, String)> = Vec::new();
                    assert(texts(args@) =~= Seq::<Seq<char>>::empty());
                    assert(pairs(environment@) =~= Seq::<(Seq<char>, Seq<char>)>::empty());
                    LocalProcess {
                        program: self.image.clone(),
                        args,
                        environment,
                        working_directory: None,
                    }
                },
            };
            process.program = self.image.clone();
            Some(process)
        };
        WorkloadSpec::Local { interface: self.interface.clone(), process }
    }

    fn build_docker_source(&self) -> (r: WorkloadSpec)
        requires
            self.runtime == Runtime::Docker,
        ensures
            r@ == (Workload::Docker {
                container: self@.workload,
                interface: self@.interface,
                lifecycle: self@.lifecycle(),
                provision: self@.container(),
            }),
    {
        let lifecycle = match &self.original {
            Some(ExperimentSpec { source: WorkloadSpec::Docker { lifecycle, .. }, .. }) => *lifecycle,
            _ => WorkloadLifecycle::Session,
        };
        let provision = if is_blank(self.image.as_str()) {
            None
        } else {
            let mut provision = match &self.original {
                Some(ExperimentSpec {
                    source: WorkloadSpec::Docker { provision: Some(provision), .. },
                    ..
                }) => provision.copy(),
                _ => {
                    let command: Vec<String> = Vec::new();
                    let environment: Vec<(String, String)> = Vec::new();
                    assert(texts(command@) =~= Seq::<Seq<char>>::empty());
                    assert(pairs(environment@) =~= Seq::<(Seq<char>, Seq<char>)>::empty());
                    DockerProvision {
                        image: self.image.clone(),
                        command,
                        environment,
                        remove_on_exit: true,
                    }
                },
            };
            provision.image = self.image.clone();
            Some(provision)
        };
        WorkloadSpec::Docker {
            container: self.workload.clone(),
            interface: self.interface.clone(),
            lifecycle,
            provision,
        }
    }

    fn build_system(&self) -> (r: Result<Option<LxcProvision>, String>)
        ensures
            match (r, self@.system()) {
                (Ok(provision), Ok(wanted)) => system_of(provision) == wanted,
                (Err(message), Err(wanted)) => message@ == wanted,
                _ => false,
            },
    {
        if is_blank(self.image.as_str()) {
            return Ok(None);
        }
        if let Some(ExperimentSpec {
            source: WorkloadSpec::Lxc { provision: Some(provision), .. },
            ..
        }) = &self.original {
            if same_text(format_lxc_image(provision).as_str(), self.image.as_str()) {
                return Ok(Some(provision.copy()));
            }
        }
        match parse_lxc_provision(self.image.as_str()) {
            Ok(provision) => Ok(Some(provision)),
            Err(message) => Err(message),
        }
    }

    fn build_lxc_source(&self) -> (r: Result<WorkloadSpec, String>)
        requires
            self.runtime == Runtime::Lxc,
        ensures
            match (r, self@.source()) {
                (Ok(source), Ok(wanted)) => source@ == wanted,
                (Err(message), Err(wanted)) => message@ == wanted,
                _ => false,
            },
    {
        let lifecycle = match &self.original {
            Some(ExperimentSpec { source: WorkloadSpec::Lxc { lifecycle, .. }, .. }) => *lifecycle,
            _ => WorkloadLifecycle::Session,
        };
        match self.build_system() {
            Ok(provision) => Ok(
                WorkloadSpec::Lxc {
                    container: self.workload.clone(),
                    interface: self.interface.clone(),
                    lifecycle,
                    provision,
                },
            ),
            Err(message) => Err(message),
        }
    }

    fn build_source(&self) -> (r: Result<WorkloadSpec, String>)
        ensures
            match (r, self@.source()) {
                (Ok(source), Ok(wanted)) => source@ == wanted,
                (Err(message), Err(wanted)) => message@ == wanted,
                _ => false,
            },
    {
        match self.runtime {
            Runtime::Local => Ok(self.build_local_source()),
            Runtime::Docker => Ok(self.build_docker_source()),
            Runtime::Lxc => self.build_lxc_source(),
        }
    }

    fn build_profile(&self, duration_ms: u64, start: u64, end: u64, loss: u32) -> (r: FaultProfile)
        requires
            self@.wf(),
            loss <= 100,
        ensures
            r@ == self@.profile(duration_ms, start, end, loss),
    {
        let mut events: Vec<FaultEvent> = Vec::new();
        if let Some(original) = &self.original {
            let ghost before = incidents_of(original.profile.events@);
            assert(before.len() == original.profile.events@.len());
            assert(before[0] == original.profile.events@[0]@);
            assert(before[1] == original.profile.events@[1]@);
            assert(before[2] == original.profile.events@[2]@);
            let mut pass = original.profile.events[0].copy();
            pass.at_ms = 0;
            let mut outage = original.profile.events[1].copy();
            outage.at_ms = start;
            outage.fault.drop_permyriad = loss * 100;
            let mut recovery = original.profile.events[2].copy();
            recovery.at_ms = end;
            events.push(pass);
            events.push(outage);
            events.push(recovery);
        } else {
            let none: Vec<(String, FaultSpec)> = Vec::new();
            assert(named_faults(none@) =~= Seq::<(Seq<char>, FaultSpec)>::empty());
            let mut outage = FaultSpec::default();
            outage.drop_permyriad = loss * 100;
            outage.delay_ns = self.template_delay_ns;
            outage.seed = 1;
            let first: Vec<(String, FaultSpec)> = Vec::new();
            let last: Vec<(String, FaultSpec)> = Vec::new();
            assert(named_faults(first@) =~= Seq::<(Seq<char>, FaultSpec)>::empty());
            assert(named_faults(last@) =~= Seq::<(Seq<char>, FaultSpec)>::empty());
            events.push(FaultEvent { at_ms: 0, fault: FaultSpec::default(), faults: first });
            events.push(FaultEvent { at_ms: start, fault: outage, faults: none });
            events.push(FaultEvent { at_ms: end, fault: FaultSpec::default(), faults: last });
        }
        assert(incidents_of(events@) =~= self@.profile(duration_ms, start, end, loss).events);
        FaultProfile { duration_ms, events }
    }

    fn build_traffic(&self) -> (r: Option<TrafficSpec>)
        ensures
            traffic_of(r) == self@.traffic(),
    {
        if is_blank(self.traffic_url.as_str()) {
            return match &self.original {
                Some(original) => copy_traffic(&original.traffic),
                None => None,
            };
        }
        if let Some(ExperimentSpec {
            traffic: Some(TrafficSpec::Http { interval_ms, timeout_ms, .. }),
            ..
        }) = &self.original {
            return Some(
                TrafficSpec::Http {
                    url: self.traffic_url.clone(),
                    interval_ms: *interval_ms,
                    timeout_ms: *timeout_ms,
                },
            );
        }
        Some(
            TrafficSpec::Http {
                url: self.traffic_url.clone(),
                interval_ms: 1_000,
                timeout_ms: 2_000,
            },
        )
    }

    fn build_destination(&self, port: Option<u16>) -> (r: Option<DestinationSpec>)
        ensures
            destination_value(r) == self@.target(port),
    {
        let mut resolution = ResolutionStrategy::Snapshot;
        if let Some(original) = &self.original {
            match &original.destination {
                Some(destination) => {
                    resolution = destination.resolution;
                },
                None => {
                    if self.destination.as_str().unicode_len() == 0 {
                        return None;
                    }
                },
            }
        }
        Some(
            DestinationSpec {
                selector: self.destination.clone(),
                protocol: self.protocol,
                port,
                resolution,
            },
        )
    }

    /// The experiment that the form describes.
    pub fn build(&self) -> (r: Result<ExperimentSpec, String>)
        requires
            self@.wf(),
        ensures
            match (r, self@.built()) {
                (Ok(spec), Ok(wanted)) => spec@ == wanted,
                (Err(message), Err(wanted)) => message@ == wanted,
                _ => false,
            },
    {
        let (port, duration_ms, start, end, loss) = match self.read_numbers() {
            Ok(numbers) => numbers,
            Err(message) => return Err(message),
        };
        let source = match self.build_source() {
            Ok(source) => source,
            Err(message) => return Err(message),
        };
        let profile = self.build_profile(duration_ms, start, end, loss);
        let (version, selectors, extensions) = match &self.original {
            Some(original) => (
                original.version,
                copy_selectors(&original.selectors),
                copy_pairs(&original.extensions),
            ),
            None => {
                let selectors: Vec<CommunicationSelector> = Vec::new();
                let extensions: Vec<(String, String)> = Vec::new();
                assert(authored_of(selectors@) =~= Seq::<Authored>::empty());
                assert(pairs(extensions@) =~= Seq::<(Seq<char>, Seq<char>)>::empty());
                (EXPERIMENT_VERSION, selectors, extensions)
            },
        };
        let spec = ExperimentSpec {
            version,
            name: self.name.clone(),
            source,
            destination: self.build_destination(port),
            selectors,
            profile,
            traffic: self.build_traffic(),
            extensions,
        };
        assert(spec@ == self@.experiment(
            source@,
            port,
            self@.profile(duration_ms, start, end, loss),
        ));
        match spec.validate() {
            Ok(_) => Ok(spec),
            Err(message) => Err(message),
        }
    }
}

} // verus!
