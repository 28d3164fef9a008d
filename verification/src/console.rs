//! The interactive screen: what it shows, and what keys and messages do to it.

use vstd::prelude::*;
use vstd::string::*;
use crate::json::{
    json_elements, json_member, json_string, json_text, json_unsigned, json_with, read_elements,
    read_member, read_string, read_unsigned, read_value, write_unsigned,
};
use crate::protocol::{
    changes_of, rules_of, Change, Request, Rule, RuleSpec, Score, Timeline, TimelineEvent,
    TimelineKind, TIMELINE_VERSION,
};
use crate::sameness::same_rules;
use crate::text::{decimal, digits, same_text, texts};
use crate::traffic::TrafficStatus;

verus! {

/// How the value of a parameter is shown.
#[derive(Clone, Copy, Debug, PartialEq, Eq, Structural)]
pub enum Unit {
    Percent,
    Duration,
    Bitrate,
}

/// A parameter of a rule that can be turned.
#[derive(Clone, Copy, Debug)]
pub struct Parameter {
    pub label: &'static str,
    pub key: &'static str,
    pub maximum: u64,
    pub step: u64,
    pub unit: Unit,
}

pub const PARAMETER_COUNT: usize = 6;

/// How many messages the log holds.
pub const LOG_LENGTH: usize = 8;

/// The key of a parameter in a rule.
pub open spec fn key_of(index: int) -> Seq<char> {
    if index == 0 {
        "drop_permyriad"@
    } else if index == 1 {
        "duplicate_permyriad"@
    } else if index == 2 {
        "reorder_permyriad"@
    } else if index == 3 {
        "delay_ns"@
    } else if index == 4 {
        "jitter_ns"@
    } else {
        "bandwidth_bps"@
    }
}

/// How far a parameter can be turned up.
pub open spec fn maximum_of(index: int) -> u64 {
    if index <= 2 {
        10_000
    } else if index == 4 {
        500_000_000
    } else {
        1_000_000_000
    }
}

/// How much one turn changes a parameter.
pub open spec fn step_of(index: int) -> u64 {
    if index <= 2 {
        25
    } else {
        1_000_000
    }
}

/// The parameters that can be turned, in the order in which they are shown.
pub fn parameter(index: usize) -> (r: Parameter)
    requires
        index < PARAMETER_COUNT,
    ensures
        r.key@ == key_of(index as int),
        r.maximum == maximum_of(index as int),
        r.step == step_of(index as int),
        r.unit == (if index <= 2 {
            Unit::Percent
        } else if index <= 4 {
            Unit::Duration
        } else {
            Unit::Bitrate
        }),
        r.label@ == (if index == 0 {
            "LOSS"@
        } else if index == 1 {
            "DUPLICATE"@
        } else if index == 2 {
            "REORDER"@
        } else if index == 3 {
            "DELAY"@
        } else if index == 4 {
            "JITTER"@
        } else {
            "BANDWIDTH"@
        }),
{
    if index == 0 {
        Parameter {
            label: "LOSS",
            key: "drop_permyriad",
            maximum: 10_000,
            step: 25,
            unit: Unit::Percent,
        }
    } else if index == 1 {
        Parameter {
            label: "DUPLICATE",
            key: "duplicate_permyriad",
            maximum: 10_000,
            step: 25,
            unit: Unit::Percent,
        }
    } else if index == 2 {
        Parameter {
            label: "REORDER",
            key: "reorder_permyriad",
            maximum: 10_000,
            step: 25,
            unit: Unit::Percent,
        }
    } else if index == 3 {
        Parameter {
            label: "DELAY",
            key: "delay_ns",
            maximum: 1_000_000_000,
            step: 1_000_000,
            unit: Unit::Duration,
        }
    } else if index == 4 {
        Parameter {
            label: "JITTER",
            key: "jitter_ns",
            maximum: 500_000_000,
            step: 1_000_000,
            unit: Unit::Duration,
        }
    } else {
        Parameter {
            label: "BANDWIDTH",
            key: "bandwidth_bps",
            maximum: 1_000_000_000,
            step: 1_000_000,
            unit: Unit::Bitrate,
        }
    }
}

/// A recording of the rules that were in force.
#[derive(Clone, Debug, PartialEq, Eq)]
pub struct Recording {
    pub path: String,
    pub timeline: Timeline,
}

/// The events of a recording after the rules in force were told. Rules that
/// are already the last ones add nothing. The first event is at zero.
pub open spec fn recorded(events: Seq<Change>, rules: Seq<Rule>, elapsed_ms: u64) -> Seq<Change> {
    if events.len() > 0 && events.last().rules == rules {
        events
    } else {
        events.push(
            Change {
                at_ms: if events.len() == 0 {
                    0
                } else {
                    elapsed_ms
                },
                rules,
            },
        )
    }
}

impl Recording {
    /// Begins a recording.
    pub fn new(path: String, target: String) -> (r: Recording)
        ensures
            r.path == path,
            r.timeline@ == (Score {
                version: TIMELINE_VERSION,
                kind: TimelineKind::Replay,
                name: None,
                target: Some(target@),
                duration_ms: 0,
                events: Seq::empty(),
            }),
    {
        let events: Vec<TimelineEvent> = Vec::new();
        assert(changes_of(events@) =~= Seq::<Change>::empty());
        Recording {
            path,
            timeline: Timeline {
                version: TIMELINE_VERSION,
                kind: TimelineKind::Replay,
                name: None,
                target: Some(target),
                duration_ms: 0,
                events,
            },
        }
    }

    /// Notes the rules in force.
    pub fn record(&mut self, rules: Vec<RuleSpec>, elapsed_ms: u64)
        ensures
            final(self).path == old(self).path,
            final(self).timeline@ == (Score {
                events: recorded(old(self).timeline@.events, rules_of(rules@), elapsed_ms),
                ..old(self).timeline@
            }),
    {
        let count: usize = self.timeline.events.len();
        let ghost before = self.timeline@.events;
        if count > 0 {
            assert(before.last() == self.timeline.events@.last()@);
            if same_rules(&self.timeline.events[count - 1].rules, &rules) {
                return;
            }
        }
        let event = TimelineEvent {
            at_ms: if count == 0 {
                0
            } else {
                elapsed_ms
            },
            rules,
        };
        self.timeline.events.push(event);
        assert(changes_of(self.timeline.events@) =~= before.push(event@));
    }

    /// Ends a recording: the timeline up to now, if it can be played again.
    pub fn finish(self, elapsed_ms: u64) -> (r: Result<Recording, String>)
        ensures
            match ((Score { duration_ms: elapsed_ms, ..self.timeline@ }).error(), r) {
                (None, Ok(recording)) => recording.path == self.path && recording.timeline@ == (
                Score { duration_ms: elapsed_ms, ..self.timeline@ }),
                (Some(wanted), Err(message)) => message@ == wanted,
                _ => false,
            },
    {
        let timeline = Timeline {
            version: self.timeline.version,
            kind: self.timeline.kind,
            name: self.timeline.name,
            target: self.timeline.target,
            duration_ms: elapsed_ms,
            events: self.timeline.events,
        };
        match timeline.validate() {
            Ok(_) => Ok(Recording { path: self.path, timeline }),
            Err(message) => Err(message),
        }
    }
}

/// What the screen shows and does.
#[derive(Clone, Debug, PartialEq, Eq)]
pub struct App {
    /// The rules in force, encoded.
    pub rules: Vec<String>,
    /// The last report of a rule, encoded.
    pub stats: String,
    /// The last report of packets that met no rule, encoded.
    pub diagnostics: String,
    pub selected_rule: usize,
    pub selected_parameter: usize,
    pub next_id: u64,
    pub status: String,
    /// The log, the newest message first.
    pub events: Vec<String>,
    pub recording: Option<Recording>,
    pub phase: String,
    pub traffic: TrafficStatus,
}

/// A recording as a value.
pub struct Tape {
    pub path: Seq<char>,
    pub timeline: Score,
}

pub open spec fn tape_of(recording: Option<Recording>) -> Option<Tape> {
    match recording {
        Some(value) => Some(Tape { path: value.path@, timeline: value.timeline@ }),
        None => None,
    }
}

/// What the screen shows and does, as a value.
pub struct Screen {
    pub rules: Seq<Seq<char>>,
    pub stats: Seq<char>,
    pub diagnostics: Seq<char>,
    pub selected_rule: int,
    pub selected_parameter: int,
    pub next_id: int,
    pub status: Seq<char>,
    pub events: Seq<Seq<char>>,
    pub tape: Option<Tape>,
    pub phase: Seq<char>,
    pub traffic: TrafficStatus,
}

impl View for App {
    type V = Screen;

    open spec fn view(&self) -> Screen {
        Screen {
            rules: texts(self.rules@),
            stats: self.stats@,
            diagnostics: self.diagnostics@,
            selected_rule: self.selected_rule as int,
            selected_parameter: self.selected_parameter as int,
            next_id: self.next_id as int,
            status: self.status@,
            events: texts(self.events@),
            tape: tape_of(self.recording),
            phase: self.phase@,
            traffic: self.traffic,
        }
    }
}

/// A log with a message in front; the oldest messages make room.
pub open spec fn logged(events: Seq<Seq<char>>, event: Seq<char>) -> Seq<Seq<char>> {
    let all = seq![event] + events;
    if all.len() > LOG_LENGTH {
        all.take(LOG_LENGTH as int)
    } else {
        all
    }
}

/// A recording after the rules in force were told. Without a recording, or
/// where the rules could not be read, nothing is recorded.
pub open spec fn taped(tape: Option<Tape>, rules: Option<Seq<Rule>>, elapsed_ms: u64) -> Option<
    Tape,
> {
    match (tape, rules) {
        (Some(value), Some(list)) => Some(
            Tape {
                timeline: Score {
                    events: recorded(value.timeline.events, list, elapsed_ms),
                    ..value.timeline
                },
                ..value
            },
        ),
        _ => tape,
    }
}

impl Screen {
    /// Whether a rule and a parameter that exist are selected.
    pub open spec fn wf(self) -> bool {
        &&& 0 <= self.selected_parameter < PARAMETER_COUNT
        &&& self.selected_rule < self.rules.len() || self.selected_rule == 0
        &&& self.events.len() <= LOG_LENGTH
    }

    /// The screen before anything came in.
    pub open spec fn opened() -> Screen {
        Screen {
            rules: Seq::empty(),
            stats: "null"@,
            diagnostics: "null"@,
            selected_rule: 0,
            selected_parameter: 0,
            next_id: 1,
            status: "connecting"@,
            events: Seq::empty(),
            tape: None,
            phase: "Connect"@,
            traffic: TrafficStatus { attempts: 0, succeeded: 0, failed: 0, last_error: None },
        }
    }

    pub open spec fn with_status(self, status: Seq<char>) -> Screen {
        Screen { status, events: logged(self.events, status), ..self }
    }

    pub open spec fn with_event(self, event: Seq<char>) -> Screen {
        Screen { events: logged(self.events, event), ..self }
    }

    /// After the rules in force were told.
    pub open spec fn with_rules(
        self,
        rules: Seq<Seq<char>>,
        parsed: Option<Seq<Rule>>,
        elapsed_ms: u64,
    ) -> Screen {
        Screen {
            rules,
            selected_rule: if self.selected_rule < rules.len() {
                self.selected_rule
            } else if rules.len() == 0 {
                0
            } else {
                rules.len() - 1
            },
            tape: taped(self.tape, parsed, elapsed_ms),
            ..self
        }
    }

    /// After a message that tells the rules in force.
    pub open spec fn with_state(
        self,
        line: Seq<char>,
        kind: Seq<char>,
        parsed: Option<Seq<Rule>>,
        elapsed_ms: u64,
    ) -> Screen {
        let shown = match json_elements(line, "/state/rules"@) {
            Some(rules) => self.with_rules(rules, parsed, elapsed_ms),
            None => self,
        };
        shown.with_status(
            kind + " #"@ + match json_member(line, "id"@) {
                Some(id) => id,
                None => "null"@,
            },
        )
    }

    /// After a message. `parsed` holds the rules that it tells, if they could
    /// be read.
    pub open spec fn with_message(
        self,
        line: Seq<char>,
        parsed: Option<Seq<Rule>>,
        elapsed_ms: u64,
    ) -> Screen {
        match json_text(line) {
            Err(_) => self.with_event("invalid event: "@ + line),
            Ok(text) => match json_string(line, "type"@) {
                None => self.with_event("event: "@ + line),
                Some(kind) => if kind == "state"@ || kind == "applied"@ {
                    self.with_state(line, kind, parsed, elapsed_ms)
                } else if kind == "stats"@ {
                    Screen { stats: text, ..self }
                } else if kind == "diagnostics"@ {
                    Screen { diagnostics: text, ..self }
                } else if kind == "error"@ {
                    self.with_status(
                        "ERROR: "@ + match json_string(line, "message"@) {
                            Some(message) => message,
                            None => "unknown"@,
                        },
                    )
                } else {
                    self.with_event(kind + ": "@ + line)
                },
            },
        }
    }

    /// The selected rule, if there is one.
    pub open spec fn rule(self) -> Option<Seq<char>> {
        if 0 <= self.selected_rule < self.rules.len() {
            Some(self.rules[self.selected_rule])
        } else {
            None
        }
    }

    /// The value of the selected parameter.
    pub open spec fn current(self) -> u64 {
        match self.rule() {
            Some(rule) => match json_unsigned(rule, key_of(self.selected_parameter)) {
                Some(value) => value,
                None => 0,
            },
            None => 0,
        }
    }

    /// The selected parameter after a turn. Turning stops at zero and at the
    /// maximum.
    pub open spec fn turned(self, up: bool, coarse: bool) -> u64 {
        let step = step_of(self.selected_parameter) * if coarse {
            10
        } else {
            1int
        };
        let maximum = maximum_of(self.selected_parameter);
        if up {
            if self.current() + step > maximum {
                maximum
            } else {
                (self.current() + step) as u64
            }
        } else if self.current() < step {
            0
        } else {
            (self.current() - step) as u64
        }
    }

    /// The selected rule with the selected parameter at a value.
    pub open spec fn rule_with(self, value: u64) -> Option<Seq<char>> {
        match self.rule() {
            Some(rule) => json_with(rule, key_of(self.selected_parameter), value),
            None => None,
        }
    }

    /// After the selected parameter was set, if the selected rule can be
    /// changed.
    pub open spec fn set_to(self, value: u64) -> Screen {
        match self.rule_with(value) {
            Some(rule) => Screen { rules: self.rules.update(self.selected_rule, rule), ..self },
            None => self,
        }
    }

    /// Whether a turn changes the selected rule.
    pub open spec fn turns(self, up: bool, coarse: bool) -> bool {
        self.rule_with(self.turned(up, coarse)) is Some && self.turned(up, coarse)
            != self.current()
    }

    pub open spec fn after_turn(self, up: bool, coarse: bool) -> Screen {
        if self.turns(up, coarse) {
            self.set_to(self.turned(up, coarse))
        } else {
            self
        }
    }
}

/// A key that was pressed.
#[derive(Clone, Copy, Debug, PartialEq, Eq, Structural)]
pub enum Key {
    Char(char),
    Function(u8),
    Up,
    Down,
    Left,
    Right,
    PageUp,
    PageDown,
    Tab,
    BackTab,
    Backspace,
    Escape,
    Other,
}

/// What a key asks for.
#[derive(Clone, Copy, Debug, PartialEq, Eq, Structural)]
pub enum KeyEffect {
    Nothing,
    /// Leave the screen.
    Quit,
    /// Ask for the rules in force.
    GetState,
    /// Put the rules of the screen in force.
    ReplaceRules,
    /// End the session.
    Stop,
}

impl Screen {
    /// The screen after a key, and what the key asks for.
    pub open spec fn with_key(self, key: Key, shift: bool) -> (Screen, KeyEffect) {
        match key {
            Key::Escape => (self, KeyEffect::Quit),
            Key::Up => self.with_parameter(-1),
            Key::Down => self.with_parameter(1),
            Key::PageUp => self.with_selection(-1),
            Key::PageDown => self.with_selection(1),
            Key::Left => self.with_turn(false, shift),
            Key::Right => self.with_turn(true, shift),
            Key::Char(c) => if c == 'q' {
                (self, KeyEffect::Quit)
            } else if c == 'x' {
                (self, KeyEffect::Stop)
            } else if c == 'r' {
                (self, KeyEffect::GetState)
            } else if c == 'k' {
                self.with_parameter(-1)
            } else if c == 'j' {
                self.with_parameter(1)
            } else if c == '[' {
                self.with_selection(-1)
            } else if c == ']' {
                self.with_selection(1)
            } else if c == 'h' {
                self.with_turn(false, shift)
            } else if c == 'l' {
                self.with_turn(true, shift)
            } else if c == '0' {
                (
                    self.set_to(0),
                    if self.rule_with(0) is Some {
                        KeyEffect::ReplaceRules
                    } else {
                        KeyEffect::Nothing
                    },
                )
            } else {
                (self, KeyEffect::Nothing)
            },
            _ => (self, KeyEffect::Nothing),
        }
    }

    pub open spec fn with_parameter(self, by: int) -> (Screen, KeyEffect) {
        let moved = self.selected_parameter + by;
        (
            Screen {
                selected_parameter: if moved < 0 {
                    0
                } else if moved >= PARAMETER_COUNT {
                    PARAMETER_COUNT - 1
                } else {
                    moved
                },
                ..self
            },
            KeyEffect::Nothing,
        )
    }

    pub open spec fn with_selection(self, by: int) -> (Screen, KeyEffect) {
        let moved = self.selected_rule + by;
        (
            Screen {
                selected_rule: if moved < 0 || self.rules.len() == 0 {
                    0
                } else if moved >= self.rules.len() {
                    self.rules.len() - 1
                } else {
                    moved
                },
                ..self
            },
            KeyEffect::Nothing,
        )
    }

    pub open spec fn with_turn(self, up: bool, coarse: bool) -> (Screen, KeyEffect) {
        (
            self.after_turn(up, coarse),
            if self.turns(up, coarse) {
                KeyEffect::ReplaceRules
            } else {
                KeyEffect::Nothing
            },
        )
    }
}

/// How a request is called on the screen.
pub open spec fn request_name(effect: KeyEffect) -> Seq<char> {
    match effect {
        KeyEffect::GetState => "get_state"@,
        KeyEffect::ReplaceRules => "replace_rules"@,
        KeyEffect::Stop => "stop"@,
        _ => Seq::empty(),
    }
}

impl App {
    /// A screen that shows nothing yet.
    pub fn new() -> (r: App)
        ensures
            r@ == Screen::opened(),
            r@.wf(),
    {
        let rules: Vec<String> = Vec::new();
        let events: Vec<String> = Vec::new();
        assert(texts(rules@) =~= Seq::<Seq<char>>::empty());
        assert(texts(events@) =~= Seq::<Seq<char>>::empty());
        App {
            rules,
            stats: "null".to_owned(),
            diagnostics: "null".to_owned(),
            selected_rule: 0,
            selected_parameter: 0,
            next_id: 1,
            status: "connecting".to_owned(),
            events,
            recording: None,
            phase: "Connect".to_owned(),
            traffic: TrafficStatus::default(),
        }
    }

    /// Starts to record the rules in force.
    pub fn start_recording(&mut self, path: String, target: String)
        ensures
            final(self)@ == (Screen {
                tape: Some(
                    Tape {
                        path: path@,
                        timeline: Score {
                            version: TIMELINE_VERSION,
                            kind: TimelineKind::Replay,
                            name: None,
                            target: Some(target@),
                            duration_ms: 0,
                            events: Seq::empty(),
                        },
                    },
                ),
                ..old(self)@
            }),
    {
        self.recording = Some(Recording::new(path, target));
    }

    fn push_event(&mut self, event: String)
        requires
            old(self).events@.len() <= LOG_LENGTH,
        ensures
            final(self)@ == old(self)@.with_event(event@),
            final(self).events@.len() <= LOG_LENGTH,
    {
        let ghost before = texts(self.events@);
        self.events.insert(0, event);
        assert(texts(self.events@) =~= seq![event@] + before);
        if self.events.len() > LOG_LENGTH {
            let last = self.events.pop();
            assert(texts(self.events@) =~= (seq![event@] + before).take(LOG_LENGTH as int));
        }
    }

    fn set_status(&mut self, status: String)
        requires
            old(self).events@.len() <= LOG_LENGTH,
        ensures
            final(self)@ == old(self)@.with_status(status@),
            final(self).events@.len() <= LOG_LENGTH,
    {
        self.status = status.clone();
        self.push_event(status);
    }

    fn update_rules(&mut self, rules: Vec<String>, parsed: Option<Vec<RuleSpec>>, elapsed_ms: u64)
        ensures
            final(self)@ == old(self)@.with_rules(
                texts(rules@),
                match parsed {
                    Some(list) => Some(rules_of(list@)),
                    None => None,
                },
                elapsed_ms,
            ),
            final(self).events == old(self).events,
    {
        let count: usize = rules.len();
        assert(texts(rules@).len() == rules@.len());
        self.rules = rules;
        if self.selected_rule >= count {
            self.selected_rule = if count == 0 {
                0
            } else {
                count - 1
            };
        }
        if let Some(list) = parsed {
            let taken = self.recording.take();
            if let Some(mut recording) = taken {
                recording.record(list, elapsed_ms);
                self.recording = Some(recording);
            }
        }
    }

    /// Takes a message. `parsed` holds the rules that it tells, if they could
    /// be read.
    pub fn handle_message(&mut self, line: &str, parsed: Option<Vec<RuleSpec>>, elapsed_ms: u64)
        requires
            old(self)@.wf(),
        ensures
            final(self)@ == old(self)@.with_message(
                line@,
                match parsed {
                    Some(list) => Some(rules_of(list@)),
                    None => None,
                },
                elapsed_ms,
            ),
            final(self)@.wf(),
    {
        assert(texts(self.events@).len() == self.events@.len());
        let text = match read_value(line) {
            Ok(text) => text,
            Err(_) => {
                let mut event = "invalid event: ".to_owned();
                event.append(line);
                self.push_event(event);
                return;
            },
        };
        let kind = match read_string(line, "type") {
            Some(kind) => kind,
            None => {
                let mut event = "event: ".to_owned();
                event.append(line);
                self.push_event(event);
                return;
            },
        };
        if same_text(kind.as_str(), "state") || same_text(kind.as_str(), "applied") {
            if let Some(rules) = read_elements(line, "/state/rules") {
                self.update_rules(rules, parsed, elapsed_ms);
            }
            let mut status = kind;
            status.append(" #");
            match read_member(line, "id") {
                Some(id) => {
                    status.append(id.as_str());
                },
                None => {
                    status.append("null");
                },
            }
            self.set_status(status);
        } else if same_text(kind.as_str(), "stats") {
            self.stats = text;
        } else if same_text(kind.as_str(), "diagnostics") {
            self.diagnostics = text;
        } else if same_text(kind.as_str(), "error") {
            let mut status = "ERROR: ".to_owned();
            match read_string(line, "message") {
                Some(message) => {
                    status.append(message.as_str());
                },
                None => {
                    status.append("unknown");
                },
            }
            self.set_status(status);
        } else {
            let mut event = kind;
            event.append(": ");
            event.append(line);
            self.push_event(event);
        }
    }

    fn write_parameter(&mut self, value: u64) -> (r: bool)
        requires
            old(self).selected_parameter < PARAMETER_COUNT,
        ensures
            final(self)@ == old(self)@.set_to(value),
            r == (old(self)@.rule_with(value) is Some),
    {
        assert(texts(self.rules@).len() == self.rules@.len());
        if self.selected_rule >= self.rules.len() {
            return false;
        }
        let at: usize = self.selected_rule;
        let ghost before = texts(self.rules@);
        assert(before[at as int] == self.rules@[at as int]@);
        match write_unsigned(
            self.rules[at].as_str(),
            parameter(self.selected_parameter).key,
            value,
        ) {
            Some(rule) => {
                self.rules.set(at, rule);
                assert(texts(self.rules@) =~= before.update(at as int, rule@));
                true
            },
            None => false,
        }
    }

    /// Turns the selected parameter up or down, ten times as far where `coarse`
    /// is set, and tells whether the selected rule changed.
    pub fn adjust(&mut self, direction: i8, coarse: bool) -> (r: bool)
        requires
            old(self).selected_parameter < PARAMETER_COUNT,
        ensures
            final(self)@ == old(self)@.after_turn(direction > 0, coarse),
            r == old(self)@.turns(direction > 0, coarse),
    {
        assert(texts(self.rules@).len() == self.rules@.len());
        if self.selected_rule >= self.rules.len() {
            return false;
        }
        assert(texts(self.rules@)[self.selected_rule as int]
            == self.rules@[self.selected_rule as int]@);
        let knob = parameter(self.selected_parameter);
        let current: u64 = match read_unsigned(self.rules[self.selected_rule].as_str(), knob.key) {
            Some(value) => value,
            None => 0,
        };
        let step: u64 = if coarse {
            knob.step * 10
        } else {
            knob.step
        };
        let next: u64 = if direction > 0 {
            if current > knob.maximum || knob.maximum - current < step {
                knob.maximum
            } else {
                current + step
            }
        } else if current < step {
            0
        } else {
            current - step
        };
        if next == current {
            return false;
        }
        self.write_parameter(next)
    }

    /// Takes a key, and tells what it asks for.
    pub fn handle_key(&mut self, key: Key, shift: bool) -> (r: KeyEffect)
        requires
            old(self)@.wf(),
        ensures
            (final(self)@, r) == old(self)@.with_key(key, shift),
            final(self)@.wf(),
    {
        match key {
            Key::Escape => KeyEffect::Quit,
            Key::Up => self.move_parameter(false),
            Key::Down => self.move_parameter(true),
            Key::PageUp => self.move_selection(false),
            Key::PageDown => self.move_selection(true),
            Key::Left => self.turn(false, shift),
            Key::Right => self.turn(true, shift),
            Key::Char(c) => self.handle_char(c, shift),
            _ => KeyEffect::Nothing,
        }
    }

    fn handle_char(&mut self, c: char, shift: bool) -> (r: KeyEffect)
        requires
            old(self)@.wf(),
        ensures
            (final(self)@, r) == old(self)@.with_key(Key::Char(c), shift),
            final(self)@.wf(),
    {
        if c == 'q' {
            KeyEffect::Quit
        } else if c == 'x' {
            KeyEffect::Stop
        } else if c == 'r' {
            KeyEffect::GetState
        } else if c == 'k' {
            self.move_parameter(false)
        } else if c == 'j' {
            self.move_parameter(true)
        } else if c == '[' {
            self.move_selection(false)
        } else if c == ']' {
            self.move_selection(true)
        } else if c == 'h' {
            self.turn(false, shift)
        } else if c == 'l' {
            self.turn(true, shift)
        } else if c == '0' {
            if self.write_parameter(0) {
                KeyEffect::ReplaceRules
            } else {
                KeyEffect::Nothing
            }
        } else {
            KeyEffect::Nothing
        }
    }

    fn move_parameter(&mut self, down: bool) -> (r: KeyEffect)
        requires
            old(self)@.wf(),
        ensures
            (final(self)@, r) == old(self)@.with_parameter(
                if down {
                    1
                } else {
                    -1
                },
            ),
            final(self)@.wf(),
    {
        if down {
            if self.selected_parameter + 1 < PARAMETER_COUNT {
                self.selected_parameter = self.selected_parameter + 1;
            } else {
                self.selected_parameter = PARAMETER_COUNT - 1;
            }
        } else if self.selected_parameter > 0 {
            self.selected_parameter = self.selected_parameter - 1;
        }
        KeyEffect::Nothing
    }

    fn move_selection(&mut self, down: bool) -> (r: KeyEffect)
        requires
            old(self)@.wf(),
        ensures
            (final(self)@, r) == old(self)@.with_selection(
                if down {
                    1
                } else {
                    -1
                },
            ),
            final(self)@.wf(),
    {
        assert(texts(self.rules@).len() == self.rules@.len());
        let count: usize = self.rules.len();
        if down {
            if count == 0 {
                self.selected_rule = 0;
            } else if self.selected_rule < count - 1 {
                self.selected_rule = self.selected_rule + 1;
            } else {
                self.selected_rule = count - 1;
            }
        } else if self.selected_rule > 0 {
            self.selected_rule = self.selected_rule - 1;
        }
        KeyEffect::Nothing
    }

    fn turn(&mut self, up: bool, coarse: bool) -> (r: KeyEffect)
        requires
            old(self)@.wf(),
        ensures
            (final(self)@, r) == old(self)@.with_turn(up, coarse),
            final(self)@.wf(),
    {
        let direction: i8 = if up {
            1
        } else {
            -1
        };
        if self.adjust(direction, coarse) {
            KeyEffect::ReplaceRules
        } else {
            KeyEffect::Nothing
        }
    }

    /// The request that a key or the screen asks for, with the rules of the
    /// screen where they are to be put in force. Every request has a number of
    /// its own.
    pub fn request(&mut self, effect: KeyEffect, rules: Vec<RuleSpec>) -> (r: Option<Request>)
        requires
            old(self).next_id < u64::MAX,
        ensures
            final(self)@ == (Screen { next_id: old(self)@.next_id + 1, ..old(self)@ }),
            r == (match effect {
                KeyEffect::GetState => Some(Request::GetState { id: old(self).next_id }),
                KeyEffect::ReplaceRules => Some(
                    Request::ReplaceRules { id: old(self).next_id, rules },
                ),
                KeyEffect::Stop => Some(Request::Stop { id: old(self).next_id }),
                _ => None,
            }),
    {
        let id: u64 = self.next_id;
        self.next_id = id + 1;
        match effect {
            KeyEffect::GetState => Some(Request::GetState { id }),
            KeyEffect::ReplaceRules => Some(Request::ReplaceRules { id, rules }),
            KeyEffect::Stop => Some(Request::Stop { id }),
            _ => None,
        }
    }

    /// Notes that a request was sent.
    pub fn sent(&mut self, effect: KeyEffect, id: u64)
        ensures
            final(self)@ == (Screen {
                status: request_name(effect) + " #"@ + digits(id as nat) + " pending"@,
                ..old(self)@
            }),
    {
        proof {
            reveal_strlit("");
        }
        assert(""@ =~= Seq::<char>::empty());
        let mut status = match effect {
            KeyEffect::GetState => "get_state".to_owned(),
            KeyEffect::ReplaceRules => "replace_rules".to_owned(),
            KeyEffect::Stop => "stop".to_owned(),
            _ => "".to_owned(),
        };
        status.append(" #");
        status.append(decimal(id).as_str());
        status.append(" pending");
        self.status = status;
    }

    /// Ends the recording, if there is one: the timeline up to now, or why it
    /// cannot be played again.
    pub fn finish_recording(&mut self, elapsed_ms: u64) -> (r: Result<Option<Recording>, String>)
        ensures
            final(self)@ == (Screen { tape: None, ..old(self)@ }),
            match (old(self)@.tape, r) {
                (None, Ok(None)) => true,
                (Some(tape), Ok(Some(recording))) => {
                    &&& (Score { duration_ms: elapsed_ms, ..tape.timeline }).error() is None
                    &&& recording.path@ == tape.path
                    &&& recording.timeline@ == (Score { duration_ms: elapsed_ms, ..tape.timeline })
                },
                (Some(tape), Err(message)) => (Score {
                    duration_ms: elapsed_ms,
                    ..tape.timeline
                }).error() == Some(message@),
                _ => false,
            },
    {
        match self.recording.take() {
            None => Ok(None),
            Some(recording) => match recording.finish(elapsed_ms) {
                Ok(finished) => Ok(Some(finished)),
                Err(message) => Err(message),
            },
        }
    }
}

/// How the course of an experiment is shown.
pub open spec fn lifecycle(phase: Seq<char>) -> Seq<char> {
    if phase == "Connect"@ {
        "✓ Provision → ● Connect → Impair → Observe"@
    } else if phase == "Impair"@ {
        "✓ Provision → ✓ Connect → ● Impair → Observe"@
    } else if phase == "Observe"@ {
        "✓ Provision → ✓ Connect → ✓ Impair → ● Observe"@
    } else {
        "● Provision → Connect → Impair → Observe"@
    }
}

/// Shows the course of an experiment.
pub fn lifecycle_label(phase: &str) -> (r: &'static str)
    ensures
        r@ == lifecycle(phase@),
{
    if same_text(phase, "Connect") {
        "✓ Provision → ● Connect → Impair → Observe"
    } else if same_text(phase, "Impair") {
        "✓ Provision → ✓ Connect → ● Impair → Observe"
    } else if same_text(phase, "Observe") {
        "✓ Provision → ✓ Connect → ✓ Impair → ● Observe"
    } else {
        "● Provision → Connect → Impair → Observe"
    }
}

// ---------------------------------------------------------------------------
// Laws
// ---------------------------------------------------------------------------
/// Whether rules follow one another that differ.
pub open spec fn distinct_neighbours(events: Seq<Change>) -> bool {
    forall|i: int|
        0 < i < events.len() ==> (#[trigger] events[i]).rules != events[i - 1].rules
}

/// A recording holds only changes: telling the rules in force keeps the events
/// before, adds one at most, and none that repeats the last rules. It begins
/// at zero.
pub proof fn recordings_hold_changes(events: Seq<Change>, rules: Seq<Rule>, elapsed_ms: u64)
    requires
        distinct_neighbours(events),
        events.len() > 0 ==> events[0].at_ms == 0,
    ensures
        distinct_neighbours(recorded(events, rules, elapsed_ms)),
        recorded(events, rules, elapsed_ms).len() > 0,
        recorded(events, rules, elapsed_ms)[0].at_ms == 0,
        recorded(events, rules, elapsed_ms).last().rules == rules,
        events.len() <= recorded(events, rules, elapsed_ms).len() <= events.len() + 1,
        forall|i: int|
            0 <= i < events.len() ==> #[trigger] recorded(events, rules, elapsed_ms)[i]
                == events[i],
{
}

/// Only messages that tell the rules in force, which are answers to requests
/// that were carried out, go into a recording.
pub proof fn only_acknowledged_rules_are_recorded(
    screen: Screen,
    line: Seq<char>,
    parsed: Option<Seq<Rule>>,
    elapsed_ms: u64,
)
    requires
        json_string(line, "type"@) != Some("state"@),
        json_string(line, "type"@) != Some("applied"@),
    ensures
        screen.with_message(line, parsed, elapsed_ms).tape == screen.tape,
        screen.with_message(line, parsed, elapsed_ms).rules == screen.rules,
{
}

/// A turn stays between zero and the maximum, unless the value was above the
/// maximum before, and moves by a step where there is room.
pub proof fn turns_stay_in_range(screen: Screen, up: bool, coarse: bool)
    requires
        0 <= screen.selected_parameter < PARAMETER_COUNT,
        screen.current() <= maximum_of(screen.selected_parameter),
    ensures
        screen.turned(up, coarse) <= maximum_of(screen.selected_parameter),
        up ==> screen.turned(up, coarse) >= screen.current(),
        !up ==> screen.turned(up, coarse) <= screen.current(),
{
}

} // verus!
