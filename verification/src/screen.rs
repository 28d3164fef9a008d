//! The texts of the screens. Colours, borders and places are up to whoever
//! draws them.

use vstd::prelude::*;
use vstd::string::*;
use crate::builder::{BuilderApp, Form, Runtime};
use crate::console::{lifecycle, lifecycle_label, App, Screen};
use crate::experiment_spec::NetworkProtocol;
use crate::json::{json_string, json_unsigned, read_string, read_unsigned};
use crate::text::{decimal, digits, push_text, texts};
use crate::workload_spec::pairs;

verus! {

/// As many spaces.
pub open spec fn spaces(n: nat) -> Seq<char> {
    Seq::new(n, |i: int| ' ')
}

/// A text that ends at a column, unless it is longer.
pub open spec fn right(text: Seq<char>, width: nat) -> Seq<char> {
    if text.len() >= width {
        text
    } else {
        spaces((width - text.len()) as nat) + text
    }
}

/// A text that is filled up to a column, unless it is longer.
pub open spec fn left(text: Seq<char>, width: nat) -> Seq<char> {
    if text.len() >= width {
        text
    } else {
        text + spaces((width - text.len()) as nat)
    }
}

fn write_spaces(n: usize) -> (r: String)
    ensures
        r@ == spaces(n as nat),
{
    proof {
        reveal_strlit("");
        reveal_strlit(" ");
    }
    let mut text = "".to_owned();
    assert(text@ =~= spaces(0));
    let mut index: usize = 0;
    while index < n
        invariant
            index <= n,
            " "@ == seq![' '],
            text@ == spaces(index as nat),
        decreases n - index,
    {
        text.append(" ");
        assert(text@ =~= spaces((index + 1) as nat));
        index += 1;
    }
    text
}

fn align_right(text: &str, width: usize) -> (r: String)
    ensures
        r@ == right(text@, width as nat),
{
    let length: usize = text.unicode_len();
    if length >= width {
        return text.to_owned();
    }
    let mut out = write_spaces(width - length);
    out.append(text);
    out
}

fn align_left(text: &str, width: usize) -> (r: String)
    ensures
        r@ == left(text@, width as nat),
{
    let length: usize = text.unicode_len();
    if length >= width {
        return text.to_owned();
    }
    let mut out = text.to_owned();
    out.append(write_spaces(width - length).as_str());
    out
}

/// A number under a key, at a column; zero where there is none.
pub open spec fn counter(report: Seq<char>, key: Seq<char>, width: nat) -> Seq<char> {
    right(
        digits(
            match json_unsigned(report, key) {
                Some(value) => value as nat,
                None => 0,
            },
        ),
        width,
    )
}

fn show_counter(report: &str, key: &str, width: usize) -> (r: String)
    ensures
        r@ == counter(report@, key@, width as nat),
{
    let value: u64 = match read_unsigned(report, key) {
        Some(value) => value,
        None => 0,
    };
    align_right(decimal(value).as_str(), width)
}

/// A text under a key, or another one where there is none.
pub open spec fn member(rule: Seq<char>, key: Seq<char>, fallback: Seq<char>) -> Seq<char> {
    match json_string(rule, key) {
        Some(text) => text,
        None => fallback,
    }
}

fn show_member(rule: &str, key: &str, fallback: &str) -> (r: String)
    ensures
        r@ == member(rule@, key@, fallback@),
{
    match read_string(rule, key) {
        Some(text) => text,
        None => fallback.to_owned(),
    }
}

impl Screen {
    /// Where the selected rule leads.
    pub open spec fn route(self) -> Seq<char> {
        match self.rule() {
            Some(rule) => member(rule, "source"@, "*"@) + " → "@ + member(
                rule,
                "destination"@,
                "?"@,
            ),
            None => "waiting for state…"@,
        }
    }

    /// The head line: the course of the experiment in full where there is room.
    pub open spec fn heading(self, width: nat, label: Seq<char>) -> Seq<char> {
        "  "@ + (if width >= 110 {
            lifecycle(self.phase)
        } else {
            "["@ + self.phase + "]"@
        }) + "  rule "@ + digits((self.selected_rule + 1) as nat) + "/"@ + digits(
            self.rules.len(),
        ) + "  "@ + self.route() + "  │  "@ + label
    }
}

impl App {
    fn route(&self) -> (r: String)
        ensures
            r@ == self@.route(),
    {
        assert(texts(self.rules@).len() == self.rules@.len());
        if self.selected_rule >= self.rules.len() {
            return "waiting for state…".to_owned();
        }
        assert(texts(self.rules@)[self.selected_rule as int]
            == self.rules@[self.selected_rule as int]@);
        let rule = self.rules[self.selected_rule].as_str();
        let mut route = show_member(rule, "source", "*");
        route.append(" → ");
        route.append(show_member(rule, "destination", "?").as_str());
        route
    }

    /// The head line.
    pub fn header_text(&self, width: u16, label: &str) -> (r: String)
        requires
            self@.wf(),
        ensures
            r@ == self@.heading(width as nat, label@),
    {
        assert(texts(self.rules@).len() == self.rules@.len());
        let mut course = "[".to_owned();
        course.append(self.phase.as_str());
        course.append("]");
        let mut text = "  ".to_owned();
        if width >= 110 {
            text.append(lifecycle_label(self.phase.as_str()));
        } else {
            text.append(course.as_str());
        }
        let count: usize = self.rules.len();
        let shown: u64 = self.selected_rule as u64 + 1;
        text.append("  rule ");
        text.append(decimal(shown).as_str());
        text.append("/");
        text.append(decimal(count as u64).as_str());
        text.append("  ");
        text.append(self.route().as_str());
        text.append("  │  ");
        text.append(label);
        text
    }

    /// The line with the counts of packets.
    pub fn packets_line(&self) -> (r: String)
        ensures
            r@ == "matched "@ + counter(self@.stats, "matched"@, 8) + "  dropped "@ + counter(
                self@.stats,
                "dropped"@,
                8,
            ),
    {
        let stats = self.stats.as_str();
        let mut line = "matched ".to_owned();
        line.append(show_counter(stats, "matched", 8).as_str());
        line.append("  dropped ");
        line.append(show_counter(stats, "dropped", 8).as_str());
        line
    }

    /// The line with the count of aggregated packets.
    pub fn aggregates_line(&self) -> (r: String)
        ensures
            r@ == "GSO skb "@ + counter(self@.stats, "gso_skbs"@, 10),
    {
        let mut line = "GSO skb ".to_owned();
        line.append(show_counter(self.stats.as_str(), "gso_skbs", 10).as_str());
        line
    }

    /// The line with the counts of copies and of packets out of turn.
    pub fn copies_line(&self) -> (r: String)
        ensures
            r@ == "DUP "@ + counter(self@.stats, "duplicated_delta"@, 5) + "  REORDER "@ + counter(
                self@.stats,
                "reordered_delta"@,
                5,
            ),
    {
        let stats = self.stats.as_str();
        let mut line = "DUP ".to_owned();
        line.append(show_counter(stats, "duplicated_delta", 5).as_str());
        line.append("  REORDER ");
        line.append(show_counter(stats, "reordered_delta", 5).as_str());
        line
    }

    /// The line with the counts of delayed packets and of those that could not
    /// be.
    pub fn delays_line(&self) -> (r: String)
        ensures
            r@ == "DELAY "@ + counter(self@.stats, "delayed_delta"@, 5) + "  PACE DROP "@ + counter(
                self@.stats,
                "pacing_dropped_delta"@,
                5,
            ),
    {
        let stats = self.stats.as_str();
        let mut line = "DELAY ".to_owned();
        line.append(show_counter(stats, "delayed_delta", 5).as_str());
        line.append("  PACE DROP ");
        line.append(show_counter(stats, "pacing_dropped_delta", 5).as_str());
        line
    }

    /// The lines with the counts of packets that met no rule.
    pub fn misses_lines(&self) -> (r: (String, String))
        ensures
            r.0@ == "MISS DST "@ + counter(self@.diagnostics, "destination_miss_delta"@, 5)
                + "  SRC "@ + counter(self@.diagnostics, "source_miss_delta"@, 5),
            r.1@ == "MISS PROTO "@ + counter(self@.diagnostics, "protocol_miss_delta"@, 3)
                + " PORT "@ + counter(self@.diagnostics, "port_miss_delta"@, 5) + " BAD "@
                + counter(self@.diagnostics, "malformed_delta"@, 3),
    {
        let report = self.diagnostics.as_str();
        let mut first = "MISS DST ".to_owned();
        first.append(show_counter(report, "destination_miss_delta", 5).as_str());
        first.append("  SRC ");
        first.append(show_counter(report, "source_miss_delta", 5).as_str());
        let mut second = "MISS PROTO ".to_owned();
        second.append(show_counter(report, "protocol_miss_delta", 3).as_str());
        second.append(" PORT ");
        second.append(show_counter(report, "port_miss_delta", 5).as_str());
        second.append(" BAD ");
        second.append(show_counter(report, "malformed_delta", 3).as_str());
        (first, second)
    }

    /// The line with the counts of generated traffic.
    pub fn traffic_line(&self) -> (r: String)
        ensures
            r@ == "TRAFFIC ok "@ + right(digits(self.traffic.succeeded as nat), 5) + " fail "@
                + right(digits(self.traffic.failed as nat), 5) + " total "@ + right(
                digits(self.traffic.attempts as nat),
                5,
            ),
    {
        let mut line = "TRAFFIC ok ".to_owned();
        line.append(align_right(decimal(self.traffic.succeeded).as_str(), 5).as_str());
        line.append(" fail ");
        line.append(align_right(decimal(self.traffic.failed).as_str(), 5).as_str());
        line.append(" total ");
        line.append(align_right(decimal(self.traffic.attempts).as_str(), 5).as_str());
        line
    }

    /// The lines of the log: the status, and the messages below it.
    pub fn log_lines(&self) -> (r: Vec<String>)
        ensures
            texts(r@) == seq![self@.status] + self@.events,
    {
        let mut lines: Vec<String> = Vec::new();
        assert(texts(lines@) =~= Seq::<Seq<char>>::empty());
        push_text(&mut lines, self.status.as_str());
        assert(texts(lines@) =~= seq![self@.status] + texts(self.events@).take(0));
        let mut index: usize = 0;
        while index < self.events.len()
            invariant
                index <= self.events@.len(),
                texts(lines@) == seq![self@.status] + texts(self.events@).take(index as int),
            decreases self.events@.len() - index,
        {
            assert(texts(self.events@)[index as int] == self.events@[index as int]@);
            push_text(&mut lines, self.events[index].as_str());
            assert(texts(lines@) =~= seq![self@.status] + texts(self.events@).take(index + 1));
            index += 1;
        }
        assert(texts(self.events@).take(self.events@.len() as int) =~= texts(self.events@));
        lines
    }
}

/// A label and a text.
pub type Row = (Seq<char>, Seq<char>);

/// How a protocol is called in the form.
pub open spec fn protocol_name(protocol: NetworkProtocol) -> Seq<char> {
    match protocol {
        NetworkProtocol::Any => "any"@,
        NetworkProtocol::Tcp => "tcp"@,
        NetworkProtocol::Udp => "udp"@,
    }
}

impl Form {
    /// The rows of the form.
    pub open spec fn rows(self) -> Seq<Row> {
        seq![
            ("Source runtime"@, self.runtime.name()),
            ("Experiment name"@, self.name),
            (
                "Container"@,
                if self.runtime == Runtime::Local {
                    "(not used for local)"@
                } else {
                    self.workload
                },
            ),
            ("Source interface"@, self.interface),
            (
                match self.runtime {
                    Runtime::Local => "Local program (new)"@,
                    Runtime::Docker => "Docker image (new)"@,
                    Runtime::Lxc => "LXC dist:release:arch"@,
                },
                self.image,
            ),
            ("Network destination"@, self.destination),
            ("Protocol"@, protocol_name(self.protocol)),
            ("Port"@, self.port),
            ("Duration (ms)"@, self.duration_ms),
            ("Outage starts (ms)"@, self.outage_start_ms),
            ("Outage ends (ms)"@, self.outage_end_ms),
            ("Outage loss (%)"@, self.loss_percent),
            ("HTTP traffic URL"@, self.traffic_url),
        ]
    }

    /// The label of a row, with a mark at the selected one.
    pub open spec fn marked(self, index: int) -> Seq<char> {
        (if index == self.selected {
            "▶ "@
        } else {
            "  "@
        }) + left(self.rows()[index].0, 22)
    }
}

fn push_row(rows: &mut Vec<(String, String)>, label: &str, text: &str)
    ensures
        pairs(final(rows)@) == pairs(old(rows)@).push((label@, text@)),
{
    rows.push((label.to_owned(), text.to_owned()));
    assert(pairs(rows@) =~= pairs(old(rows)@).push((label@, text@)));
}

impl BuilderApp {
    /// The rows of the form: labels and texts.
    pub fn fields(&self) -> (r: Vec<(String, String)>)
        ensures
            pairs(r@) == self@.rows(),
    {
        let mut rows: Vec<(String, String)> = Vec::new();
        assert(pairs(rows@) =~= Seq::<Row>::empty());
        push_row(&mut rows, "Source runtime", self.runtime.label());
        push_row(&mut rows, "Experiment name", self.name.as_str());
        push_row(
            &mut rows,
            "Container",
            match self.runtime {
                Runtime::Local => "(not used for local)",
                _ => self.workload.as_str(),
            },
        );
        push_row(&mut rows, "Source interface", self.interface.as_str());
        push_row(
            &mut rows,
            match self.runtime {
                Runtime::Local => "Local program (new)",
                Runtime::Docker => "Docker image (new)",
                Runtime::Lxc => "LXC dist:release:arch",
            },
            self.image.as_str(),
        );
        push_row(&mut rows, "Network destination", self.destination.as_str());
        push_row(
            &mut rows,
            "Protocol",
            match self.protocol {
                NetworkProtocol::Any => "any",
                NetworkProtocol::Tcp => "tcp",
                NetworkProtocol::Udp => "udp",
            },
        );
        push_row(&mut rows, "Port", self.port.as_str());
        push_row(&mut rows, "Duration (ms)", self.duration_ms.as_str());
        push_row(&mut rows, "Outage starts (ms)", self.outage_start_ms.as_str());
        push_row(&mut rows, "Outage ends (ms)", self.outage_end_ms.as_str());
        push_row(&mut rows, "Outage loss (%)", self.loss_percent.as_str());
        push_row(&mut rows, "HTTP traffic URL", self.traffic_url.as_str());
        assert(pairs(rows@) =~= self@.rows());
        rows
    }

    /// The label of a row, with a mark at the selected one.
    pub fn marked_label(&self, index: usize) -> (r: String)
        requires
            index < crate::builder::FIELD_COUNT,
        ensures
            r@ == self@.marked(index as int),
    {
        let rows = self.fields();
        assert(pairs(rows@).len() == rows@.len());
        assert(pairs(rows@)[index as int] == (rows@[index as int].0@, rows@[index as int].1@));
        let mut label = if index == self.selected {
            "▶ ".to_owned()
        } else {
            "  ".to_owned()
        };
        label.append(align_left(rows[index].0.as_str(), 22).as_str());
        label
    }
}

} // verus!
