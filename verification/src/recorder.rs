//! What is observed while a timeline runs.

use vstd::prelude::*;
use vstd::string::*;
use crate::control::copy_rules;
use crate::driver::ApplyEvent;
use crate::duration::Duration;
use crate::execution::{
    AppliedEventRecord, ExperimentExecution, RuleObservation, SelectionDiagnosticObservation,
};
use crate::json::{json_string, json_text, json_unsigned, read_string, read_unsigned, read_value};
use crate::protocol::RuleSpec;
use crate::text::{optional_text, same_text};

verus! {

/// An event that was requested and not acknowledged yet.
#[derive(Clone, Debug, PartialEq, Eq)]
pub struct PendingObservation {
    pub event_index: usize,
    pub scheduled_at_ms: u64,
    pub requested_at_ms: u64,
    pub rules: Vec<RuleSpec>,
    /// When the request was sent, since the start.
    pub sent_at: Duration,
}

/// Collects what is observed. Configurations count once they are acknowledged.
#[derive(Clone, Debug, PartialEq, Eq)]
pub struct ObservationRecorder {
    pub pending: Option<PendingObservation>,
    pub applied_events: Vec<AppliedEventRecord>,
    pub active_event_index: Option<usize>,
    pub active_rules: Vec<RuleSpec>,
    pub observed_since_apply: Vec<u32>,
    pub rule_observations: Vec<RuleObservation>,
    pub selection_diagnostics: Vec<SelectionDiagnosticObservation>,
    pub final_rule_stats: Vec<(u32, String)>,
    pub final_diagnostics: Option<String>,
}

/// Whole milliseconds, or the largest number when they do not fit.
pub open spec fn millis_of(duration: Duration) -> u64 {
    if duration.nanos / 1_000_000 > u64::MAX {
        u64::MAX
    } else {
        (duration.nanos / 1_000_000) as u64
    }
}

/// Whole milliseconds, or the largest number when they do not fit.
pub fn duration_ms(duration: Duration) -> (r: u64)
    ensures
        r == millis_of(duration),
{
    duration.as_millis_capped()
}

/// The numbers of rules.
pub open spec fn ids_of(rules: Seq<RuleSpec>) -> Seq<u32> {
    rules.map_values(|rule: RuleSpec| rule.id)
}

fn list_ids(rules: &Vec<RuleSpec>) -> (r: Vec<u32>)
    ensures
        r@ == ids_of(rules@),
{
    let mut ids: Vec<u32> = Vec::new();
    let mut index: usize = 0;
    while index < rules.len()
        invariant
            index <= rules@.len(),
            ids@.len() == index,
            forall|i: int| 0 <= i < index ==> #[trigger] ids@[i] == rules@[i].id,
        decreases rules@.len() - index,
    {
        ids.push(rules[index].id);
        index += 1;
    }
    assert(ids@ =~= ids_of(rules@));
    ids
}

/// The first rule with a number.
pub open spec fn rule_numbered(rules: Seq<RuleSpec>, id: u32, from: int) -> Option<RuleSpec>
    decreases rules.len() - from,
{
    if from >= rules.len() {
        None
    } else if rules[from].id == id {
        Some(rules[from])
    } else {
        rule_numbered(rules, id, from + 1)
    }
}

fn find_rule(rules: &Vec<RuleSpec>, id: u32) -> (r: Option<RuleSpec>)
    ensures
        r == rule_numbered(rules@, id, 0),
{
    let mut index: usize = 0;
    while index < rules.len()
        invariant
            index <= rules@.len(),
            rule_numbered(rules@, id, 0) == rule_numbered(rules@, id, index as int),
        decreases rules@.len() - index,
    {
        if rules[index].id == id {
            return Some(rules[index]);
        }
        index += 1;
    }
    None
}

/// A rule and its last report.
pub type Report = (u32, Seq<char>);

pub open spec fn reports_of(list: Seq<(u32, String)>) -> Seq<Report> {
    list.map_values(|entry: (u32, String)| (entry.0, entry.1@))
}

/// The place of a rule among ordered reports: its own, or the one it would
/// take.
pub open spec fn report_slot(list: Seq<Report>, id: u32, from: int) -> int
    decreases list.len() - from,
{
    if from >= list.len() || list[from].0 >= id {
        from
    } else {
        report_slot(list, id, from + 1)
    }
}

/// Ordered reports with another one in them. Of a rule the last one is kept.
pub open spec fn with_report(list: Seq<Report>, report: Report) -> Seq<Report> {
    let at = report_slot(list, report.0, 0);
    if at < list.len() && list[at].0 == report.0 {
        list.update(at, report)
    } else {
        list.insert(at, report)
    }
}

fn set_report(list: &mut Vec<(u32, String)>, id: u32, text: String)
    ensures
        reports_of(final(list)@) == with_report(reports_of(old(list)@), (id, text@)),
{
    let ghost before = reports_of(list@);
    let mut at: usize = 0;
    while at < list.len() && list[at].0 < id
        invariant
            at <= list@.len(),
            *list == *old(list),
            before == reports_of(list@),
            report_slot(before, id, 0) == report_slot(before, id, at as int),
        decreases list@.len() - at,
    {
        assert(before[at as int].0 == list@[at as int].0);
        at += 1;
    }
    if at < list.len() {
        assert(before[at as int].0 == list@[at as int].0);
        if list[at].0 == id {
            list.set(at, (id, text));
            assert(reports_of(list@) =~= before.update(at as int, (id, text@)));
            return;
        }
    }
    list.insert(at, (id, text));
    assert(reports_of(list@) =~= before.insert(at as int, (id, text@)));
}

/// What a line reports.
pub enum Sighting {
    /// The counters of a rule.
    Rule(u32, Seq<char>),
    /// The counters of packets that met no rule.
    Misses(Seq<char>),
    Nothing,
}

/// What a line reports. The number of a rule must fit its type.
pub open spec fn sighting(line: Seq<char>) -> Sighting {
    match json_text(line) {
        Err(_) => Sighting::Nothing,
        Ok(text) => if json_string(line, "type"@) == Some("stats"@) {
            match json_unsigned(line, "rule_id"@) {
                Some(id) => if id <= u32::MAX {
                    Sighting::Rule(id as u32, text)
                } else {
                    Sighting::Nothing
                },
                None => Sighting::Nothing,
            }
        } else if json_string(line, "type"@) == Some("diagnostics"@) {
            Sighting::Misses(text)
        } else {
            Sighting::Nothing
        },
    }
}

/// The rules that were seen since the last event was acknowledged, once a line
/// has come in.
pub open spec fn seen_since(before: ObservationRecorder, line: Seq<char>) -> Seq<u32> {
    match sighting(line) {
        Sighting::Rule(id, _) => if before.active_event_index is None
            || before.observed_since_apply@.contains(id) {
            before.observed_since_apply@
        } else {
            before.observed_since_apply@.push(id)
        },
        _ => before.observed_since_apply@,
    }
}

impl Default for ObservationRecorder {
    fn default() -> (r: Self)
        ensures
            r.is_fresh(),
            r.wf(),
    {
        ObservationRecorder {
            pending: None,
            applied_events: Vec::new(),
            active_event_index: None,
            active_rules: Vec::new(),
            observed_since_apply: Vec::new(),
            rule_observations: Vec::new(),
            selection_diagnostics: Vec::new(),
            final_rule_stats: Vec::new(),
            final_diagnostics: None,
        }
    }
}

impl ObservationRecorder {
    /// The last reports stand in ascending order of their rules, one of each.
    pub open spec fn wf(self) -> bool {
        reports_ascend(reports_of(self.final_rule_stats@))
    }

    /// Whether two recorders have the same rules in force.
    pub open spec fn same_rules(self, other: ObservationRecorder) -> bool {
        &&& self.active_event_index == other.active_event_index
        &&& self.active_rules == other.active_rules
    }

    /// Whether two recorders wait for the same event and have seen the same ones
    /// applied.
    pub open spec fn same_schedule(self, other: ObservationRecorder) -> bool {
        &&& self.pending == other.pending
        &&& self.applied_events == other.applied_events
        &&& self.same_rules(other)
    }

    /// Whether nothing was recorded yet.
    pub open spec fn is_fresh(self) -> bool {
        &&& self.pending is None
        &&& self.applied_events@.len() == 0
        &&& self.active_event_index is None
        &&& self.active_rules@.len() == 0
        &&& self.observed_since_apply@.len() == 0
        &&& self.rule_observations@.len() == 0
        &&& self.selection_diagnostics@.len() == 0
        &&& self.final_rule_stats@.len() == 0
        &&& self.final_diagnostics is None
    }

    /// Whether two recorders hold the same observations.
    pub open spec fn same_observations(self, other: ObservationRecorder) -> bool {
        &&& self.rule_observations == other.rule_observations
        &&& self.selection_diagnostics == other.selection_diagnostics
        &&& self.final_rule_stats == other.final_rule_stats
        &&& self.final_diagnostics == other.final_diagnostics
    }

    /// Whether this recorder is another one in which the pending event was
    /// acknowledged: it is the last that was applied, its rules are in force,
    /// and none of them was seen yet.
    pub open spec fn activates(
        self,
        before: ObservationRecorder,
        pending: PendingObservation,
        elapsed: Duration,
    ) -> bool {
        &&& self.active_event_index == Some(pending.event_index)
        &&& self.active_rules == pending.rules
        &&& self.observed_since_apply@.len() == 0
        &&& self.applied_events@.len() == before.applied_events@.len() + 1
        &&& self.applied_events@.drop_last() == before.applied_events@
        &&& self.applied_events@.last().event_index == pending.event_index
        &&& self.applied_events@.last().scheduled_at_ms == pending.scheduled_at_ms
        &&& self.applied_events@.last().requested_at_ms == pending.requested_at_ms
        &&& self.applied_events@.last().applied_at_ms == millis_of(elapsed)
        &&& self.applied_events@.last().rule_ids@ == ids_of(pending.rules@)
    }

    /// Notes an event that was requested. Nothing else changes before it is
    /// acknowledged.
    pub fn requested(&mut self, event: &ApplyEvent, elapsed: Duration, sent_at: Duration)
        ensures
            final(self).pending matches Some(pending) && pending.event_index == event.index
                && pending.scheduled_at_ms == event.at_ms && pending.requested_at_ms == millis_of(
                elapsed,
            ) && pending.rules@ == event.rules@ && pending.sent_at == sent_at,
            final(self).applied_events == old(self).applied_events,
            final(self).same_rules(*old(self)),
            final(self).observed_since_apply == old(self).observed_since_apply,
            final(self).same_observations(*old(self)),
    {
        self.pending =
        Some(
            PendingObservation {
                event_index: event.index,
                scheduled_at_ms: event.at_ms,
                requested_at_ms: duration_ms(elapsed),
                rules: copy_rules(&event.rules),
                sent_at,
            },
        );
    }

    /// Notes what a line reports.
    pub fn message(&mut self, line: &str, elapsed: Duration)
        ensures
            final(self).pending == old(self).pending,
            final(self).applied_events == old(self).applied_events,
            final(self).same_rules(*old(self)),
            noted(*final(self), *old(self), line@, elapsed),
            final(self).observed_since_apply@ == seen_since(*old(self), line@),
            old(self).wf() ==> final(self).wf(),
    {
        let text = match read_value(line) {
            Ok(text) => text,
            Err(_) => return,
        };
        let kind = match read_string(line, "type") {
            Some(kind) => kind,
            None => return,
        };
        if same_text(kind.as_str(), "stats") {
            let id = match read_unsigned(line, "rule_id") {
                Some(id) => id,
                None => return,
            };
            if id > u32::MAX as u64 {
                return;
            }
            proof {
                if self.wf() {
                    last_reports_are_kept(reports_of(self.final_rule_stats@), (id as u32, text@));
                }
            }
            self.stats(id as u32, text, elapsed);
        } else if same_text(kind.as_str(), "diagnostics") {
            self.diagnostics(text, elapsed);
        }
    }

    fn observes_first(&mut self, id: u32) -> (r: bool)
        ensures
            r == !old(self).observed_since_apply@.contains(id),
            final(self).observed_since_apply@ == (if r {
                old(self).observed_since_apply@.push(id)
            } else {
                old(self).observed_since_apply@
            }),
            final(self).pending == old(self).pending,
            final(self).applied_events == old(self).applied_events,
            final(self).same_rules(*old(self)),
            final(self).same_observations(*old(self)),
    {
        let mut index: usize = 0;
        while index < self.observed_since_apply.len()
            invariant
                *self == *old(self),
                index <= self.observed_since_apply@.len(),
                forall|i: int| 0 <= i < index ==> #[trigger] self.observed_since_apply@[i] != id,
            decreases self.observed_since_apply@.len() - index,
        {
            if self.observed_since_apply[index] == id {
                assert(self.observed_since_apply@[index as int] == id);
                return false;
            }
            index += 1;
        }
        self.observed_since_apply.push(id);
        true
    }

    fn stats(&mut self, rule_id: u32, text: String, elapsed: Duration)
        ensures
            final(self).pending == old(self).pending,
            final(self).applied_events == old(self).applied_events,
            final(self).same_rules(*old(self)),
            final(self).selection_diagnostics == old(self).selection_diagnostics,
            final(self).final_diagnostics == old(self).final_diagnostics,
            reports_of(final(self).final_rule_stats@) == with_report(
                reports_of(old(self).final_rule_stats@),
                (rule_id, text@),
            ),
            observed(
                final(self).rule_observations@,
                old(self).rule_observations@,
                *old(self),
                rule_id,
                text@,
                elapsed,
            ),
            final(self).observed_since_apply@ == (if old(self).active_event_index is None || old(
                self,
            ).observed_since_apply@.contains(rule_id) {
                old(self).observed_since_apply@
            } else {
                old(self).observed_since_apply@.push(rule_id)
            }),
    {
        set_report(&mut self.final_rule_stats, rule_id, text.clone());
        let spans = self.active_event_index.is_none() || self.observes_first(rule_id);
        let observation = RuleObservation {
            observed_at_ms: duration_ms(elapsed),
            active_event_index: self.active_event_index,
            interval_may_span_rule_change: spans,
            configured_rule: find_rule(&self.active_rules, rule_id),
            stats: text,
        };
        self.rule_observations.push(observation);
        assert(self.rule_observations@.drop_last() =~= old(self).rule_observations@);
    }

    fn diagnostics(&mut self, text: String, elapsed: Duration)
        ensures
            final(self).pending == old(self).pending,
            final(self).applied_events == old(self).applied_events,
            final(self).same_rules(*old(self)),
            final(self).observed_since_apply == old(self).observed_since_apply,
            final(self).rule_observations == old(self).rule_observations,
            final(self).final_rule_stats == old(self).final_rule_stats,
            optional_text(final(self).final_diagnostics) == Some(text@),
            missed(
                final(self).selection_diagnostics@,
                old(self).selection_diagnostics@,
                old(self).active_event_index,
                text@,
                elapsed,
            ),
    {
        self.final_diagnostics = Some(text.clone());
        let observation = SelectionDiagnosticObservation {
            observed_at_ms: duration_ms(elapsed),
            active_event_index: self.active_event_index,
            diagnostics: text,
        };
        self.selection_diagnostics.push(observation);
        assert(self.selection_diagnostics@.drop_last() =~= old(self).selection_diagnostics@);
    }

    /// Notes that the event that was requested is in force.
    pub fn applied(&mut self, event_index: usize, elapsed: Duration)
        requires
            old(self).pending matches Some(pending) ==> pending.event_index == event_index,
        ensures
            final(self).pending is None,
            final(self).same_observations(*old(self)),
            match old(self).pending {
                None => *final(self) == *old(self),
                Some(pending) => final(self).activates(*old(self), pending, elapsed),
            },
    {
        let taken = self.pending.take();
        if let Some(pending) = taken {
            let record = AppliedEventRecord {
                event_index,
                scheduled_at_ms: pending.scheduled_at_ms,
                requested_at_ms: pending.requested_at_ms,
                applied_at_ms: duration_ms(elapsed),
                rule_ids: list_ids(&pending.rules),
            };
            self.applied_events.push(record);
            assert(self.applied_events@.drop_last() =~= old(self).applied_events@);
            self.active_event_index = Some(event_index);
            self.active_rules = pending.rules;
            self.observed_since_apply = Vec::new();
        }
    }

    /// Whether the acknowledgement of an event is overdue.
    pub fn acknowledgement_timed_out(&self, now: Duration, timeout: Duration) -> (r: bool)
        ensures
            r == (self.pending matches Some(pending) && now.nanos >= pending.sent_at.nanos
                + timeout.nanos),
    {
        match &self.pending {
            Some(pending) => now.nanos >= pending.sent_at.nanos && now.nanos
                - pending.sent_at.nanos >= timeout.nanos,
            None => false,
        }
    }

    /// Whether an event waits for its acknowledgement.
    pub fn has_pending(&self) -> (r: bool)
        ensures
            r == (self.pending is Some),
    {
        self.pending.is_some()
    }

    /// The record of the whole run.
    pub fn finish(self, started_at_unix_ms: u64, completed_at_unix_ms: u64) -> (r:
        ExperimentExecution)
        ensures
            r.started_at_unix_ms == started_at_unix_ms,
            r.completed_at_unix_ms == completed_at_unix_ms,
            r.applied_events == self.applied_events,
            r.rule_observations == self.rule_observations,
            r.selection_diagnostics == self.selection_diagnostics,
            r.final_rule_stats == self.final_rule_stats,
            r.final_diagnostics == self.final_diagnostics,
    {
        ExperimentExecution {
            started_at_unix_ms,
            completed_at_unix_ms,
            applied_events: self.applied_events,
            rule_observations: self.rule_observations,
            selection_diagnostics: self.selection_diagnostics,
            final_rule_stats: self.final_rule_stats,
            final_diagnostics: self.final_diagnostics,
        }
    }
}

/// Whether a recorder holds what a line reports besides what it held before.
pub open spec fn noted(
    after: ObservationRecorder,
    before: ObservationRecorder,
    line: Seq<char>,
    elapsed: Duration,
) -> bool {
    match sighting(line) {
        Sighting::Nothing => after.same_observations(before),
        Sighting::Rule(id, text) => {
            &&& after.selection_diagnostics == before.selection_diagnostics
            &&& after.final_diagnostics == before.final_diagnostics
            &&& reports_of(after.final_rule_stats@) == with_report(
                reports_of(before.final_rule_stats@),
                (id, text),
            )
            &&& observed(
                after.rule_observations@,
                before.rule_observations@,
                before,
                id,
                text,
                elapsed,
            )
        },
        Sighting::Misses(text) => {
            &&& after.rule_observations == before.rule_observations
            &&& after.final_rule_stats == before.final_rule_stats
            &&& optional_text(after.final_diagnostics) == Some(text)
            &&& missed(
                after.selection_diagnostics@,
                before.selection_diagnostics@,
                before.active_event_index,
                text,
                elapsed,
            )
        },
    }
}

/// Whether a report was added: with the rule in force, and marked where it may
/// count packets from before the last change of rules. That is the first
/// report of a rule after the change, and any before the first change.
pub open spec fn observed(
    after: Seq<RuleObservation>,
    before: Seq<RuleObservation>,
    recorder: ObservationRecorder,
    id: u32,
    text: Seq<char>,
    elapsed: Duration,
) -> bool {
    &&& after.len() == before.len() + 1
    &&& after.drop_last() == before
    &&& after.last().observed_at_ms == millis_of(elapsed)
    &&& after.last().active_event_index == recorder.active_event_index
    &&& after.last().interval_may_span_rule_change == (recorder.active_event_index is None
        || !recorder.observed_since_apply@.contains(id))
    &&& after.last().configured_rule == rule_numbered(recorder.active_rules@, id, 0)
    &&& after.last().stats@ == text
}

/// Whether a report of packets that met no rule was added.
pub open spec fn missed(
    after: Seq<SelectionDiagnosticObservation>,
    before: Seq<SelectionDiagnosticObservation>,
    active_event_index: Option<usize>,
    text: Seq<char>,
    elapsed: Duration,
) -> bool {
    &&& after.len() == before.len() + 1
    &&& after.drop_last() == before
    &&& after.last().observed_at_ms == millis_of(elapsed)
    &&& after.last().active_event_index == active_event_index
    &&& after.last().diagnostics@ == text
}

// ---------------------------------------------------------------------------
// Laws
// ---------------------------------------------------------------------------
/// Whether reports are in ascending order of their rules, one of each.
pub open spec fn reports_ascend(list: Seq<Report>) -> bool {
    forall|i: int, j: int| 0 <= i < j < list.len() ==> (#[trigger] list[i]).0 < (#[trigger] list[j]).0
}

/// Whether a report is among those kept.
pub open spec fn keeps(list: Seq<Report>, report: Report) -> bool {
    exists|i: int| 0 <= i < list.len() && #[trigger] list[i] == report
}

proof fn report_slot_fits(list: Seq<Report>, id: u32, from: int)
    requires
        0 <= from <= list.len(),
    ensures
        from <= report_slot(list, id, from) <= list.len(),
        forall|i: int| from <= i < report_slot(list, id, from) ==> (#[trigger] list[i]).0 < id,
        report_slot(list, id, from) < list.len() ==> list[report_slot(list, id, from)].0 >= id,
    decreases list.len() - from,
{
    if from < list.len() && list[from].0 < id {
        report_slot_fits(list, id, from + 1);
    }
}

/// Of each rule the last report is kept: a report replaces the one of its rule
/// and leaves those of other rules as they are.
pub proof fn last_reports_are_kept(list: Seq<Report>, report: Report)
    requires
        reports_ascend(list),
    ensures
        reports_ascend(with_report(list, report)),
        keeps(with_report(list, report), report),
        forall|other: Report|
            other.0 != report.0 ==> (#[trigger] keeps(with_report(list, report), other) <==> keeps(
                list,
                other,
            )),
{
    let at = report_slot(list, report.0, 0);
    report_slot_fits(list, report.0, 0);
    let after = with_report(list, report);
    assert(after[at] == report);
    if at < list.len() && list[at].0 == report.0 {
        assert forall|other: Report| other.0 != report.0 implies (#[trigger] keeps(after, other)
            <==> keeps(list, other)) by {
            if keeps(after, other) {
                let i = choose|i: int| 0 <= i < after.len() && #[trigger] after[i] == other;
                assert(list[i] == other);
            }
            if keeps(list, other) {
                let i = choose|i: int| 0 <= i < list.len() && #[trigger] list[i] == other;
                assert(after[i] == other);
            }
        }
    } else {
        assert forall|i: int, j: int| 0 <= i < j < after.len() implies (#[trigger] after[i]).0 < (
        #[trigger] after[j]).0 by {
            let a = if i < at {
                i
            } else {
                i - 1
            };
            let b = if j < at {
                j
            } else {
                j - 1
            };
            if i != at {
                assert(after[i] == list[a]);
            }
            if j != at {
                assert(after[j] == list[b]);
            }
            if i == at && b > at {
                assert(list[at].0 < list[b].0);
            }
        }
        assert forall|other: Report| other.0 != report.0 implies (#[trigger] keeps(after, other)
            <==> keeps(list, other)) by {
            if keeps(after, other) {
                let i = choose|i: int| 0 <= i < after.len() && #[trigger] after[i] == other;
                if i < at {
                    assert(list[i] == other);
                } else {
                    assert(list[i - 1] == other);
                }
            }
            if keeps(list, other) {
                let i = choose|i: int| 0 <= i < list.len() && #[trigger] list[i] == other;
                if i < at {
                    assert(after[i] == other);
                } else {
                    assert(after[i + 1] == other);
                }
            }
        }
    }
}

} // verus!
