//! Totals, deltas and events of the packet counters.

use vstd::prelude::*;
use vstd::string::*;
use std::collections::HashMap;
use crate::classifier::be_bytes;
use crate::common::{floored_difference, DiagnosticStats, RuleStats};
use crate::packet::word32;

verus! {

broadcast use vstd::std_specs::hash::group_hash_axioms;

/// Counters that exist once per CPU and are summed for reports.
pub trait Accumulate: Sized + Copy {
    /// All counters at zero.
    spec fn nothing() -> Self;

    /// Whether the sums of two sets of counters fit.
    spec fn summable(self, other: Self) -> bool;

    /// The sums of two sets of counters.
    spec fn plus(self, other: Self) -> Self;

    fn none() -> (r: Self)
        ensures
            r == Self::nothing(),
    ;

    fn accumulate(self, value: &Self) -> (r: Self)
        requires
            self.summable(*value),
        ensures
            r == self.plus(*value),
    ;
}

/// The sums over all CPUs.
pub open spec fn total<T: Accumulate>(values: Seq<T>) -> T
    decreases values.len(),
{
    if values.len() == 0 {
        T::nothing()
    } else {
        total(values.drop_last()).plus(values.last())
    }
}

/// Whether the sums over all CPUs fit.
pub open spec fn fits<T: Accumulate>(values: Seq<T>) -> bool
    decreases values.len(),
{
    values.len() > 0 ==> fits(values.drop_last()) && total(values.drop_last()).summable(
        values.last(),
    )
}

proof fn prefixes_fit<T: Accumulate>(values: Seq<T>, n: int)
    requires
        fits(values),
        0 <= n <= values.len(),
    ensures
        fits(values.take(n)),
    decreases values.len(),
{
    if n == values.len() {
        assert(values.take(n) =~= values);
    } else {
        prefixes_fit(values.drop_last(), n);
        assert(values.drop_last().take(n) =~= values.take(n));
    }
}

/// Sums the counters of all CPUs.
pub fn accumulate<T: Accumulate>(values: &[T]) -> (r: T)
    requires
        fits(values@),
    ensures
        r == total(values@),
{
    let mut sum = T::none();
    let mut index: usize = 0;
    while index < values.len()
        invariant
            index <= values@.len(),
            fits(values@),
            sum == total(values@.take(index as int)),
        decreases values@.len() - index,
    {
        proof {
            prefixes_fit(values@, index + 1);
            assert(values@.take(index + 1).drop_last() =~= values@.take(index as int));
        }
        sum = sum.accumulate(&values[index]);
        index += 1;
    }
    assert(values@.take(values@.len() as int) =~= values@);
    sum
}

impl Accumulate for RuleStats {
    open spec fn nothing() -> Self {
        RuleStats::zero()
    }

    open spec fn summable(self, other: Self) -> bool {
        &&& self.matched + other.matched <= u64::MAX
        &&& self.dropped + other.dropped <= u64::MAX
        &&& self.matched_segments + other.matched_segments <= u64::MAX
        &&& self.dropped_segments + other.dropped_segments <= u64::MAX
        &&& self.matched_bytes + other.matched_bytes <= u64::MAX
        &&& self.dropped_bytes + other.dropped_bytes <= u64::MAX
        &&& self.gso_skbs + other.gso_skbs <= u64::MAX
        &&& self.duplicated + other.duplicated <= u64::MAX
        &&& self.reordered + other.reordered <= u64::MAX
        &&& self.delayed + other.delayed <= u64::MAX
        &&& self.pacing_dropped + other.pacing_dropped <= u64::MAX
    }

    open spec fn plus(self, other: Self) -> Self {
        RuleStats {
            matched: (self.matched + other.matched) as u64,
            dropped: (self.dropped + other.dropped) as u64,
            matched_segments: (self.matched_segments + other.matched_segments) as u64,
            dropped_segments: (self.dropped_segments + other.dropped_segments) as u64,
            matched_bytes: (self.matched_bytes + other.matched_bytes) as u64,
            dropped_bytes: (self.dropped_bytes + other.dropped_bytes) as u64,
            gso_skbs: (self.gso_skbs + other.gso_skbs) as u64,
            duplicated: (self.duplicated + other.duplicated) as u64,
            reordered: (self.reordered + other.reordered) as u64,
            delayed: (self.delayed + other.delayed) as u64,
            pacing_dropped: (self.pacing_dropped + other.pacing_dropped) as u64,
        }
    }

    fn none() -> Self {
        RuleStats::default()
    }

    fn accumulate(self, value: &Self) -> Self {
        RuleStats {
            matched: self.matched + value.matched,
            dropped: self.dropped + value.dropped,
            matched_segments: self.matched_segments + value.matched_segments,
            dropped_segments: self.dropped_segments + value.dropped_segments,
            matched_bytes: self.matched_bytes + value.matched_bytes,
            dropped_bytes: self.dropped_bytes + value.dropped_bytes,
            gso_skbs: self.gso_skbs + value.gso_skbs,
            duplicated: self.duplicated + value.duplicated,
            reordered: self.reordered + value.reordered,
            delayed: self.delayed + value.delayed,
            pacing_dropped: self.pacing_dropped + value.pacing_dropped,
        }
    }
}

impl Accumulate for DiagnosticStats {
    open spec fn nothing() -> Self {
        DiagnosticStats::zero()
    }

    open spec fn summable(self, other: Self) -> bool {
        &&& self.seen + other.seen <= u64::MAX
        &&& self.duplicate_bypass + other.duplicate_bypass <= u64::MAX
        &&& self.non_ip + other.non_ip <= u64::MAX
        &&& self.malformed + other.malformed <= u64::MAX
        &&& self.no_rules + other.no_rules <= u64::MAX
        &&& self.destination_miss + other.destination_miss <= u64::MAX
        &&& self.source_miss + other.source_miss <= u64::MAX
        &&& self.protocol_miss + other.protocol_miss <= u64::MAX
        &&& self.fragment_port_miss + other.fragment_port_miss <= u64::MAX
        &&& self.port_miss + other.port_miss <= u64::MAX
        &&& self.invalid_rule + other.invalid_rule <= u64::MAX
    }

    open spec fn plus(self, other: Self) -> Self {
        DiagnosticStats {
            seen: (self.seen + other.seen) as u64,
            duplicate_bypass: (self.duplicate_bypass + other.duplicate_bypass) as u64,
            non_ip: (self.non_ip + other.non_ip) as u64,
            malformed: (self.malformed + other.malformed) as u64,
            no_rules: (self.no_rules + other.no_rules) as u64,
            destination_miss: (self.destination_miss + other.destination_miss) as u64,
            source_miss: (self.source_miss + other.source_miss) as u64,
            protocol_miss: (self.protocol_miss + other.protocol_miss) as u64,
            fragment_port_miss: (self.fragment_port_miss + other.fragment_port_miss) as u64,
            port_miss: (self.port_miss + other.port_miss) as u64,
            invalid_rule: (self.invalid_rule + other.invalid_rule) as u64,
        }
    }

    fn none() -> Self {
        DiagnosticStats::default()
    }

    fn accumulate(self, value: &Self) -> Self {
        DiagnosticStats {
            seen: self.seen + value.seen,
            duplicate_bypass: self.duplicate_bypass + value.duplicate_bypass,
            non_ip: self.non_ip + value.non_ip,
            malformed: self.malformed + value.malformed,
            no_rules: self.no_rules + value.no_rules,
            destination_miss: self.destination_miss + value.destination_miss,
            source_miss: self.source_miss + value.source_miss,
            protocol_miss: self.protocol_miss + value.protocol_miss,
            fragment_port_miss: self.fragment_port_miss + value.fragment_port_miss,
            port_miss: self.port_miss + value.port_miss,
            invalid_rule: self.invalid_rule + value.invalid_rule,
        }
    }
}

/// Counters whose growth is reported.
pub trait CounterDelta: Sized + Copy {
    /// How far each counter moved; zero for one that went back.
    spec fn since(self, previous: Self) -> Self;

    fn delta_since(self, previous: Self) -> (r: Self)
        ensures
            r == self.since(previous),
    ;
}

impl CounterDelta for RuleStats {
    open spec fn since(self, previous: Self) -> Self {
        RuleStats {
            matched: floored_difference(self.matched, previous.matched),
            dropped: floored_difference(self.dropped, previous.dropped),
            matched_segments: floored_difference(self.matched_segments, previous.matched_segments),
            dropped_segments: floored_difference(self.dropped_segments, previous.dropped_segments),
            matched_bytes: floored_difference(self.matched_bytes, previous.matched_bytes),
            dropped_bytes: floored_difference(self.dropped_bytes, previous.dropped_bytes),
            gso_skbs: floored_difference(self.gso_skbs, previous.gso_skbs),
            duplicated: floored_difference(self.duplicated, previous.duplicated),
            reordered: floored_difference(self.reordered, previous.reordered),
            delayed: floored_difference(self.delayed, previous.delayed),
            pacing_dropped: floored_difference(self.pacing_dropped, previous.pacing_dropped),
        }
    }

    fn delta_since(self, previous: Self) -> Self {
        RuleStats {
            matched: self.matched.saturating_sub(previous.matched),
            dropped: self.dropped.saturating_sub(previous.dropped),
            matched_segments: self.matched_segments.saturating_sub(previous.matched_segments),
            dropped_segments: self.dropped_segments.saturating_sub(previous.dropped_segments),
            matched_bytes: self.matched_bytes.saturating_sub(previous.matched_bytes),
            dropped_bytes: self.dropped_bytes.saturating_sub(previous.dropped_bytes),
            gso_skbs: self.gso_skbs.saturating_sub(previous.gso_skbs),
            duplicated: self.duplicated.saturating_sub(previous.duplicated),
            reordered: self.reordered.saturating_sub(previous.reordered),
            delayed: self.delayed.saturating_sub(previous.delayed),
            pacing_dropped: self.pacing_dropped.saturating_sub(previous.pacing_dropped),
        }
    }
}

impl CounterDelta for DiagnosticStats {
    open spec fn since(self, previous: Self) -> Self {
        DiagnosticStats {
            seen: floored_difference(self.seen, previous.seen),
            duplicate_bypass: floored_difference(self.duplicate_bypass, previous.duplicate_bypass),
            non_ip: floored_difference(self.non_ip, previous.non_ip),
            malformed: floored_difference(self.malformed, previous.malformed),
            no_rules: floored_difference(self.no_rules, previous.no_rules),
            destination_miss: floored_difference(self.destination_miss, previous.destination_miss),
            source_miss: floored_difference(self.source_miss, previous.source_miss),
            protocol_miss: floored_difference(self.protocol_miss, previous.protocol_miss),
            fragment_port_miss: floored_difference(
                self.fragment_port_miss,
                previous.fragment_port_miss,
            ),
            port_miss: floored_difference(self.port_miss, previous.port_miss),
            invalid_rule: floored_difference(self.invalid_rule, previous.invalid_rule),
        }
    }

    fn delta_since(self, previous: Self) -> Self {
        DiagnosticStats {
            seen: self.seen.saturating_sub(previous.seen),
            duplicate_bypass: self.duplicate_bypass.saturating_sub(previous.duplicate_bypass),
            non_ip: self.non_ip.saturating_sub(previous.non_ip),
            malformed: self.malformed.saturating_sub(previous.malformed),
            no_rules: self.no_rules.saturating_sub(previous.no_rules),
            destination_miss: self.destination_miss.saturating_sub(previous.destination_miss),
            source_miss: self.source_miss.saturating_sub(previous.source_miss),
            protocol_miss: self.protocol_miss.saturating_sub(previous.protocol_miss),
            fragment_port_miss: self.fragment_port_miss.saturating_sub(previous.fragment_port_miss),
            port_miss: self.port_miss.saturating_sub(previous.port_miss),
            invalid_rule: self.invalid_rule.saturating_sub(previous.invalid_rule),
        }
    }
}

/// How statistics are written.
#[derive(Clone, Copy, Debug, PartialEq, Eq, Structural)]
pub enum StatsFormat {
    /// Lines for people.
    Text,
    /// One JSON object per report.
    Json,
    /// MessagePack frames with a length in front.
    Msgpack,
}

/// The counters of one rule at one report, and how far each moved since the
/// report before.
#[derive(Clone, Copy, Debug, PartialEq, Eq, Structural)]
pub struct StatsSnapshot {
    pub rule_id: u32,
    pub elapsed_ms: u64,
    pub interval_ms: u64,
    pub matched: u64,
    pub dropped: u64,
    pub matched_segments: u64,
    pub dropped_segments: u64,
    pub matched_bytes: u64,
    pub dropped_bytes: u64,
    pub gso_skbs: u64,
    pub duplicated: u64,
    pub reordered: u64,
    pub delayed: u64,
    pub pacing_dropped: u64,
    pub matched_delta: u64,
    pub dropped_delta: u64,
    pub matched_segments_delta: u64,
    pub dropped_segments_delta: u64,
    pub matched_bytes_delta: u64,
    pub dropped_bytes_delta: u64,
    pub gso_skbs_delta: u64,
    pub duplicated_delta: u64,
    pub reordered_delta: u64,
    pub delayed_delta: u64,
    pub pacing_dropped_delta: u64,
}

/// What was last reported.
#[derive(Clone, Copy, Debug, PartialEq, Eq, Structural)]
pub struct Previous<T> {
    pub total: T,
    pub elapsed_ms: u64,
}

/// The snapshot of a rule whose counters and time were last reported so.
pub open spec fn snapshot_after(
    rule_id: u32,
    total: RuleStats,
    previous: Previous<RuleStats>,
    elapsed_ms: u64,
) -> StatsSnapshot {
    let delta = total.since(previous.total);
    StatsSnapshot {
        rule_id,
        elapsed_ms,
        interval_ms: floored_difference(elapsed_ms, previous.elapsed_ms),
        matched: total.matched,
        dropped: total.dropped,
        matched_segments: total.matched_segments,
        dropped_segments: total.dropped_segments,
        matched_bytes: total.matched_bytes,
        dropped_bytes: total.dropped_bytes,
        gso_skbs: total.gso_skbs,
        duplicated: total.duplicated,
        reordered: total.reordered,
        delayed: total.delayed,
        pacing_dropped: total.pacing_dropped,
        matched_delta: delta.matched,
        dropped_delta: delta.dropped,
        matched_segments_delta: delta.matched_segments,
        dropped_segments_delta: delta.dropped_segments,
        matched_bytes_delta: delta.matched_bytes,
        dropped_bytes_delta: delta.dropped_bytes,
        gso_skbs_delta: delta.gso_skbs,
        duplicated_delta: delta.duplicated,
        reordered_delta: delta.reordered,
        delayed_delta: delta.delayed,
        pacing_dropped_delta: delta.pacing_dropped,
    }
}

impl Default for StatsSnapshot {
    fn default() -> (r: Self)
        ensures
            r == snapshot_after(
                0,
                RuleStats::zero(),
                Previous { total: RuleStats::zero(), elapsed_ms: 0 },
                0,
            ),
    {
        make_snapshot(
            0,
            &RuleStats::default(),
            &Previous { total: RuleStats::default(), elapsed_ms: 0 },
            0,
        )
    }
}

fn make_snapshot(
    rule_id: u32,
    total: &RuleStats,
    previous: &Previous<RuleStats>,
    elapsed_ms: u64,
) -> (r: StatsSnapshot)
    ensures
        r == snapshot_after(rule_id, *total, *previous, elapsed_ms),
{
    let delta = total.delta_since(previous.total);
    StatsSnapshot {
        rule_id,
        elapsed_ms,
        interval_ms: elapsed_ms.saturating_sub(previous.elapsed_ms),
        matched: total.matched,
        dropped: total.dropped,
        matched_segments: total.matched_segments,
        dropped_segments: total.dropped_segments,
        matched_bytes: total.matched_bytes,
        dropped_bytes: total.dropped_bytes,
        gso_skbs: total.gso_skbs,
        duplicated: total.duplicated,
        reordered: total.reordered,
        delayed: total.delayed,
        pacing_dropped: total.pacing_dropped,
        matched_delta: delta.matched,
        dropped_delta: delta.dropped,
        matched_segments_delta: delta.matched_segments,
        dropped_segments_delta: delta.dropped_segments,
        matched_bytes_delta: delta.matched_bytes,
        dropped_bytes_delta: delta.dropped_bytes,
        gso_skbs_delta: delta.gso_skbs,
        duplicated_delta: delta.duplicated,
        reordered_delta: delta.reordered,
        delayed_delta: delta.delayed,
        pacing_dropped_delta: delta.pacing_dropped,
    }
}

/// A share of a total. Nothing out of nothing counts as none.
#[derive(Clone, Copy, Debug, PartialEq, Eq, Structural)]
pub struct Share {
    pub part: u64,
    pub total: u64,
}

/// An amount over a time in milliseconds. Over no time it counts as none.
#[derive(Clone, Copy, Debug, PartialEq, Eq, Structural)]
pub struct Rate {
    pub amount: u64,
    pub interval_ms: u64,
}

impl StatsSnapshot {
    pub fn loss_percent(&self) -> (r: Share)
        ensures
            r == (Share { part: self.dropped, total: self.matched }),
    {
        self.skb_loss_percent()
    }

    pub fn skb_loss_percent(&self) -> (r: Share)
        ensures
            r == (Share { part: self.dropped, total: self.matched }),
    {
        Share { part: self.dropped, total: self.matched }
    }

    pub fn segment_loss_percent(&self) -> (r: Share)
        ensures
            r == (Share { part: self.dropped_segments, total: self.matched_segments }),
    {
        Share { part: self.dropped_segments, total: self.matched_segments }
    }

    pub fn byte_loss_percent(&self) -> (r: Share)
        ensures
            r == (Share { part: self.dropped_bytes, total: self.matched_bytes }),
    {
        Share { part: self.dropped_bytes, total: self.matched_bytes }
    }

    pub fn skb_loss_interval_percent(&self) -> (r: Share)
        ensures
            r == (Share { part: self.dropped_delta, total: self.matched_delta }),
    {
        Share { part: self.dropped_delta, total: self.matched_delta }
    }

    pub fn segment_loss_interval_percent(&self) -> (r: Share)
        ensures
            r == (Share { part: self.dropped_segments_delta, total: self.matched_segments_delta }),
    {
        Share { part: self.dropped_segments_delta, total: self.matched_segments_delta }
    }

    pub fn byte_loss_interval_percent(&self) -> (r: Share)
        ensures
            r == (Share { part: self.dropped_bytes_delta, total: self.matched_bytes_delta }),
    {
        Share { part: self.dropped_bytes_delta, total: self.matched_bytes_delta }
    }

    /// An amount over the time since the report before.
    pub fn per_second(&self, value: u64) -> (r: Rate)
        ensures
            r == (Rate { amount: value, interval_ms: self.interval_ms }),
    {
        Rate { amount: value, interval_ms: self.interval_ms }
    }
}

/// The report of one rule. Shares are of the packets, segments or bytes that
/// the rule matched; rates are over the time since the report before.
#[derive(Clone, Copy, Debug, PartialEq, Eq, Structural)]
pub struct StatsEvent {
    pub snapshot: StatsSnapshot,
    pub skb_loss: Share,
    pub segment_loss: Share,
    pub byte_loss: Share,
    pub skb_loss_interval: Share,
    pub segment_loss_interval: Share,
    pub byte_loss_interval: Share,
    pub matched_packets: Rate,
    pub dropped_packets: Rate,
    pub wire_bytes: Rate,
    pub dropped_bytes: Rate,
    pub gso_interval: Share,
    pub duplicated_interval: Share,
    pub reordered_interval: Share,
    pub delayed_interval: Share,
    pub pacing_dropped_interval: Share,
    pub loss: Share,
}

impl StatsEvent {
    /// The report of a snapshot.
    pub open spec fn of(snapshot: StatsSnapshot) -> StatsEvent {
        StatsEvent {
            snapshot,
            skb_loss: Share { part: snapshot.dropped, total: snapshot.matched },
            segment_loss: Share {
                part: snapshot.dropped_segments,
                total: snapshot.matched_segments,
            },
            byte_loss: Share { part: snapshot.dropped_bytes, total: snapshot.matched_bytes },
            skb_loss_interval: Share {
                part: snapshot.dropped_delta,
                total: snapshot.matched_delta,
            },
            segment_loss_interval: Share {
                part: snapshot.dropped_segments_delta,
                total: snapshot.matched_segments_delta,
            },
            byte_loss_interval: Share {
                part: snapshot.dropped_bytes_delta,
                total: snapshot.matched_bytes_delta,
            },
            matched_packets: Rate {
                amount: snapshot.matched_delta,
                interval_ms: snapshot.interval_ms,
            },
            dropped_packets: Rate {
                amount: snapshot.dropped_delta,
                interval_ms: snapshot.interval_ms,
            },
            wire_bytes: Rate {
                amount: snapshot.matched_bytes_delta,
                interval_ms: snapshot.interval_ms,
            },
            dropped_bytes: Rate {
                amount: snapshot.dropped_bytes_delta,
                interval_ms: snapshot.interval_ms,
            },
            gso_interval: Share { part: snapshot.gso_skbs_delta, total: snapshot.matched_delta },
            duplicated_interval: Share {
                part: snapshot.duplicated_delta,
                total: snapshot.matched_delta,
            },
            reordered_interval: Share {
                part: snapshot.reordered_delta,
                total: snapshot.matched_delta,
            },
            delayed_interval: Share {
                part: snapshot.delayed_delta,
                total: snapshot.matched_delta,
            },
            pacing_dropped_interval: Share {
                part: snapshot.pacing_dropped_delta,
                total: snapshot.matched_delta,
            },
            loss: Share { part: snapshot.dropped, total: snapshot.matched },
        }
    }

    /// Makes the report of a snapshot.
    pub fn from_snapshot(snapshot: StatsSnapshot) -> (r: StatsEvent)
        ensures
            r == StatsEvent::of(snapshot),
    {
        let of_matched: u64 = snapshot.matched_delta;
        StatsEvent {
            snapshot,
            skb_loss: snapshot.skb_loss_percent(),
            segment_loss: snapshot.segment_loss_percent(),
            byte_loss: snapshot.byte_loss_percent(),
            skb_loss_interval: snapshot.skb_loss_interval_percent(),
            segment_loss_interval: snapshot.segment_loss_interval_percent(),
            byte_loss_interval: snapshot.byte_loss_interval_percent(),
            matched_packets: snapshot.per_second(snapshot.matched_delta),
            dropped_packets: snapshot.per_second(snapshot.dropped_delta),
            wire_bytes: snapshot.per_second(snapshot.matched_bytes_delta),
            dropped_bytes: snapshot.per_second(snapshot.dropped_bytes_delta),
            gso_interval: Share { part: snapshot.gso_skbs_delta, total: of_matched },
            duplicated_interval: Share { part: snapshot.duplicated_delta, total: of_matched },
            reordered_interval: Share { part: snapshot.reordered_delta, total: of_matched },
            delayed_interval: Share { part: snapshot.delayed_delta, total: of_matched },
            pacing_dropped_interval: Share {
                part: snapshot.pacing_dropped_delta,
                total: of_matched,
            },
            loss: snapshot.loss_percent(),
        }
    }
}

/// The report of the packets that no rule handled.
#[derive(Clone, Copy, Debug, PartialEq, Eq, Structural)]
pub struct DiagnosticEvent {
    pub elapsed_ms: u64,
    pub interval_ms: u64,
    pub total: DiagnosticStats,
    pub delta: DiagnosticStats,
    pub seen_packets: Rate,
}

/// What has been reported so far.
pub struct StatsReporter {
    pub format: StatsFormat,
    pub previous: HashMap<u32, Previous<RuleStats>>,
    pub previous_diagnostics: Previous<DiagnosticStats>,
}

/// What was last reported of a rule; zeros at the start of the session before
/// its first report.
pub open spec fn last_report(
    reports: Map<u32, Previous<RuleStats>>,
    rule_id: u32,
) -> Previous<RuleStats> {
    if reports.dom().contains(rule_id) {
        reports[rule_id]
    } else {
        Previous { total: RuleStats::zero(), elapsed_ms: 0 }
    }
}

impl StatsReporter {
    pub fn new(format: StatsFormat) -> (r: StatsReporter)
        ensures
            r.format == format,
            r.previous@ == Map::<u32, Previous<RuleStats>>::empty(),
            r.previous_diagnostics == (Previous { total: DiagnosticStats::zero(), elapsed_ms: 0 }),
    {
        StatsReporter {
            format,
            previous: HashMap::new(),
            previous_diagnostics: Previous { total: DiagnosticStats::default(), elapsed_ms: 0 },
        }
    }

    /// Reports the counters of a rule at a time since the start of the
    /// session. Deltas are kept apart for each rule.
    pub fn snapshot(&mut self, rule_id: u32, total: RuleStats, elapsed_ms: u64) -> (r: StatsSnapshot)
        ensures
            r == snapshot_after(
                rule_id,
                total,
                last_report(old(self).previous@, rule_id),
                elapsed_ms,
            ),
            final(self).previous@ == old(self).previous@.insert(
                rule_id,
                Previous { total, elapsed_ms },
            ),
            final(self).previous_diagnostics == old(self).previous_diagnostics,
            final(self).format == old(self).format,
    {
        let previous = match self.previous.get(&rule_id) {
            Some(value) => *value,
            None => Previous { total: RuleStats::default(), elapsed_ms: 0 },
        };
        let snapshot = make_snapshot(rule_id, &total, &previous, elapsed_ms);
        self.previous.insert(rule_id, Previous { total, elapsed_ms });
        snapshot
    }

    /// Reports the packets that no rule handled.
    pub fn emit_diagnostics(&mut self, total: DiagnosticStats, elapsed_ms: u64) -> (r:
        DiagnosticEvent)
        ensures
            r.elapsed_ms == elapsed_ms,
            r.interval_ms == floored_difference(
                elapsed_ms,
                old(self).previous_diagnostics.elapsed_ms,
            ),
            r.total == total,
            r.delta == total.since(old(self).previous_diagnostics.total),
            r.seen_packets == (Rate { amount: r.delta.seen, interval_ms: r.interval_ms }),
            final(self).previous_diagnostics == (Previous { total, elapsed_ms }),
            final(self).previous@ == old(self).previous@,
            final(self).format == old(self).format,
    {
        let interval_ms: u64 = elapsed_ms.saturating_sub(self.previous_diagnostics.elapsed_ms);
        let delta = total.delta_since(self.previous_diagnostics.total);
        self.previous_diagnostics = Previous { total, elapsed_ms };
        DiagnosticEvent {
            elapsed_ms,
            interval_ms,
            total,
            delta,
            seen_packets: Rate { amount: delta.seen, interval_ms },
        }
    }
}

/// Frames an encoded report: its length in four bytes, most significant first,
/// and the report itself.
pub fn encode_msgpack(payload: &Vec<u8>) -> (r: Result<Vec<u8>, String>)
    ensures
        match r {
            Ok(frame) => payload@.len() <= u32::MAX && frame@ == be_bytes(payload@.len() as u32)
                + payload@,
            Err(message) => payload@.len() > u32::MAX && message@
                == "stats MessagePack frame is too large"@,
        },
{
    if payload.len() > u32::MAX as usize {
        return Err("stats MessagePack frame is too large".to_owned());
    }
    let length: u32 = payload.len() as u32;
    let mut frame: Vec<u8> = Vec::new();
    frame.push((length / 0x100_0000) as u8);
    frame.push((length / 0x1_0000 % 256) as u8);
    frame.push((length / 256 % 256) as u8);
    frame.push((length % 256) as u8);
    assert(frame@ =~= be_bytes(length));
    let mut index: usize = 0;
    while index < payload.len()
        invariant
            index <= payload@.len(),
            length == payload@.len(),
            frame@ == be_bytes(length) + payload@.take(index as int),
        decreases payload@.len() - index,
    {
        frame.push(payload[index]);
        assert(frame@ =~= be_bytes(length) + payload@.take(index + 1));
        index += 1;
    }
    assert(payload@.take(payload@.len() as int) =~= payload@);
    Ok(frame)
}

// ---------------------------------------------------------------------------
// Laws
// ---------------------------------------------------------------------------
/// Whether no counter of a rule went back.
pub open spec fn grew(before: RuleStats, after: RuleStats) -> bool {
    &&& before.matched <= after.matched && before.dropped <= after.dropped
    &&& before.matched_segments <= after.matched_segments
    &&& before.dropped_segments <= after.dropped_segments
    &&& before.matched_bytes <= after.matched_bytes
    &&& before.dropped_bytes <= after.dropped_bytes
    &&& before.gso_skbs <= after.gso_skbs && before.duplicated <= after.duplicated
    &&& before.reordered <= after.reordered && before.delayed <= after.delayed
    &&& before.pacing_dropped <= after.pacing_dropped
}

/// Counters that only grow are the last report plus the delta: reports can be
/// added up again.
pub proof fn deltas_add_up(before: RuleStats, after: RuleStats)
    requires
        grew(before, after),
    ensures
        before.summable(after.since(before)),
        before.plus(after.since(before)) == after,
{
}

/// A rule's deltas do not depend on the reports of other rules.
pub proof fn rules_are_reported_apart(
    reports: Map<u32, Previous<RuleStats>>,
    reported: u32,
    entry: Previous<RuleStats>,
    other: u32,
)
    requires
        reported != other,
    ensures
        last_report(reports.insert(reported, entry), other) == last_report(reports, other),
        last_report(reports.insert(reported, entry), reported) == entry,
{
}

/// Four bytes, most significant first, read back as the number they were
/// written from.
#[verifier::spinoff_prover]
proof fn lengths_are_read_back(n: u32)
    ensures
        word32(be_bytes(n), 0) == n,
{
    let bytes = be_bytes(n);
    assert(bytes[0] == n / 0x100_0000);
    assert(bytes[1] == n / 0x1_0000 % 256);
    assert(bytes[2] == n / 256 % 256);
    assert(bytes[3] == n % 256);
}

/// What stands behind a word of four bytes does not change how it reads.
#[verifier::spinoff_prover]
proof fn words_stand_apart(bytes: Seq<u8>, rest: Seq<u8>)
    requires
        bytes.len() == 4,
    ensures
        word32(bytes + rest, 0) == word32(bytes, 0),
        (bytes + rest).subrange(4, 4 + rest.len() as int) == rest,
{
    let whole = bytes + rest;
    assert(whole[0] == bytes[0] && whole[1] == bytes[1]);
    assert(whole[2] == bytes[2] && whole[3] == bytes[3]);
    assert(whole.subrange(4, 4 + rest.len() as int) =~= rest);
}

/// A frame begins with the number of bytes that follow, and those are the
/// report.
#[verifier::spinoff_prover]
pub proof fn frames_announce_their_length(payload: Seq<u8>)
    requires
        payload.len() <= u32::MAX,
    ensures
        word32(be_bytes(payload.len() as u32) + payload, 0) == payload.len(),
        (be_bytes(payload.len() as u32) + payload).subrange(4, 4 + payload.len() as int) == payload,
{
    let n = payload.len() as u32;
    lengths_are_read_back(n);
    words_stand_apart(be_bytes(n), payload);
}

} // verus!
