//! Rule and counter records shared with the packet classifier, and the seeded
//! decisions that make an experiment repeatable.

use vstd::prelude::*;

verus! {

pub const FAULTLINE_AGENT_APPLICATION: &'static str = "faultline-agent";

pub const FAULTLINE_ENGINE_APPLICATION: &'static str = "faultline-engine";

pub const FLT_APPLICATION: &'static str = "flt";

pub const FAULTLINE_LAB_APPLICATION: &'static str = "faultline-lab";

pub const DEFAULT_AGENT_IMAGE: &'static str = "faultline-agent:latest";

pub const MAX_RULES: u32 = 1024;

pub const MAX_RULE_MAP_ENTRIES: u32 = 2048;

pub const RULE_NODE_DESTINATION: u32 = 1;

pub const RULE_NODE_SOURCE: u32 = 2;

pub const RULE_NAMESPACE_SOURCE_V4: u8 = 0x84;

pub const RULE_NAMESPACE_SOURCE_V6: u8 = 0x86;

pub const PROTOCOL_ANY: u8 = 0;

pub const PROTOCOL_TCP: u8 = 6;

pub const PROTOCOL_UDP: u8 = 17;

pub const ADDRESS_FAMILY_IPV4: u8 = 4;

pub const ADDRESS_FAMILY_IPV6: u8 = 6;

pub const LOSS_ALGORITHM_HASH: u8 = 0;

pub const LOSS_ALGORITHM_RANDOM: u8 = 1;

pub const LOSS_ALGORITHM_GILBERT_ELLIOTT: u8 = 2;

/// Rates are counted in ten-thousandths; this many always hit.
pub const PERMYRIAD: u32 = 10_000;

/// Keeps the reorder decision independent of the other seeded decisions.
pub const REORDER_DOMAIN: u64 = 0x7265_6f72_6465_7200;

/// Keeps the duplication decision independent of the other seeded decisions.
pub const DUPLICATE_DOMAIN: u64 = 0x6475_706c_6963_6174;

/// Keeps the jitter sample independent of the other seeded decisions.
pub const JITTER_DOMAIN: u64 = 0x6a69_7474_6572_0000;

/// Keeps the Gilbert-Elliott transition independent of its loss decision.
pub const TRANSITION_DOMAIN: u64 = 0x7472_616e_7369_7469;

/// Keeps the Gilbert-Elliott loss decision independent of its transition.
pub const BURST_LOSS_DOMAIN: u64 = 0x6c6f_7373_5f67_6500;

/// One compiled rule as the classifier reads it.
#[derive(Clone, Copy, Debug)]
pub struct FaultRule {
    pub id: u32,
    pub seed: u32,
    pub drop_permyriad: u32,
    /// Source network and mask in the byte order of packet addresses. A zero
    /// mask disables source filtering.
    pub source_network: [u8; 16],
    pub source_mask: [u8; 16],
    pub ge_enter_permyriad: u32,
    pub ge_recover_permyriad: u32,
    pub ge_good_loss_permyriad: u32,
    pub ge_bad_loss_permyriad: u32,
    pub ge_idle_reset_secs: u32,
    pub duplicate_permyriad: u32,
    pub reorder_permyriad: u32,
    pub delay_ns: u64,
    pub jitter_ns: u64,
    pub bandwidth_bps: u64,
    pub protocol: u8,
    pub loss_algorithm: u8,
    pub destination_port: u16,
    pub source_prefix_len: u8,
    pub address_family: u8,
    pub _rule_padding: [u8; 2],
}

impl FaultRule {
    /// Whether some queue or clone impairment is configured.
    pub open spec fn impairs(self) -> bool {
        self.duplicate_permyriad != 0 || self.reorder_permyriad != 0 || self.delay_ns != 0
            || self.jitter_ns != 0 || self.bandwidth_bps != 0
    }

    /// Whether packets of this rule take the queue and clone path after the
    /// loss decision. Pure loss and pass-through rules leave timing alone.
    pub fn has_impairments(&self) -> (r: bool)
        ensures
            r == self.impairs(),
    {
        self.duplicate_permyriad != 0 || self.reorder_permyriad != 0 || self.delay_ns != 0
            || self.jitter_ns != 0 || self.bandwidth_bps != 0
    }

    /// The rule with every field zero.
    pub open spec fn zeroed(self) -> bool {
        &&& self.id == 0 && self.seed == 0 && self.drop_permyriad == 0
        &&& self.source_network@ == zero_bytes(16) && self.source_mask@ == zero_bytes(16)
        &&& self.ge_enter_permyriad == 0 && self.ge_recover_permyriad == 0
        &&& self.ge_good_loss_permyriad == 0 && self.ge_bad_loss_permyriad == 0
        &&& self.ge_idle_reset_secs == 0 && self.duplicate_permyriad == 0
        &&& self.reorder_permyriad == 0 && self.delay_ns == 0 && self.jitter_ns == 0
        &&& self.bandwidth_bps == 0 && self.protocol == 0 && self.loss_algorithm == 0
        &&& self.destination_port == 0 && self.source_prefix_len == 0
        &&& self.address_family == 0 && self._rule_padding@ == zero_bytes(2)
    }
}

/// `n` zero bytes.
pub open spec fn zero_bytes(n: nat) -> Seq<u8> {
    Seq::new(n, |i: int| 0u8)
}

impl Default for FaultRule {
    fn default() -> (r: Self)
        ensures
            r.zeroed(),
    {
        let r = FaultRule {
            id: 0,
            seed: 0,
            drop_permyriad: 0,
            source_network: [0;16],
            source_mask: [0;16],
            ge_enter_permyriad: 0,
            ge_recover_permyriad: 0,
            ge_good_loss_permyriad: 0,
            ge_bad_loss_permyriad: 0,
            ge_idle_reset_secs: 0,
            duplicate_permyriad: 0,
            reorder_permyriad: 0,
            delay_ns: 0,
            jitter_ns: 0,
            bandwidth_bps: 0,
            protocol: 0,
            loss_algorithm: 0,
            destination_port: 0,
            source_prefix_len: 0,
            address_family: 0,
            _rule_padding: [0;2],
        };
        assert(r.source_network@ =~= zero_bytes(16));
        assert(r.source_mask@ =~= zero_bytes(16));
        assert(r._rule_padding@ =~= zero_bytes(2));
        r
    }
}

/// One entry of the rule table: a destination, or a source under one.
#[derive(Clone, Copy, Debug)]
pub struct RuleNode {
    pub kind: u32,
    pub destination_id: u32,
    pub generation: u32,
    pub _padding: u32,
    pub rule: FaultRule,
}

impl Default for RuleNode {
    fn default() -> (r: Self)
        ensures
            r.kind == 0 && r.destination_id == 0 && r.generation == 0 && r._padding == 0,
            r.rule.zeroed(),
    {
        RuleNode {
            kind: 0,
            destination_id: 0,
            generation: 0,
            _padding: 0,
            rule: FaultRule::default(),
        }
    }
}

/// Names the pacing clock of one rule in one generation.
#[derive(Clone, Copy, Debug, PartialEq, Eq, Structural)]
pub struct PaceKey {
    pub rule_id: u32,
    pub generation: u32,
}

impl Default for PaceKey {
    fn default() -> (r: Self)
        ensures
            r == (PaceKey { rule_id: 0, generation: 0 }),
    {
        PaceKey { rule_id: 0, generation: 0 }
    }
}

/// The earliest time at which a rule's next packet may leave.
#[derive(Clone, Copy, Debug)]
pub struct PaceState {
    pub next_ns: u64,
}

impl Default for PaceState {
    fn default() -> (r: Self)
        ensures
            r.next_ns == 0,
    {
        PaceState { next_ns: 0 }
    }
}

/// Packet counters of one rule.
#[derive(Clone, Copy, Debug, PartialEq, Eq, Structural)]
pub struct RuleStats {
    pub matched: u64,
    pub dropped: u64,
    pub matched_segments: u64,
    pub dropped_segments: u64,
    pub matched_bytes: u64,
    pub dropped_bytes: u64,
    pub gso_skbs: u64,
    pub duplicated: u64,
    pub reordered: u64,
    pub delayed: u64,
    pub pacing_dropped: u64,
}

impl RuleStats {
    /// All counters at zero.
    pub open spec fn zero() -> RuleStats {
        RuleStats {
            matched: 0,
            dropped: 0,
            matched_segments: 0,
            dropped_segments: 0,
            matched_bytes: 0,
            dropped_bytes: 0,
            gso_skbs: 0,
            duplicated: 0,
            reordered: 0,
            delayed: 0,
            pacing_dropped: 0,
        }
    }
}

impl Default for RuleStats {
    fn default() -> (r: Self)
        ensures
            r == RuleStats::zero(),
    {
        RuleStats {
            matched: 0,
            dropped: 0,
            matched_segments: 0,
            dropped_segments: 0,
            matched_bytes: 0,
            dropped_bytes: 0,
            gso_skbs: 0,
            duplicated: 0,
            reordered: 0,
            delayed: 0,
            pacing_dropped: 0,
        }
    }
}

/// Counters for packets that reach no rule, kept apart because most of them
/// have no rule to be attributed to.
#[derive(Clone, Copy, Debug, PartialEq, Eq, Structural)]
pub struct DiagnosticStats {
    pub seen: u64,
    pub duplicate_bypass: u64,
    pub non_ip: u64,
    pub malformed: u64,
    pub no_rules: u64,
    pub destination_miss: u64,
    pub source_miss: u64,
    pub protocol_miss: u64,
    pub fragment_port_miss: u64,
    pub port_miss: u64,
    pub invalid_rule: u64,
}

impl DiagnosticStats {
    /// All counters at zero.
    pub open spec fn zero() -> DiagnosticStats {
        DiagnosticStats {
            seen: 0,
            duplicate_bypass: 0,
            non_ip: 0,
            malformed: 0,
            no_rules: 0,
            destination_miss: 0,
            source_miss: 0,
            protocol_miss: 0,
            fragment_port_miss: 0,
            port_miss: 0,
            invalid_rule: 0,
        }
    }
}

impl Default for DiagnosticStats {
    fn default() -> (r: Self)
        ensures
            r == DiagnosticStats::zero(),
    {
        DiagnosticStats {
            seen: 0,
            duplicate_bypass: 0,
            non_ip: 0,
            malformed: 0,
            no_rules: 0,
            destination_miss: 0,
            source_miss: 0,
            protocol_miss: 0,
            fragment_port_miss: 0,
            port_miss: 0,
            invalid_rule: 0,
        }
    }
}

/// The five-tuple of a packet. IPv4 addresses fill the leading four bytes.
#[derive(Clone, Copy, Debug, PartialEq, Eq)]
pub struct FlowKey {
    pub source_address: [u8; 16],
    pub destination_address: [u8; 16],
    pub source_port: u16,
    pub destination_port: u16,
    pub protocol: u8,
    pub address_family: u8,
    pub _padding: [u8; 2],
}

/// A five-tuple with its addresses as byte sequences.
pub struct Flow {
    pub source: Seq<u8>,
    pub destination: Seq<u8>,
    pub source_port: u16,
    pub destination_port: u16,
    pub protocol: u8,
    pub family: u8,
}

impl View for FlowKey {
    type V = Flow;

    open spec fn view(&self) -> Flow {
        Flow {
            source: self.source_address@,
            destination: self.destination_address@,
            source_port: self.source_port,
            destination_port: self.destination_port,
            protocol: self.protocol,
            family: self.address_family,
        }
    }
}

impl Default for FlowKey {
    fn default() -> (r: Self)
        ensures
            r.source_address@ == zero_bytes(16),
            r.destination_address@ == zero_bytes(16),
            r.source_port == 0 && r.destination_port == 0,
            r.protocol == 0 && r.address_family == 0,
            r._padding@ == zero_bytes(2),
    {
        let r = FlowKey {
            source_address: [0;16],
            destination_address: [0;16],
            source_port: 0,
            destination_port: 0,
            protocol: 0,
            address_family: 0,
            _padding: [0;2],
        };
        assert(r.source_address@ =~= zero_bytes(16));
        assert(r.destination_address@ =~= zero_bytes(16));
        assert(r._padding@ =~= zero_bytes(2));
        r
    }
}

/// The later of the two clocks.
pub open spec fn later(a: u64, b: u64) -> u64 {
    if b > a {
        b
    } else {
        a
    }
}

/// The instant from which artificial delay counts. A deadline that a socket or
/// an earlier classifier already set is never moved backwards.
pub fn edt_base_ns(now: u64, existing_tstamp: u64) -> (r: u64)
    ensures
        r == later(now, existing_tstamp),
        r >= now && r >= existing_tstamp,
        r == now || r == existing_tstamp,
{
    if existing_tstamp > now {
        existing_tstamp
    } else {
        now
    }
}

/// The 64-bit finaliser behind every seeded decision.
pub open spec fn mixed(value: u64) -> u64 {
    let a = value ^ (value >> 30);
    let b = a.wrapping_mul(0xbf58_476d_1ce4_e5b9);
    let c = b ^ (b >> 27);
    let d = c.wrapping_mul(0x94d0_49bb_1331_11eb);
    d ^ (d >> 31)
}

/// Scrambles a 64-bit value.
pub fn mix(value: u64) -> (r: u64)
    ensures
        r == mixed(value),
{
    let a: u64 = value ^ (value >> 30);
    let b: u64 = a.wrapping_mul(0xbf58_476d_1ce4_e5b9);
    let c: u64 = b ^ (b >> 27);
    let d: u64 = c.wrapping_mul(0x94d0_49bb_1331_11eb);
    d ^ (d >> 31)
}

/// `start` mixed with the first `n` bytes of both addresses, taken in turn.
pub open spec fn address_hash(
    source: Seq<u8>,
    destination: Seq<u8>,
    start: u64,
    n: nat,
) -> u64
    decreases n,
{
    if n == 0 {
        start
    } else {
        let before = address_hash(source, destination, start, (n - 1) as nat);
        let with_source = mixed(before ^ (source[n - 1] as u64));
        mixed(with_source ^ ((destination[n - 1] as u64) << 1))
    }
}

/// `start` mixed with the whole five-tuple and the packet's place in its flow.
pub open spec fn packet_hash(flow: Flow, packet_index: u64, start: u64) -> u64 {
    let addresses = address_hash(flow.source, flow.destination, start, 16);
    let with_ports = addresses ^ (((flow.source_port as u64) << 48) | ((
    flow.destination_port as u64) << 32));
    let with_protocol = with_ports ^ ((flow.protocol as u64) << 24);
    mixed(with_protocol ^ packet_index)
}

/// The seed and number of a rule in one word.
pub open spec fn rule_word(rule: FaultRule) -> u64 {
    (rule.seed as u64) << 32 | rule.id as u64
}

/// What one flow packet draws under a rule for one kind of decision.
pub open spec fn draw(flow: Flow, packet_index: u64, rule: FaultRule, domain: u64) -> u64 {
    packet_hash(flow, packet_index, domain ^ rule_word(rule))
}

/// Mixes a starting word with the five-tuple and the packet's place in its
/// flow.
fn hash_packet(flow: &FlowKey, packet_index: u64, start: u64) -> (r: u64)
    ensures
        r == packet_hash(flow@, packet_index, start),
{
    let mut hash: u64 = start;
    let mut index: usize = 0;
    while index < 16
        invariant
            index <= 16,
            hash == address_hash(
                flow.source_address@,
                flow.destination_address@,
                start,
                index as nat,
            ),
        decreases 16 - index,
    {
        hash = mix(hash ^ flow.source_address[index] as u64);
        hash = mix(hash ^ ((flow.destination_address[index] as u64) << 1));
        index += 1;
    }
    hash = hash ^ (((flow.source_port as u64) << 48) | ((flow.destination_port as u64) << 32));
    hash = hash ^ ((flow.protocol as u64) << 24);
    mix(hash ^ packet_index)
}

/// A reproducible pseudo-random value for one flow packet and purpose. Callers
/// pass different domains so that independent decisions do not correlate.
pub fn seeded_value(flow: &FlowKey, packet_index: u64, rule: &FaultRule, domain: u64) -> (r: u64)
    ensures
        r == draw(flow@, packet_index, *rule, domain),
{
    let word: u64 = (rule.seed as u64) << 32 | rule.id as u64;
    hash_packet(flow, packet_index, domain ^ word)
}

/// Whether a drawn value falls under a rate in ten-thousandths.
pub open spec fn falls_under(value: u64, permyriad: u32) -> bool {
    value % 10_000 < permyriad
}

/// Whether one flow packet is selected at a rate in ten-thousandths. Rates of
/// ten thousand and more always select, zero never does.
pub fn seeded_hit(
    flow: &FlowKey,
    packet_index: u64,
    rule: &FaultRule,
    domain: u64,
    permyriad: u32,
) -> (r: bool)
    ensures
        r == falls_under(draw(flow@, packet_index, *rule, domain), permyriad),
        permyriad == 0 ==> !r,
        permyriad >= 10_000 ==> r,
{
    let bound: u32 = if permyriad < PERMYRIAD {
        permyriad
    } else {
        PERMYRIAD
    };
    seeded_value(flow, packet_index, rule, domain) % 10_000 < bound as u64
}

/// `a + b`, or the largest value when that does not fit.
pub open spec fn capped_sum(a: u64, b: u64) -> u64 {
    if a + b > u64::MAX {
        u64::MAX
    } else {
        (a + b) as u64
    }
}

/// `a - b`, or zero when that is negative.
pub open spec fn floored_difference(a: u64, b: u64) -> u64 {
    if a < b {
        0
    } else {
        (a - b) as u64
    }
}

/// The artificial delay of one packet: none when it was chosen to overtake,
/// otherwise the configured delay moved up or down by a drawn part of the
/// jitter.
pub open spec fn packet_delay(
    flow: Flow,
    packet_index: u64,
    rule: FaultRule,
    reordered: bool,
) -> u64 {
    if reordered {
        0
    } else if rule.jitter_ns == 0 {
        rule.delay_ns
    } else {
        let sample = draw(flow, packet_index, rule, JITTER_DOMAIN);
        let variation = sample % capped_sum(rule.jitter_ns, 1);
        if sample & 1 == 0 {
            capped_sum(rule.delay_ns, variation)
        } else {
            floored_difference(rule.delay_ns, variation)
        }
    }
}

/// The offset from the base instant at which a packet may leave. Reordered
/// packets get none, so they overtake packets that are already queued.
pub fn seeded_delay_ns(
    flow: &FlowKey,
    packet_index: u64,
    rule: &FaultRule,
    reordered: bool,
) -> (r: u64)
    ensures
        r == packet_delay(flow@, packet_index, *rule, reordered),
{
    if reordered {
        return 0;
    }
    if rule.jitter_ns == 0 {
        return rule.delay_ns;
    }
    let sample: u64 = seeded_value(flow, packet_index, rule, JITTER_DOMAIN);
    let variation: u64 = sample % rule.jitter_ns.saturating_add(1);
    if sample & 1 == 0 {
        rule.delay_ns.saturating_add(variation)
    } else {
        rule.delay_ns.saturating_sub(variation)
    }
}

/// Nanoseconds that a packet occupies a link: its bits over the link's rate,
/// with lengths above a billion bytes counted as a billion. An unlimited link
/// takes no time.
pub open spec fn wire_time(packet_len: u32, bandwidth_bps: u64) -> nat {
    if bandwidth_bps == 0 {
        0
    } else {
        let bytes: nat = if packet_len > 1_000_000_000 {
            1_000_000_000
        } else {
            packet_len as nat
        };
        (bytes * 8_000_000_000) / (bandwidth_bps as nat)
    }
}

/// Converts a packet length and a bandwidth into serialization time. Lengths
/// are bounded so that the product stays within 64 bits.
pub fn serialization_delay_ns(packet_len: u32, bandwidth_bps: u64) -> (r: u64)
    ensures
        r == wire_time(packet_len, bandwidth_bps),
{
    if bandwidth_bps == 0 {
        return 0;
    }
    let bounded_len: u64 = if packet_len > 1_000_000_000 {
        1_000_000_000
    } else {
        packet_len as u64
    };
    let bits: u64 = bounded_len * 8;
    (bits * 1_000_000_000) / bandwidth_bps
}

/// One packet of the two-state loss process: the state after the packet and
/// whether the packet is lost.
pub open spec fn burst_step(flow: Flow, packet_index: u64, bad: bool, rule: FaultRule) -> (
    bool,
    bool,
) {
    let transition = falls_under(
        draw(flow, packet_index, rule, TRANSITION_DOMAIN),
        if bad {
            rule.ge_recover_permyriad
        } else {
            rule.ge_enter_permyriad
        },
    );
    let next_bad = bad != transition;
    let lost = falls_under(
        draw(flow, packet_index, rule, BURST_LOSS_DOMAIN),
        if next_bad {
            rule.ge_bad_loss_permyriad
        } else {
            rule.ge_good_loss_permyriad
        },
    );
    (next_bad, lost)
}

/// Advances one packet of a deterministic Gilbert-Elliott process. `bad` is
/// the state of the flow before this packet.
pub fn gilbert_elliott_step(flow: &FlowKey, packet_index: u64, bad: bool, rule: &FaultRule) -> (r: (
    bool,
    bool,
))
    ensures
        r == burst_step(flow@, packet_index, bad, *rule),
{
    let transition_rate: u32 = if bad {
        rule.ge_recover_permyriad
    } else {
        rule.ge_enter_permyriad
    };
    let transition = seeded_hit(flow, packet_index, rule, TRANSITION_DOMAIN, transition_rate);
    let next_bad = bad != transition;
    let loss_rate: u32 = if next_bad {
        rule.ge_bad_loss_permyriad
    } else {
        rule.ge_good_loss_permyriad
    };
    let lost = seeded_hit(flow, packet_index, rule, BURST_LOSS_DOMAIN, loss_rate);
    (next_bad, lost)
}

/// Whether hash loss takes one packet of a flow.
pub open spec fn hash_drops(flow: Flow, packet_index: u64, rule: FaultRule) -> bool {
    falls_under(packet_hash(flow, packet_index, rule_word(rule)), rule.drop_permyriad)
}

/// Whether a packet is lost under a rule. The answer depends on the flow, the
/// packet's place in it and the rule alone, so an experiment can be repeated.
pub fn should_drop_hash(flow: &FlowKey, packet_index: u64, rule: &FaultRule) -> (r: bool)
    ensures
        r == hash_drops(flow@, packet_index, *rule),
        rule.drop_permyriad == 0 ==> !r,
        rule.drop_permyriad >= 10_000 ==> r,
{
    if rule.drop_permyriad == 0 {
        return false;
    }
    if rule.drop_permyriad >= PERMYRIAD {
        return true;
    }
    let word: u64 = (rule.seed as u64) << 32 | rule.id as u64;
    let hash: u64 = hash_packet(flow, packet_index, word);
    hash % 10_000 < rule.drop_permyriad as u64
}

/// Whether a uniform 32-bit sample falls under a rate in ten-thousandths: the
/// sample range is cut into ten thousand equal parts.
pub open spec fn sample_drops(drop_permyriad: u32, sample: u32) -> bool {
    (sample * 10_000) / 0x1_0000_0000 < drop_permyriad
}

/// Applies a uniformly distributed 32-bit sample to a loss rate.
pub fn should_drop_random_sample(drop_permyriad: u32, sample: u32) -> (r: bool)
    ensures
        r == sample_drops(drop_permyriad, sample),
        drop_permyriad == 0 ==> !r,
        drop_permyriad >= 10_000 ==> r,
{
    if drop_permyriad == 0 {
        return false;
    }
    if drop_permyriad >= PERMYRIAD {
        return true;
    }
    let scaled: u64 = (sample as u64) * 10_000;
    let bucket: u64 = scaled >> 32;
    assert(scaled >> 32 == scaled / 0x1_0000_0000) by (bit_vector);
    bucket < drop_permyriad as u64
}

// ---------------------------------------------------------------------------
// Laws
// ---------------------------------------------------------------------------
/// Decisions repeat: rules with the same number, seed and rates draw and lose
/// alike, packet by packet, for every flow.
pub proof fn decisions_repeat(
    flow: Flow,
    packet_index: u64,
    bad: bool,
    domain: u64,
    left: FaultRule,
    right: FaultRule,
)
    requires
        left.id == right.id,
        left.seed == right.seed,
        left.drop_permyriad == right.drop_permyriad,
        left.ge_enter_permyriad == right.ge_enter_permyriad,
        left.ge_recover_permyriad == right.ge_recover_permyriad,
        left.ge_good_loss_permyriad == right.ge_good_loss_permyriad,
        left.ge_bad_loss_permyriad == right.ge_bad_loss_permyriad,
    ensures
        draw(flow, packet_index, left, domain) == draw(flow, packet_index, right, domain),
        hash_drops(flow, packet_index, left) == hash_drops(flow, packet_index, right),
        burst_step(flow, packet_index, bad, left) == burst_step(flow, packet_index, bad, right),
{
}

/// A packet lost under some rate is lost under every higher rate of an
/// otherwise equal rule, for seeded decisions and for random samples alike.
pub proof fn higher_rate_loses_more(value: u64, sample: u32, lower: u32, higher: u32)
    requires
        lower <= higher,
    ensures
        falls_under(value, lower) ==> falls_under(value, higher),
        sample_drops(lower, sample) ==> sample_drops(higher, sample),
{
}

/// Jitter moves a packet's delay by at most the configured jitter, and only a
/// packet chosen to overtake escapes the delay.
pub proof fn delay_stays_within_jitter(
    flow: Flow,
    packet_index: u64,
    rule: FaultRule,
    reordered: bool,
)
    ensures
        reordered ==> packet_delay(flow, packet_index, rule, reordered) == 0,
        !reordered ==> rule.delay_ns - rule.jitter_ns <= packet_delay(
            flow,
            packet_index,
            rule,
            reordered,
        ) <= rule.delay_ns + rule.jitter_ns,
{
    if !reordered && rule.jitter_ns != 0 {
        let sample = draw(flow, packet_index, rule, JITTER_DOMAIN);
        let bound = capped_sum(rule.jitter_ns, 1);
        assert(sample % bound < bound);
    }
}

/// A faster link never takes longer, and a link of `b` bits per second carries
/// no more than `b` bits of counted packet length in the time it is given.
pub proof fn wire_time_respects_bandwidth(packet_len: u32, slower: u64, faster: u64)
    requires
        0 < slower <= faster,
        packet_len <= 1_000_000_000,
    ensures
        wire_time(packet_len, faster) <= wire_time(packet_len, slower),
        wire_time(packet_len, slower) * slower <= packet_len * 8_000_000_000,
        packet_len * 8_000_000_000 < (wire_time(packet_len, slower) + 1) * slower,
{
    let bits = (packet_len as nat) * 8_000_000_000;
    vstd::arithmetic::div_mod::lemma_div_is_ordered_by_denominator(
        bits as int,
        slower as int,
        faster as int,
    );
    vstd::arithmetic::div_mod::lemma_fundamental_div_mod(bits as int, slower as int);
    let q = bits as int / slower as int;
    assert(slower as int * q == q * slower) by (nonlinear_arith);
    assert((q + 1) * slower == q * slower + slower) by (nonlinear_arith);
}

} // verus!
