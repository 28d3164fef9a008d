//! The decisions of the packet classifier.
//!
//! A packet is taken through its decisions one kernel answer at a time: each
//! function takes what the maps, the clock or the random source answered and
//! says what is asked next, until the packet is counted and passed or dropped.

use vstd::prelude::*;
use crate::common::{
    burst_step, capped_sum, draw, edt_base_ns, falls_under, gilbert_elliott_step, hash_drops, later,
    packet_delay, sample_drops, seeded_delay_ns, seeded_hit, serialization_delay_ns,
    should_drop_hash, should_drop_random_sample, wire_time, zero_bytes, DiagnosticStats, FaultRule,
    Flow, FlowKey, PaceKey, RuleNode, RuleStats, ADDRESS_FAMILY_IPV4, DUPLICATE_DOMAIN,
    LOSS_ALGORITHM_GILBERT_ELLIOTT, LOSS_ALGORITHM_HASH, LOSS_ALGORITHM_RANDOM, MAX_RULES,
    PROTOCOL_ANY, PROTOCOL_TCP, PROTOCOL_UDP, REORDER_DOMAIN, RULE_NAMESPACE_SOURCE_V4,
    RULE_NAMESPACE_SOURCE_V6, RULE_NODE_DESTINATION, RULE_NODE_SOURCE,
};
use crate::packet::{
    frame_network, has_ports, ip_parsed, network_header, parse_ip, ports_at, transport_ports, Parsed,
    ParsedPacket, ShortPacket,
};

verus! {

/// Compare-and-swap attempts before a contended word is given up.
pub const CAS_RETRIES: usize = 2;

/// Private mark of a clone on its second way through the classifier.
pub const DUPLICATE_MARK: u32 = 0x8000_0000;

/// How long the ports of a first fragment stand for its later ones.
pub const FRAGMENT_CACHE_TTL_NS: u64 = 30_000_000_000;

/// Why a packet was seen and, where it applies, why no rule handled it.
#[derive(Clone, Copy, Debug, PartialEq, Eq, Structural)]
pub enum Diagnostic {
    Seen,
    DuplicateBypass,
    NonIp,
    Malformed,
    NoRules,
    DestinationMiss,
    SourceMiss,
    ProtocolMiss,
    FragmentPortMiss,
    PortMiss,
    InvalidRule,
}

/// What becomes of a packet.
#[derive(Clone, Copy, Debug, PartialEq, Eq, Structural)]
pub enum Action {
    Pass,
    Drop,
}

impl Action {
    /// The traffic-control return code.
    pub fn code(self) -> (r: i32)
        ensures
            r == (if self == Action::Pass {
                3i32
            } else {
                2i32
            }),
    {
        match self {
            Action::Pass => 3,
            Action::Drop => 2,
        }
    }
}

/// What the counters record of a matched packet.
#[derive(Clone, Copy, Debug, PartialEq, Eq, Structural)]
pub struct PacketMarks {
    pub dropped: bool,
    pub duplicated: bool,
    pub reordered: bool,
    pub delayed: bool,
    pub pacing_dropped: bool,
}

/// A packet with a known flow, before any rule is looked up.
#[derive(Clone, Copy, Debug)]
pub struct Candidate {
    pub flow: FlowKey,
    pub packet: ParsedPacket,
}

/// The first decision on a packet.
#[derive(Clone, Copy, Debug)]
pub enum Opening {
    /// A clone on its second way through: pass it with this mark.
    Bypass { mark: u32 },
    /// Pass it untouched and count why.
    Ignore(Diagnostic),
    /// Look its destination up.
    Lookup(Candidate),
}

/// Whether a mark carries the clone bit.
pub open spec fn is_clone(mark: u32) -> bool {
    mark >= 0x8000_0000
}

/// A clone's mark without the clone bit.
pub open spec fn unmarked(mark: u32) -> u32 {
    (mark - 0x8000_0000) as u32
}

/// What the frame alone says of a packet that is no clone.
pub open spec fn frame_flow(bytes: Seq<u8>) -> Result<Parsed, Diagnostic> {
    match frame_network(bytes) {
        Err(_) => Err(Diagnostic::Malformed),
        Ok(None) => Err(Diagnostic::NonIp),
        Ok(Some((ether_type, offset))) => match ip_parsed(bytes, ether_type, offset as int) {
            Ok(Some(parsed)) => Ok(parsed),
            _ => Err(Diagnostic::Malformed),
        },
    }
}

/// Decides on a packet from its mark and its bytes. Clones of an earlier pass
/// lose their mark and are neither cloned nor impaired again.
pub fn faultline_classifier(packet: &[u8], mark: u32) -> (r: Opening)
    ensures
        match r {
            Opening::Bypass { mark: cleared } => is_clone(mark) && cleared == unmarked(mark),
            Opening::Ignore(reason) => !is_clone(mark) && frame_flow(packet@) == Err::<
                Parsed,
                Diagnostic,
            >(reason),
            Opening::Lookup(candidate) => {
                &&& !is_clone(mark)
                &&& frame_flow(packet@) matches Ok(parsed)
                &&& candidate.flow@ == parsed.flow
                &&& candidate.packet == parsed.packet
                &&& candidate.flow._padding@ == zero_bytes(2)
            },
        },
{
    assert((mark & 0x8000_0000u32 != 0) == (mark >= 0x8000_0000u32)) by (bit_vector);
    assert(mark >= 0x8000_0000u32 ==> mark & !0x8000_0000u32 == mark - 0x8000_0000u32)
        by (bit_vector);
    if mark & DUPLICATE_MARK != 0 {
        return Opening::Bypass { mark: mark & !DUPLICATE_MARK };
    }
    match network_header(packet) {
        Err(_) => Opening::Ignore(Diagnostic::Malformed),
        Ok(None) => Opening::Ignore(Diagnostic::NonIp),
        Ok(Some((ether_type, offset))) => match parse_ip(packet, ether_type, offset) {
            Ok(Some((flow, parsed))) => Opening::Lookup(Candidate { flow, packet: parsed }),
            _ => Opening::Ignore(Diagnostic::Malformed),
        },
    }
}

/// A key of the rule table: how many leading bits count, and the bytes.
#[derive(Clone, Copy, Debug, PartialEq, Eq)]
pub struct RuleKey {
    pub prefix_len: u32,
    pub data: [u8; 24],
}

/// A key of the rule table with its bytes as a sequence.
pub struct TableKey {
    pub prefix_len: u32,
    pub data: Seq<u8>,
}

impl View for RuleKey {
    type V = TableKey;

    open spec fn view(&self) -> TableKey {
        TableKey { prefix_len: self.prefix_len, data: self.data@ }
    }
}

/// The bits of an address of the given family.
pub open spec fn address_bits(family: u8) -> u32 {
    if family == ADDRESS_FAMILY_IPV4 {
        32
    } else {
        128
    }
}

/// The four bytes of a number, most significant first.
pub open spec fn be_bytes(n: u32) -> Seq<u8> {
    seq![(n / 0x100_0000) as u8, (n / 0x1_0000 % 256) as u8, (n / 256 % 256) as u8, (n % 256) as u8]
}

/// Destination entries: the family, then the address.
pub open spec fn destination_data(family: u8, address: Seq<u8>) -> Seq<u8> {
    seq![family] + address + zero_bytes(7)
}

/// The byte that separates source entries from destination entries.
pub open spec fn source_namespace(family: u8) -> u8 {
    if family == ADDRESS_FAMILY_IPV4 {
        RULE_NAMESPACE_SOURCE_V4
    } else {
        RULE_NAMESPACE_SOURCE_V6
    }
}

/// Source entries: the namespace, the destination they belong to, then the
/// address.
pub open spec fn source_data(family: u8, destination_id: u32, address: Seq<u8>) -> Seq<u8> {
    seq![source_namespace(family)] + be_bytes(destination_id) + address + zero_bytes(3)
}

/// The key under which a packet's destination is looked up.
pub open spec fn destination_lookup(flow: Flow) -> TableKey {
    TableKey {
        prefix_len: (8 + address_bits(flow.family)) as u32,
        data: destination_data(flow.family, flow.destination),
    }
}

/// The key under which a packet's source is looked up below a destination.
pub open spec fn source_lookup(flow: Flow, destination_id: u32) -> TableKey {
    TableKey {
        prefix_len: (40 + address_bits(flow.family)) as u32,
        data: source_data(flow.family, destination_id, flow.source),
    }
}

/// Lays out the bytes of a destination entry.
pub fn destination_bytes(family: u8, address: &[u8; 16]) -> (r: [u8; 24])
    ensures
        r@ == destination_data(family, address@),
{
    let mut data: [u8; 24] = [0;24];
    data[0] = family;
    let mut index: usize = 0;
    while index < 16
        invariant
            index <= 16,
            data@.len() == 24,
            data@[0] == family,
            forall|i: int| 1 <= i < 1 + index ==> data@[i] == address@[i - 1],
            forall|i: int| 1 + index <= i < 24 ==> data@[i] == 0,
        decreases 16 - index,
    {
        data[1 + index] = address[index];
        index += 1;
    }
    assert(data@ =~= destination_data(family, address@));
    data
}

/// Lays out the bytes of a source entry.
pub fn source_bytes(family: u8, destination_id: u32, address: &[u8; 16]) -> (r: [u8; 24])
    ensures
        r@ == source_data(family, destination_id, address@),
{
    let mut data: [u8; 24] = [0;24];
    data[0] =
    if family == ADDRESS_FAMILY_IPV4 {
        RULE_NAMESPACE_SOURCE_V4
    } else {
        RULE_NAMESPACE_SOURCE_V6
    };
    data[1] = (destination_id / 0x100_0000) as u8;
    data[2] = (destination_id / 0x1_0000 % 256) as u8;
    data[3] = (destination_id / 256 % 256) as u8;
    data[4] = (destination_id % 256) as u8;
    let mut index: usize = 0;
    while index < 16
        invariant
            index <= 16,
            data@.len() == 24,
            data@[0] == source_namespace(family),
            forall|i: int| 1 <= i < 5 ==> data@[i] == be_bytes(destination_id)[i - 1],
            forall|i: int| 5 <= i < 5 + index ==> data@[i] == address@[i - 5],
            forall|i: int| 5 + index <= i < 24 ==> data@[i] == 0,
        decreases 16 - index,
    {
        data[5 + index] = address[index];
        index += 1;
    }
    assert(data@ =~= source_data(family, destination_id, address@));
    data
}

/// The key under which a packet's destination is looked up.
pub fn destination_key(flow: &FlowKey) -> (r: RuleKey)
    ensures
        r@ == destination_lookup(flow@),
{
    let bits: u32 = if flow.address_family == ADDRESS_FAMILY_IPV4 {
        32
    } else {
        128
    };
    RuleKey {
        prefix_len: 8 + bits,
        data: destination_bytes(flow.address_family, &flow.destination_address),
    }
}

/// The key under which a packet's source is looked up below a destination.
pub fn source_key(flow: &FlowKey, destination_id: u32) -> (r: RuleKey)
    ensures
        r@ == source_lookup(flow@, destination_id),
{
    let bits: u32 = if flow.address_family == ADDRESS_FAMILY_IPV4 {
        32
    } else {
        128
    };
    RuleKey {
        prefix_len: 40 + bits,
        data: source_bytes(flow.address_family, destination_id, &flow.source_address),
    }
}

/// What looking a destination up in the published table answered.
#[derive(Clone, Copy, Debug)]
pub enum TableLookup {
    NoTable,
    Miss,
    Found(RuleNode),
}

/// The destination that a lookup settles on, or why it settles on none.
pub open spec fn destination_choice(lookup: TableLookup) -> Result<u32, Diagnostic> {
    match lookup {
        TableLookup::NoTable => Err(Diagnostic::NoRules),
        TableLookup::Miss => Err(Diagnostic::DestinationMiss),
        TableLookup::Found(node) => if node.kind == RULE_NODE_DESTINATION {
            Ok(node.destination_id)
        } else {
            Err(Diagnostic::InvalidRule)
        },
    }
}

/// Takes the answer of the destination lookup.
pub fn destination_found(lookup: &TableLookup) -> (r: Result<u32, Diagnostic>)
    ensures
        r == destination_choice(*lookup),
{
    match lookup {
        TableLookup::NoTable => Err(Diagnostic::NoRules),
        TableLookup::Miss => Err(Diagnostic::DestinationMiss),
        TableLookup::Found(node) => if node.kind != RULE_NODE_DESTINATION {
            Err(Diagnostic::InvalidRule)
        } else {
            Ok(node.destination_id)
        },
    }
}

/// A rule that covers a packet's addresses and protocol.
#[derive(Clone, Copy, Debug)]
pub struct RuleMatch {
    pub rule: FaultRule,
    pub generation: u32,
}

/// The rule that a source lookup settles on, or why it settles on none.
pub open spec fn source_choice(flow: Flow, destination_id: u32, found: Option<RuleNode>) -> Result<
    RuleMatch,
    Diagnostic,
> {
    match found {
        None => Err(Diagnostic::SourceMiss),
        Some(node) => if node.kind != RULE_NODE_SOURCE || node.destination_id != destination_id
            || node.generation == 0 || node.rule.address_family != flow.family {
            Err(Diagnostic::InvalidRule)
        } else if node.rule.protocol != PROTOCOL_ANY && node.rule.protocol != flow.protocol {
            Err(Diagnostic::ProtocolMiss)
        } else {
            Ok(RuleMatch { rule: node.rule, generation: node.generation })
        },
    }
}

/// Takes the answer of the source lookup.
pub fn source_found(flow: &FlowKey, destination_id: u32, found: &Option<RuleNode>) -> (r: Result<
    RuleMatch,
    Diagnostic,
>)
    ensures
        r == source_choice(flow@, destination_id, *found),
{
    match found {
        None => Err(Diagnostic::SourceMiss),
        Some(node) => {
            if node.kind != RULE_NODE_SOURCE || node.destination_id != destination_id {
                return Err(Diagnostic::InvalidRule);
            }
            if node.generation == 0 || node.rule.address_family != flow.address_family {
                return Err(Diagnostic::InvalidRule);
            }
            if node.rule.protocol != PROTOCOL_ANY && node.rule.protocol != flow.protocol {
                return Err(Diagnostic::ProtocolMiss);
            }
            Ok(RuleMatch { rule: node.rule, generation: node.generation })
        },
    }
}

/// Names the datagram that a fragment belongs to.
#[derive(Clone, Copy, Debug, PartialEq, Eq)]
pub struct FragmentKey {
    pub source_address: [u8; 16],
    pub destination_address: [u8; 16],
    pub fragment_id: u32,
    pub protocol: u8,
    pub address_family: u8,
    pub _padding: [u8; 2],
}

/// A fragmented datagram with its addresses as sequences.
pub struct Datagram {
    pub source: Seq<u8>,
    pub destination: Seq<u8>,
    pub fragment_id: u32,
    pub protocol: u8,
    pub family: u8,
}

impl View for FragmentKey {
    type V = Datagram;

    open spec fn view(&self) -> Datagram {
        Datagram {
            source: self.source_address@,
            destination: self.destination_address@,
            fragment_id: self.fragment_id,
            protocol: self.protocol,
            family: self.address_family,
        }
    }
}

/// The datagram of a packet.
pub open spec fn datagram(flow: Flow, packet: ParsedPacket) -> Datagram {
    Datagram {
        source: flow.source,
        destination: flow.destination,
        fragment_id: packet.fragment_id,
        protocol: flow.protocol,
        family: flow.family,
    }
}

/// The ports of a first fragment and when they were seen.
#[derive(Clone, Copy, Debug, PartialEq, Eq)]
pub struct FragmentPorts {
    pub seen_ns: u64,
    pub source_port: u16,
    pub destination_port: u16,
    pub _padding: [u8; 4],
}

/// Names the datagram of a fragment.
pub fn fragment_key(flow: &FlowKey, packet: &ParsedPacket) -> (r: FragmentKey)
    ensures
        r@ == datagram(flow@, *packet),
        r._padding@ == zero_bytes(2),
{
    let key = FragmentKey {
        source_address: flow.source_address,
        destination_address: flow.destination_address,
        fragment_id: packet.fragment_id,
        protocol: flow.protocol,
        address_family: flow.address_family,
        _padding: [0;2],
    };
    assert(key._padding@ =~= zero_bytes(2));
    key
}

/// What is stored for the later fragments of a datagram.
pub fn remember_fragment_ports(ports: (u16, u16), now_ns: u64) -> (r: FragmentPorts)
    ensures
        r.seen_ns == now_ns,
        (r.source_port, r.destination_port) == ports,
        r._padding@ == zero_bytes(4),
{
    let value = FragmentPorts {
        seen_ns: now_ns,
        source_port: ports.0,
        destination_port: ports.1,
        _padding: [0;4],
    };
    assert(value._padding@ =~= zero_bytes(4));
    value
}

/// What a cached entry is worth at a given time.
#[derive(Clone, Copy, Debug, PartialEq, Eq)]
pub enum CachedPorts {
    /// Nothing is known of the datagram.
    Missing,
    /// The entry is too old to be trusted and is to be removed.
    Expired,
    Fresh((u16, u16)),
}

impl CachedPorts {
    /// The ports, where they may be used.
    pub open spec fn usable(self) -> Option<(u16, u16)> {
        match self {
            CachedPorts::Fresh(ports) => Some(ports),
            _ => None,
        }
    }
}

/// An entry counts for thirty seconds after its first fragment.
pub open spec fn cache_worth(entry: Option<FragmentPorts>, now_ns: u64) -> CachedPorts {
    match entry {
        None => CachedPorts::Missing,
        Some(value) => if now_ns - value.seen_ns > FRAGMENT_CACHE_TTL_NS {
            CachedPorts::Expired
        } else {
            CachedPorts::Fresh((value.source_port, value.destination_port))
        },
    }
}

/// Judges a cached entry, so that an old identification does not lend its
/// ports to a new datagram.
pub fn fragment_ports(entry: &Option<FragmentPorts>, now_ns: u64) -> (r: CachedPorts)
    ensures
        r == cache_worth(*entry, now_ns),
{
    match entry {
        None => CachedPorts::Missing,
        Some(value) => if now_ns.saturating_sub(value.seen_ns) > FRAGMENT_CACHE_TTL_NS {
            CachedPorts::Expired
        } else {
            CachedPorts::Fresh((value.source_port, value.destination_port))
        },
    }
}

/// Where the ports of a packet come from.
#[derive(Clone, Copy, Debug, PartialEq, Eq, Structural)]
pub enum PortSource {
    /// The protocol has none.
    Absent,
    /// From the first fragment of the same datagram.
    Cached,
    /// From the packet itself; remembered when more fragments follow.
    Header { remember: bool },
}

pub open spec fn ports_from(flow: Flow, packet: ParsedPacket) -> PortSource {
    if !has_ports(flow.protocol) {
        PortSource::Absent
    } else if packet.non_initial_fragment {
        PortSource::Cached
    } else {
        PortSource::Header { remember: packet.fragmented }
    }
}

/// Says where the ports of a packet come from.
pub fn port_source(flow: &FlowKey, packet: &ParsedPacket) -> (r: PortSource)
    ensures
        r == ports_from(flow@, *packet),
{
    if flow.protocol != PROTOCOL_TCP && flow.protocol != PROTOCOL_UDP {
        PortSource::Absent
    } else if packet.non_initial_fragment {
        PortSource::Cached
    } else {
        PortSource::Header { remember: packet.fragmented }
    }
}

/// The ports as they were read.
#[derive(Clone, Copy, Debug, PartialEq, Eq)]
pub enum PortReading {
    Absent,
    Cached(CachedPorts),
    Header(Result<(u16, u16), ShortPacket>),
}

/// Names the decision state of one flow under one rule of one generation.
#[derive(Clone, Copy, Debug, PartialEq, Eq)]
pub struct FlowStateKey {
    pub flow: FlowKey,
    pub rule_id: u32,
    pub generation: u32,
}

/// A packet that a rule handles.
#[derive(Clone, Copy, Debug)]
pub struct Selected {
    pub key: FlowStateKey,
    pub rule: FaultRule,
}

/// The ports of a packet for matching. A later fragment of an unknown datagram
/// has none, which only a rule for every port accepts.
pub open spec fn ports_for(rule: FaultRule, reading: PortReading) -> Result<
    (u16, u16),
    Diagnostic,
> {
    match reading {
        PortReading::Absent => Ok((0, 0)),
        PortReading::Cached(cached) => match cached.usable() {
            Some(ports) => Ok(ports),
            None => if rule.destination_port != 0 {
                Err(Diagnostic::FragmentPortMiss)
            } else {
                Ok((0, 0))
            },
        },
        PortReading::Header(Ok(ports)) => Ok(ports),
        PortReading::Header(Err(_)) => Err(Diagnostic::Malformed),
    }
}

/// Whether a rule takes a packet with these ports, and why not.
pub open spec fn selection(rule: FaultRule, reading: PortReading) -> Result<
    (u16, u16),
    Diagnostic,
> {
    match ports_for(rule, reading) {
        Err(reason) => Err(reason),
        Ok(ports) => if rule.destination_port != 0 && rule.destination_port != ports.1 {
            Err(Diagnostic::PortMiss)
        } else if rule.id >= MAX_RULES {
            Err(Diagnostic::InvalidRule)
        } else {
            Ok(ports)
        },
    }
}

/// A flow with its ports filled in.
pub open spec fn with_ports(flow: Flow, ports: (u16, u16)) -> Flow {
    Flow { source_port: ports.0, destination_port: ports.1, ..flow }
}

/// Matches the ports of a packet and settles which rule handles it.
pub fn select_rule(flow: &FlowKey, matched: &RuleMatch, reading: PortReading) -> (r: Result<
    Selected,
    Diagnostic,
>)
    ensures
        match (r, selection(matched.rule, reading)) {
            (Ok(selected), Ok(ports)) => {
                &&& selected.rule == matched.rule
                &&& selected.key.rule_id == matched.rule.id
                &&& selected.key.generation == matched.generation
                &&& selected.key.flow@ == with_ports(flow@, ports)
                &&& selected.key.flow._padding == flow._padding
            },
            (Err(actual), Err(wanted)) => actual == wanted,
            _ => false,
        },
{
    let rule = matched.rule;
    let ports = match reading {
        PortReading::Absent => (0u16, 0u16),
        PortReading::Cached(CachedPorts::Fresh(ports)) => ports,
        PortReading::Cached(_) => {
            if rule.destination_port != 0 {
                return Err(Diagnostic::FragmentPortMiss);
            }
            (0u16, 0u16)
        },
        PortReading::Header(Ok(ports)) => ports,
        PortReading::Header(Err(_)) => return Err(Diagnostic::Malformed),
    };
    if rule.destination_port != 0 && rule.destination_port != ports.1 {
        return Err(Diagnostic::PortMiss);
    }
    if rule.id >= MAX_RULES {
        return Err(Diagnostic::InvalidRule);
    }
    let mut key_flow = *flow;
    key_flow.source_port = ports.0;
    key_flow.destination_port = ports.1;
    Ok(
        Selected {
            key: FlowStateKey { flow: key_flow, rule_id: rule.id, generation: matched.generation },
            rule,
        },
    )
}

/// Whether a rule consumes the shared sequence of a flow. Random loss and
/// burst loss keep their own state.
pub open spec fn takes_index(rule: FaultRule) -> bool {
    rule.impairs() || (rule.loss_algorithm == LOSS_ALGORITHM_HASH && rule.drop_permyriad != 0)
}

/// Whether the packet takes the next number of its flow's sequence; without
/// one its index is zero.
pub fn needs_packet_index(rule: &FaultRule) -> (r: bool)
    ensures
        r == takes_index(*rule),
{
    rule.has_impairments() || (rule.loss_algorithm == LOSS_ALGORITHM_HASH && rule.drop_permyriad
        != 0)
}

/// One step of taking a number from a flow's shared counter.
#[derive(Clone, Copy, Debug, PartialEq, Eq, Structural)]
pub enum IndexStep {
    /// The number is settled. With `advance`, the counter still moves by one.
    Done { index: u64, advance: bool },
    /// Try to exchange `observed` for `next`.
    Exchange { observed: u64, next: u64, left: usize },
}

/// The next exchange, or the last observed number when none is left: reusing
/// it is safer than skipping the rule.
pub open spec fn index_attempt(observed: u64, left: usize) -> IndexStep {
    if left == 0 {
        IndexStep::Done { index: observed, advance: true }
    } else {
        IndexStep::Exchange {
            observed,
            next: observed.wrapping_add(1),
            left: (left - 1) as usize,
        }
    }
}

/// Starts taking a number. A flow whose entry was evicted in between counts
/// from zero.
pub fn next_packet_index(counter: Option<u64>) -> (r: IndexStep)
    ensures
        r == (match counter {
            None => IndexStep::Done { index: 0, advance: false },
            Some(observed) => index_attempt(observed, CAS_RETRIES),
        }),
{
    match counter {
        None => IndexStep::Done { index: 0, advance: false },
        Some(observed) => IndexStep::Exchange {
            observed,
            next: observed.wrapping_add(1),
            left: CAS_RETRIES - 1,
        },
    }
}

/// Takes the answer to an exchange: a won exchange settles the number that was
/// there before, a lost one is tried again with the number found.
pub fn packet_index_exchanged(observed: u64, left: usize, actual: u64, exchanged: bool) -> (r:
    IndexStep)
    ensures
        r == (if exchanged {
            IndexStep::Done { index: observed, advance: false }
        } else {
            index_attempt(actual, left)
        }),
{
    if exchanged {
        IndexStep::Done { index: observed, advance: false }
    } else if left == 0 {
        IndexStep::Done { index: actual, advance: true }
    } else {
        IndexStep::Exchange { observed: actual, next: actual.wrapping_add(1), left: left - 1 }
    }
}

/// The burst-loss state of a flow: which state it is in, the second of its
/// last packet and its place in the sequence.
pub struct BurstState {
    pub bad: bool,
    pub seconds: int,
    pub sequence: int,
}

/// The state in one exchangeable word: the bad bit, 32 bits of seconds and 31
/// bits of sequence.
pub open spec fn burst_word(state: BurstState) -> int {
    (if state.bad {
        0x8000_0000_0000_0000int
    } else {
        0
    }) + state.seconds * 0x8000_0000 + state.sequence
}

/// The state that a word holds.
pub open spec fn burst_state(word: u64) -> BurstState {
    BurstState {
        bad: word >= 0x8000_0000_0000_0000,
        seconds: (word as int / 0x8000_0000) % 0x1_0000_0000,
        sequence: word as int % 0x8000_0000,
    }
}

/// The second of the burst clock at a given time.
pub open spec fn burst_seconds(now_ns: u64) -> int {
    (now_ns as int / 1_000_000_000) % 0x1_0000_0000
}

/// Whether the time from one second to another is at least the given one, and
/// not none at all. The seconds wrap, so their difference is taken around the
/// wrap; from half the range on it stands for a clock that is behind.
pub open spec fn lies_behind(from_secs: int, now_secs: int, least: u32) -> bool {
    least != 0 && least <= (now_secs - from_secs) % 0x1_0000_0000 < 0x8000_0000
}

/// Whether a flow rested long enough to forget that it was in the bad state. A
/// flow without a second has had no packet yet.
pub open spec fn rested(state: BurstState, now_secs: int, rule: FaultRule) -> bool {
    state.seconds != 0 && lies_behind(state.seconds, now_secs, rule.ge_idle_reset_secs)
}

/// The burst decision on one packet: the state after it, and whether it is
/// lost.
pub open spec fn burst_decision(flow: Flow, state: BurstState, now_secs: int, rule: FaultRule) -> (
    BurstState,
    bool,
) {
    let (next_bad, lost) = burst_step(
        flow,
        state.sequence as u64,
        state.bad && !rested(state, now_secs, rule),
        rule,
    );
    (
        BurstState {
            bad: next_bad,
            seconds: now_secs,
            sequence: (state.sequence + 1) % 0x8000_0000,
        },
        lost,
    )
}

/// One step of a burst-loss decision.
#[derive(Clone, Copy, Debug, PartialEq, Eq, Structural)]
pub enum BurstStep {
    Done(bool),
    /// Try to exchange `observed` for `next`; `lost` holds if that succeeds.
    Exchange { observed: u64, next: u64, lost: bool, left: usize },
}

/// Whether a step is the attempt that the observed word calls for. Without
/// attempts left the packet is not lost.
pub open spec fn burst_attempt(
    step: BurstStep,
    flow: Flow,
    rule: FaultRule,
    now_ns: u64,
    word: u64,
    attempts: usize,
) -> bool {
    if attempts == 0 {
        step == BurstStep::Done(false)
    } else {
        let (after, lost) = burst_decision(flow, burst_state(word), burst_seconds(now_ns), rule);
        step matches BurstStep::Exchange { observed, next, lost: stated, left } && observed == word
            && next == burst_word(after) && stated == lost && left == attempts - 1
    }
}

fn is_behind(from_secs: u64, now_secs: u64, least: u32) -> (r: bool)
    requires
        from_secs < 0x1_0000_0000,
        now_secs < 0x1_0000_0000,
    ensures
        r == lies_behind(from_secs as int, now_secs as int, least),
{
    let difference: u64 = if now_secs >= from_secs {
        now_secs - from_secs
    } else {
        now_secs + 0x1_0000_0000 - from_secs
    };
    least != 0 && difference >= least as u64 && difference < 0x8000_0000
}

fn pack_burst(bad: bool, seconds: u64, sequence: u64) -> (r: u64)
    requires
        seconds < 0x1_0000_0000,
        sequence < 0x8000_0000,
    ensures
        r == burst_word(
            (BurstState { bad, seconds: seconds as int, sequence: sequence as int }),
        ),
{
    let high: u64 = if bad {
        0x8000_0000_0000_0000
    } else {
        0
    };
    high + seconds * 0x8000_0000 + sequence
}

#[verifier::spinoff_prover]
fn attempt_burst(key: &FlowStateKey, rule: &FaultRule, now_ns: u64, word: u64, attempts: usize) -> (
r: BurstStep)
    ensures
        burst_attempt(r, key.flow@, *rule, now_ns, word, attempts),
{
    if attempts == 0 {
        return BurstStep::Done(false);
    }
    let secs_wide: u64 = now_ns / 1_000_000_000;
    let now_secs: u64 = secs_wide % 0x1_0000_0000;
    let previous_bad = word >= 0x8000_0000_0000_0000;
    let previous_time: u64 = (word / 0x8000_0000) % 0x1_0000_0000;
    let sequence: u64 = word % 0x8000_0000;
    let idle = previous_time != 0 && is_behind(previous_time, now_secs, rule.ge_idle_reset_secs);
    let (next_bad, lost) = gilbert_elliott_step(
        &key.flow,
        sequence,
        previous_bad && !idle,
        rule,
    );
    let next: u64 = pack_burst(next_bad, now_secs, (sequence + 1) % 0x8000_0000);
    BurstStep::Exchange { observed: word, next, lost, left: attempts - 1 }
}

/// Starts a burst-loss decision from the flow's state word. A flow whose entry
/// was evicted in between loses nothing.
pub fn next_gilbert_elliott_decision(
    key: &FlowStateKey,
    rule: &FaultRule,
    now_ns: u64,
    word: Option<u64>,
) -> (r: BurstStep)
    ensures
        match word {
            None => r == BurstStep::Done(false),
            Some(observed) => burst_attempt(r, key.flow@, *rule, now_ns, observed, CAS_RETRIES),
        },
{
    match word {
        None => BurstStep::Done(false),
        Some(observed) => attempt_burst(key, rule, now_ns, observed, CAS_RETRIES),
    }
}

/// Takes the answer to an exchange of the state word. Giving up after the last
/// attempt keeps a contended flow from holding the classifier.
pub fn gilbert_elliott_exchanged(
    key: &FlowStateKey,
    rule: &FaultRule,
    now_ns: u64,
    lost: bool,
    left: usize,
    actual: u64,
    exchanged: bool,
) -> (r: BurstStep)
    ensures
        exchanged ==> r == BurstStep::Done(lost),
        !exchanged ==> burst_attempt(r, key.flow@, *rule, now_ns, actual, left),
{
    if exchanged {
        BurstStep::Done(lost)
    } else {
        attempt_burst(key, rule, now_ns, actual, left)
    }
}

/// Whether the loss rule takes the packet: by its place in the flow, by a
/// random sample, or as the burst process decided.
pub open spec fn loss(
    flow: Flow,
    rule: FaultRule,
    packet_index: u64,
    sample: u32,
    burst_lost: bool,
) -> bool {
    if rule.loss_algorithm == LOSS_ALGORITHM_RANDOM {
        sample_drops(rule.drop_permyriad, sample)
    } else if rule.loss_algorithm == LOSS_ALGORITHM_HASH {
        hash_drops(flow, packet_index, rule)
    } else {
        rule.loss_algorithm == LOSS_ALGORITHM_GILBERT_ELLIOTT && burst_lost
    }
}

/// Decides the loss of a packet. The sample counts for random loss alone and
/// the burst decision for burst loss alone.
pub fn loses_packet(selected: &Selected, packet_index: u64, sample: u32, burst_lost: bool) -> (r:
    bool)
    ensures
        r == loss(selected.key.flow@, selected.rule, packet_index, sample, burst_lost),
{
    if selected.rule.loss_algorithm == LOSS_ALGORITHM_RANDOM {
        should_drop_random_sample(selected.rule.drop_permyriad, sample)
    } else if selected.rule.loss_algorithm == LOSS_ALGORITHM_HASH {
        should_drop_hash(&selected.key.flow, packet_index, &selected.rule)
    } else if selected.rule.loss_algorithm == LOSS_ALGORITHM_GILBERT_ELLIOTT {
        burst_lost
    } else {
        false
    }
}

/// The pacing clock that a packet of a rule draws on.
pub fn pace_key(rule_id: u32, generation: u32) -> (r: PaceKey)
    ensures
        r == (PaceKey { rule_id, generation }),
{
    PaceKey { rule_id, generation }
}

/// One step of reserving a place on a rule's link.
#[derive(Clone, Copy, Debug, PartialEq, Eq, Structural)]
pub enum PaceStep {
    /// The time at which the packet leaves, or none: the packet is dropped
    /// rather than released beyond the configured rate.
    Done(Option<u64>),
    /// Try to exchange `observed` for `next`; `delivery` holds if that
    /// succeeds.
    Exchange { observed: u64, delivery: u64, next: u64, left: usize },
}

/// A packet leaves when it asked to, or when the link becomes free if that is
/// later; the link is then taken for as long as the packet occupies it.
pub open spec fn reservation(clock: u64, requested: u64, occupied: u64) -> (u64, u64) {
    let delivery = later(requested, clock);
    (delivery, capped_sum(delivery, occupied))
}

/// The next exchange on the pacing clock, or giving up.
pub open spec fn pace_attempt(clock: u64, requested: u64, occupied: u64, left: usize) -> PaceStep {
    if left == 0 {
        PaceStep::Done(None)
    } else {
        let (delivery, next) = reservation(clock, requested, occupied);
        PaceStep::Exchange { observed: clock, delivery, next, left: (left - 1) as usize }
    }
}

fn attempt_reservation(clock: u64, requested: u64, occupied: u64, left: usize) -> (r: PaceStep)
    ensures
        r == pace_attempt(clock, requested, occupied, left),
{
    if left == 0 {
        return PaceStep::Done(None);
    }
    let delivery: u64 = if clock > requested {
        clock
    } else {
        requested
    };
    let next: u64 = delivery.saturating_add(occupied);
    PaceStep::Exchange { observed: clock, delivery, next, left: left - 1 }
}

/// Starts reserving a place on a rule's link. Unlimited links have no clock;
/// a clock that could not be stored drops the packet.
pub fn reserve_delivery_time(requested: u64, packet_len: u32, bps: u64, clock: Option<u64>) -> (r:
    PaceStep)
    ensures
        r == (if bps == 0 {
            PaceStep::Done(Some(requested))
        } else {
            match clock {
                None => PaceStep::Done(None),
                Some(observed) => pace_attempt(
                    observed,
                    requested,
                    wire_time(packet_len, bps) as u64,
                    CAS_RETRIES,
                ),
            }
        }),
{
    if bps == 0 {
        return PaceStep::Done(Some(requested));
    }
    match clock {
        None => PaceStep::Done(None),
        Some(observed) => attempt_reservation(
            observed,
            requested,
            serialization_delay_ns(packet_len, bps),
            CAS_RETRIES,
        ),
    }
}

/// Takes the answer to an exchange of the pacing clock.
pub fn delivery_time_exchanged(
    requested: u64,
    packet_len: u32,
    bps: u64,
    delivery: u64,
    left: usize,
    actual: u64,
    exchanged: bool,
) -> (r: PaceStep)
    ensures
        r == (if exchanged {
            PaceStep::Done(Some(delivery))
        } else {
            pace_attempt(actual, requested, wire_time(packet_len, bps) as u64, left)
        }),
{
    if exchanged {
        PaceStep::Done(Some(delivery))
    } else {
        attempt_reservation(actual, requested, serialization_delay_ns(packet_len, bps), left)
    }
}

/// The impairments drawn for one packet.
#[derive(Clone, Copy, Debug, PartialEq, Eq, Structural)]
pub struct ImpairmentPlan {
    pub reordered: bool,
    pub duplicate: bool,
    /// The time from which artificial delay counts.
    pub base: u64,
    /// The time at which the packet asks to leave.
    pub requested: u64,
}

pub open spec fn impairment_plan(
    flow: Flow,
    packet_index: u64,
    rule: FaultRule,
    now: u64,
    tstamp: u64,
) -> ImpairmentPlan {
    let reordered = falls_under(
        draw(flow, packet_index, rule, REORDER_DOMAIN),
        rule.reorder_permyriad,
    );
    let base = later(now, tstamp);
    ImpairmentPlan {
        reordered,
        duplicate: falls_under(
            draw(flow, packet_index, rule, DUPLICATE_DOMAIN),
            rule.duplicate_permyriad,
        ),
        base,
        requested: capped_sum(base, packet_delay(flow, packet_index, rule, reordered)),
    }
}

/// Draws the impairments of a packet that is not lost.
pub fn plan_impairments(selected: &Selected, packet_index: u64, now: u64, tstamp: u64) -> (r:
    ImpairmentPlan)
    ensures
        r == impairment_plan(selected.key.flow@, packet_index, selected.rule, now, tstamp),
        r.requested >= r.base >= tstamp,
{
    let flow = &selected.key.flow;
    let rule = &selected.rule;
    let reordered = seeded_hit(flow, packet_index, rule, REORDER_DOMAIN, rule.reorder_permyriad);
    let delay: u64 = seeded_delay_ns(flow, packet_index, rule, reordered);
    let base: u64 = edt_base_ns(now, tstamp);
    let requested: u64 = base.saturating_add(delay);
    let duplicate = seeded_hit(flow, packet_index, rule, DUPLICATE_DOMAIN, rule.duplicate_permyriad);
    ImpairmentPlan { reordered, duplicate, base, requested }
}

/// The times at which a packet and its clone leave.
#[derive(Clone, Copy, Debug, PartialEq, Eq, Structural)]
pub struct Departure {
    pub delivery: u64,
    pub duplicate: Option<u64>,
}

/// Both reservations of a packet. A clone occupies the link as the packet
/// does, so without a place for it the packet is dropped too.
pub open spec fn departure(plan: ImpairmentPlan, first: Option<u64>, second: Option<u64>) -> Result<
    Departure,
    PacketMarks,
> {
    match first {
        None => Err(
            PacketMarks {
                dropped: false,
                duplicated: false,
                reordered: plan.reordered,
                delayed: false,
                pacing_dropped: true,
            },
        ),
        Some(delivery) => if !plan.duplicate {
            Ok(Departure { delivery, duplicate: None })
        } else {
            match second {
                None => Err(
                    PacketMarks {
                        dropped: false,
                        duplicated: false,
                        reordered: plan.reordered,
                        delayed: delivery > plan.base,
                        pacing_dropped: true,
                    },
                ),
                Some(clone) => Ok(Departure { delivery, duplicate: Some(clone) }),
            }
        },
    }
}

/// Takes the reservations of a packet. The second one is asked for only when a
/// clone was drawn and the first one succeeded.
pub fn settle_departure(plan: &ImpairmentPlan, first: Option<u64>, second: Option<u64>) -> (r:
    Result<Departure, PacketMarks>)
    ensures
        r == departure(*plan, first, second),
{
    match first {
        None => Err(
            PacketMarks {
                dropped: false,
                duplicated: false,
                reordered: plan.reordered,
                delayed: false,
                pacing_dropped: true,
            },
        ),
        Some(delivery) => {
            if !plan.duplicate {
                return Ok(Departure { delivery, duplicate: None });
            }
            match second {
                None => Err(
                    PacketMarks {
                        dropped: false,
                        duplicated: false,
                        reordered: plan.reordered,
                        delayed: delivery > plan.base,
                        pacing_dropped: true,
                    },
                ),
                Some(clone) => Ok(Departure { delivery, duplicate: Some(clone) }),
            }
        },
    }
}

/// A mark with the clone bit set.
pub open spec fn marked_as_clone(mark: u32) -> u32 {
    if is_clone(mark) {
        mark
    } else {
        (mark + 0x8000_0000) as u32
    }
}

/// The mark of a clone: the packet's own mark with the clone bit set, which
/// takes it past the classifier on its second way through.
pub fn clone_mark(mark: u32) -> (r: u32)
    ensures
        r == marked_as_clone(mark),
        is_clone(r),
{
    assert(mark | 0x8000_0000u32 >= 0x8000_0000u32) by (bit_vector);
    assert(mark >= 0x8000_0000u32 ==> mark | 0x8000_0000u32 == mark) by (bit_vector);
    assert(mark < 0x8000_0000u32 ==> (mark | 0x8000_0000u32) == mark + 0x8000_0000u32)
        by (bit_vector);
    mark | DUPLICATE_MARK
}

/// What is recorded of a packet that left. Time that the sender asked for is
/// not attributed to the rule, only what was added to it.
pub open spec fn departure_marks(
    plan: ImpairmentPlan,
    departure: Departure,
    cloned: bool,
) -> PacketMarks {
    let duplicated = departure.duplicate is Some && cloned;
    PacketMarks {
        dropped: false,
        duplicated,
        reordered: plan.reordered,
        delayed: departure.delivery > plan.base || (duplicated && departure.duplicate->0
            > plan.base),
        pacing_dropped: false,
    }
}

impl Departure {
    /// The timestamp that a packet leaves with: that of its place on the link,
    /// unless a packet without a clone came with a later one.
    pub open spec fn time_after(self, tstamp: u64) -> u64 {
        if self.duplicate is Some || self.delivery > tstamp {
            self.delivery
        } else {
            tstamp
        }
    }
}

/// The timestamp that a packet leaves with, given the one it came with.
pub fn leaving_time(departure: &Departure, tstamp: u64) -> (r: u64)
    ensures
        r == departure.time_after(tstamp),
{
    if departure.duplicate.is_some() || departure.delivery > tstamp {
        departure.delivery
    } else {
        tstamp
    }
}

/// Records what became of a packet, and whether sending its clone succeeded.
pub fn apply_impairments(plan: &ImpairmentPlan, departure: &Departure, cloned: bool) -> (r:
    PacketMarks)
    ensures
        r == departure_marks(*plan, *departure, cloned),
{
    let (duplicated, clone_delayed) = match departure.duplicate {
        Some(time) => (cloned, cloned && time > plan.base),
        None => (false, false),
    };
    PacketMarks {
        dropped: false,
        duplicated,
        reordered: plan.reordered,
        delayed: departure.delivery > plan.base || clone_delayed,
        pacing_dropped: false,
    }
}

/// The marks of a lost packet.
pub fn loss_marks(lost: bool) -> (r: PacketMarks)
    ensures
        r == (PacketMarks {
            dropped: lost,
            duplicated: false,
            reordered: false,
            delayed: false,
            pacing_dropped: false,
        }),
{
    PacketMarks {
        dropped: lost,
        duplicated: false,
        reordered: false,
        delayed: false,
        pacing_dropped: false,
    }
}

pub open spec fn marked_action(marks: PacketMarks) -> Action {
    if marks.dropped || marks.pacing_dropped {
        Action::Drop
    } else {
        Action::Pass
    }
}

/// What becomes of a matched packet.
pub fn action_for(marks: &PacketMarks) -> (r: Action)
    ensures
        r == marked_action(*marks),
{
    if marks.dropped || marks.pacing_dropped {
        Action::Drop
    } else {
        Action::Pass
    }
}

/// Segments that a packet counts for: at least one.
pub fn counted_segments(gso_segs: u32) -> (r: u32)
    ensures
        r == (if gso_segs == 0 {
            1
        } else {
            gso_segs
        }),
{
    if gso_segs == 0 {
        1
    } else {
        gso_segs
    }
}

/// Bytes that a packet counts for: its length on the wire where that is known.
pub fn counted_bytes(wire_len: u32, packet_len: u32) -> (r: u32)
    ensures
        r == (if wire_len == 0 {
            packet_len
        } else {
            wire_len
        }),
{
    if wire_len == 0 {
        packet_len
    } else {
        wire_len
    }
}

/// A counter moved by an amount, if it applies.
pub open spec fn bumped(counter: u64, amount: u64, applies: bool) -> u64 {
    if applies {
        counter.wrapping_add(amount)
    } else {
        counter
    }
}

/// The counters of a rule after one packet.
pub open spec fn counted(stats: RuleStats, segments: u32, bytes: u32, marks: PacketMarks) -> RuleStats {
    RuleStats {
        matched: bumped(stats.matched, 1, true),
        dropped: bumped(stats.dropped, 1, marks.dropped),
        matched_segments: bumped(stats.matched_segments, segments as u64, true),
        dropped_segments: bumped(stats.dropped_segments, segments as u64, marks.dropped),
        matched_bytes: bumped(stats.matched_bytes, bytes as u64, true),
        dropped_bytes: bumped(stats.dropped_bytes, bytes as u64, marks.dropped),
        gso_skbs: bumped(stats.gso_skbs, 1, segments > 1),
        duplicated: bumped(stats.duplicated, 1, marks.duplicated),
        reordered: bumped(stats.reordered, 1, marks.reordered),
        delayed: bumped(stats.delayed, 1, marks.delayed),
        pacing_dropped: bumped(stats.pacing_dropped, 1, marks.pacing_dropped),
    }
}

/// Counts one matched packet.
pub fn update_stats(stats: &mut RuleStats, segments: u32, bytes: u32, marks: &PacketMarks)
    ensures
        *final(stats) == counted(*old(stats), segments, bytes, *marks),
{
    stats.matched = stats.matched.wrapping_add(1);
    stats.matched_segments = stats.matched_segments.wrapping_add(segments as u64);
    stats.matched_bytes = stats.matched_bytes.wrapping_add(bytes as u64);
    if segments > 1 {
        stats.gso_skbs = stats.gso_skbs.wrapping_add(1);
    }
    if marks.dropped {
        stats.dropped = stats.dropped.wrapping_add(1);
        stats.dropped_segments = stats.dropped_segments.wrapping_add(segments as u64);
        stats.dropped_bytes = stats.dropped_bytes.wrapping_add(bytes as u64);
    }
    if marks.duplicated {
        stats.duplicated = stats.duplicated.wrapping_add(1);
    }
    if marks.reordered {
        stats.reordered = stats.reordered.wrapping_add(1);
    }
    if marks.delayed {
        stats.delayed = stats.delayed.wrapping_add(1);
    }
    if marks.pacing_dropped {
        stats.pacing_dropped = stats.pacing_dropped.wrapping_add(1);
    }
}

/// The diagnostics after one more packet of the given reason.
pub open spec fn diagnosed(stats: DiagnosticStats, reason: Diagnostic) -> DiagnosticStats {
    DiagnosticStats {
        seen: bumped(stats.seen, 1, reason == Diagnostic::Seen),
        duplicate_bypass: bumped(stats.duplicate_bypass, 1, reason == Diagnostic::DuplicateBypass),
        non_ip: bumped(stats.non_ip, 1, reason == Diagnostic::NonIp),
        malformed: bumped(stats.malformed, 1, reason == Diagnostic::Malformed),
        no_rules: bumped(stats.no_rules, 1, reason == Diagnostic::NoRules),
        destination_miss: bumped(stats.destination_miss, 1, reason == Diagnostic::DestinationMiss),
        source_miss: bumped(stats.source_miss, 1, reason == Diagnostic::SourceMiss),
        protocol_miss: bumped(stats.protocol_miss, 1, reason == Diagnostic::ProtocolMiss),
        fragment_port_miss: bumped(
            stats.fragment_port_miss,
            1,
            reason == Diagnostic::FragmentPortMiss,
        ),
        port_miss: bumped(stats.port_miss, 1, reason == Diagnostic::PortMiss),
        invalid_rule: bumped(stats.invalid_rule, 1, reason == Diagnostic::InvalidRule),
    }
}

/// Counts one packet under a reason.
pub fn update_diagnostic(stats: &mut DiagnosticStats, reason: Diagnostic)
    ensures
        *final(stats) == diagnosed(*old(stats), reason),
{
    match reason {
        Diagnostic::Seen => {
            stats.seen = stats.seen.wrapping_add(1);
        },
        Diagnostic::DuplicateBypass => {
            stats.duplicate_bypass = stats.duplicate_bypass.wrapping_add(1);
        },
        Diagnostic::NonIp => {
            stats.non_ip = stats.non_ip.wrapping_add(1);
        },
        Diagnostic::Malformed => {
            stats.malformed = stats.malformed.wrapping_add(1);
        },
        Diagnostic::NoRules => {
            stats.no_rules = stats.no_rules.wrapping_add(1);
        },
        Diagnostic::DestinationMiss => {
            stats.destination_miss = stats.destination_miss.wrapping_add(1);
        },
        Diagnostic::SourceMiss => {
            stats.source_miss = stats.source_miss.wrapping_add(1);
        },
        Diagnostic::ProtocolMiss => {
            stats.protocol_miss = stats.protocol_miss.wrapping_add(1);
        },
        Diagnostic::FragmentPortMiss => {
            stats.fragment_port_miss = stats.fragment_port_miss.wrapping_add(1);
        },
        Diagnostic::PortMiss => {
            stats.port_miss = stats.port_miss.wrapping_add(1);
        },
        Diagnostic::InvalidRule => {
            stats.invalid_rule = stats.invalid_rule.wrapping_add(1);
        },
    }
}

/// What the kernel says of a packet besides its bytes.
#[derive(Clone, Copy, Debug, PartialEq, Eq, Structural)]
pub struct SkBuff {
    pub mark: u32,
    pub tstamp: u64,
    pub gso_segs: u32,
    pub wire_len: u32,
}

/// Everything that the maps, the clock and the random source answered while
/// one packet was taken through the classifier. Answers to questions that a
/// packet never asks are not looked at.
#[derive(Clone, Copy, Debug)]
pub struct Answers {
    /// The node under [`destination_key`].
    pub destination: TableLookup,
    /// The node under [`source_key`].
    pub source: Option<RuleNode>,
    /// The entry under [`fragment_key`], and when it was read.
    pub fragment: Option<FragmentPorts>,
    pub fragment_ns: u64,
    /// What [`next_packet_index`] settled on.
    pub packet_index: u64,
    pub sample: u32,
    /// What [`next_gilbert_elliott_decision`] settled on.
    pub burst_lost: bool,
    pub now_ns: u64,
    /// What [`reserve_delivery_time`] settled on, for the packet and its clone.
    pub first: Option<u64>,
    pub second: Option<u64>,
    pub cloned: bool,
}

/// A packet that a rule counts.
#[derive(Clone, Copy, Debug, PartialEq, Eq, Structural)]
pub struct Counted {
    pub rule_id: u32,
    pub segments: u32,
    pub bytes: u32,
    pub marks: PacketMarks,
}

/// How a packet is accounted for.
#[derive(Clone, Copy, Debug, PartialEq, Eq)]
pub enum Account {
    /// No rule handled it, for this reason.
    Reason(Diagnostic),
    /// A rule handled it.
    Rule(Counted),
}

/// What becomes of a packet, and how it leaves.
#[derive(Clone, Copy, Debug, PartialEq, Eq)]
pub struct Verdict {
    pub action: Action,
    pub account: Account,
    pub mark: u32,
    pub tstamp: u64,
}

/// A packet that no rule handles passes as it came.
pub open spec fn passed(skb: SkBuff, mark: u32, reason: Diagnostic) -> Verdict {
    Verdict { action: Action::Pass, account: Account::Reason(reason), mark, tstamp: skb.tstamp }
}

/// How the ports of a packet are read, given the cached entry.
pub open spec fn port_reading(bytes: Seq<u8>, parsed: Parsed, answers: Answers) -> PortReading {
    match ports_from(parsed.flow, parsed.packet) {
        PortSource::Absent => PortReading::Absent,
        PortSource::Cached => PortReading::Cached(
            cache_worth(answers.fragment, answers.fragment_ns),
        ),
        PortSource::Header { .. } => PortReading::Header(
            ports_at(bytes, parsed.packet.transport_offset as int),
        ),
    }
}

/// The rule that handles a packet and the packet's full flow, or why none does.
pub open spec fn chosen(bytes: Seq<u8>, parsed: Parsed, answers: Answers) -> Result<
    (Flow, FaultRule),
    Diagnostic,
> {
    match destination_choice(answers.destination) {
        Err(reason) => Err(reason),
        Ok(destination_id) => match source_choice(parsed.flow, destination_id, answers.source) {
            Err(reason) => Err(reason),
            Ok(matched) => match selection(matched.rule, port_reading(bytes, parsed, answers)) {
                Err(reason) => Err(reason),
                Ok(ports) => Ok((with_ports(parsed.flow, ports), matched.rule)),
            },
        },
    }
}

/// What a rule does to a packet: what is recorded of it, and its new
/// timestamp.
pub open spec fn treated(flow: Flow, rule: FaultRule, tstamp: u64, answers: Answers) -> (
    PacketMarks,
    u64,
) {
    let index = if takes_index(rule) {
        answers.packet_index
    } else {
        0
    };
    let lost = loss(flow, rule, index, answers.sample, answers.burst_lost);
    if lost || !rule.impairs() {
        (
            PacketMarks {
                dropped: lost,
                duplicated: false,
                reordered: false,
                delayed: false,
                pacing_dropped: false,
            },
            tstamp,
        )
    } else {
        let plan = impairment_plan(flow, index, rule, answers.now_ns, tstamp);
        match departure(plan, answers.first, answers.second) {
            Err(marks) => (marks, tstamp),
            Ok(leaves) => (
                departure_marks(plan, leaves, answers.cloned),
                leaves.time_after(tstamp),
            ),
        }
    }
}

/// The verdict on a packet, given everything that was answered.
pub open spec fn verdict(bytes: Seq<u8>, skb: SkBuff, answers: Answers) -> Verdict {
    if is_clone(skb.mark) {
        passed(skb, unmarked(skb.mark), Diagnostic::DuplicateBypass)
    } else {
        match frame_flow(bytes) {
            Err(reason) => passed(skb, skb.mark, reason),
            Ok(parsed) => match chosen(bytes, parsed, answers) {
                Err(reason) => passed(skb, skb.mark, reason),
                Ok((flow, rule)) => {
                    let (marks, tstamp) = treated(flow, rule, skb.tstamp, answers);
                    Verdict {
                        action: marked_action(marks),
                        account: Account::Rule(
                            Counted {
                                rule_id: rule.id,
                                segments: if skb.gso_segs == 0 {
                                    1
                                } else {
                                    skb.gso_segs
                                },
                                bytes: if skb.wire_len == 0 {
                                    bytes.len() as u32
                                } else {
                                    skb.wire_len
                                },
                                marks,
                            },
                        ),
                        mark: skb.mark,
                        tstamp,
                    }
                },
            },
        }
    }
}

fn choose_rule(packet: &[u8], candidate: &Candidate, answers: &Answers) -> (r: Result<
    Selected,
    Diagnostic,
>)
    ensures
        match (
            r,
            chosen(packet@, Parsed { flow: candidate.flow@, packet: candidate.packet }, *answers),
        ) {
            (Ok(selected), Ok((flow, rule))) => selected.key.flow@ == flow && selected.rule == rule
                && rule.id < MAX_RULES,
            (Err(actual), Err(wanted)) => actual == wanted,
            _ => false,
        },
{
    let destination_id: u32 = match destination_found(&answers.destination) {
        Ok(value) => value,
        Err(reason) => return Err(reason),
    };
    let matched = match source_found(&candidate.flow, destination_id, &answers.source) {
        Ok(value) => value,
        Err(reason) => return Err(reason),
    };
    let reading = match port_source(&candidate.flow, &candidate.packet) {
        PortSource::Absent => PortReading::Absent,
        PortSource::Cached => PortReading::Cached(
            fragment_ports(&answers.fragment, answers.fragment_ns),
        ),
        PortSource::Header { .. } => PortReading::Header(
            transport_ports(packet, candidate.packet.transport_offset),
        ),
    };
    select_rule(&candidate.flow, &matched, reading)
}

fn treat(selected: &Selected, tstamp: u64, answers: &Answers) -> (r: (PacketMarks, u64))
    ensures
        r == treated(selected.key.flow@, selected.rule, tstamp, *answers),
{
    let index: u64 = if needs_packet_index(&selected.rule) {
        answers.packet_index
    } else {
        0
    };
    let lost = loses_packet(selected, index, answers.sample, answers.burst_lost);
    if lost || !selected.rule.has_impairments() {
        return (loss_marks(lost), tstamp);
    }
    let plan = plan_impairments(selected, index, answers.now_ns, tstamp);
    match settle_departure(&plan, answers.first, answers.second) {
        Err(marks) => (marks, tstamp),
        Ok(leaves) => {
            let marks = apply_impairments(&plan, &leaves, answers.cloned);
            (marks, leaving_time(&leaves, tstamp))
        },
    }
}

/// Takes a packet through all decisions at once, for answers that were
/// gathered before: from the frame to the counters, the action, the mark and
/// the timestamp it leaves with.
pub fn try_faultline_classifier(packet: &[u8], skb: &SkBuff, answers: &Answers) -> (r: Verdict)
    requires
        packet@.len() <= u32::MAX,
    ensures
        r == verdict(packet@, *skb, *answers),
{
    let reason = match faultline_classifier(packet, skb.mark) {
        Opening::Bypass { mark } => {
            return Verdict {
                action: Action::Pass,
                account: Account::Reason(Diagnostic::DuplicateBypass),
                mark,
                tstamp: skb.tstamp,
            };
        },
        Opening::Ignore(reason) => reason,
        Opening::Lookup(candidate) => match choose_rule(packet, &candidate, answers) {
            Err(reason) => reason,
            Ok(selected) => {
                let (marks, tstamp) = treat(&selected, skb.tstamp, answers);
                return Verdict {
                    action: action_for(&marks),
                    account: Account::Rule(
                        Counted {
                            rule_id: selected.rule.id,
                            segments: counted_segments(skb.gso_segs),
                            bytes: counted_bytes(skb.wire_len, packet.len() as u32),
                            marks,
                        },
                    ),
                    mark: skb.mark,
                    tstamp,
                };
            },
        },
    };
    Verdict {
        action: Action::Pass,
        account: Account::Reason(reason),
        mark: skb.mark,
        tstamp: skb.tstamp,
    }
}

// ---------------------------------------------------------------------------
// Laws
// ---------------------------------------------------------------------------
/// Only a rule drops or retimes a packet: one that is accounted for by a
/// reason passes with its timestamp, and with its mark unless it is a clone.
/// A dropped packet is counted as lost or as dropped by pacing, never both,
/// under a rule number that has a counter.
pub proof fn only_rules_touch_packets(bytes: Seq<u8>, skb: SkBuff, answers: Answers)
    ensures
        verdict(bytes, skb, answers).account matches Account::Reason(reason) ==> {
            &&& verdict(bytes, skb, answers).action == Action::Pass
            &&& verdict(bytes, skb, answers).tstamp == skb.tstamp
            &&& reason != Diagnostic::Seen
            &&& reason == Diagnostic::DuplicateBypass <==> is_clone(skb.mark)
            &&& !is_clone(skb.mark) ==> verdict(bytes, skb, answers).mark == skb.mark
        },
        verdict(bytes, skb, answers).account matches Account::Rule(counted) ==> {
            &&& counted.rule_id < MAX_RULES
            &&& verdict(bytes, skb, answers).mark == skb.mark
            &&& !(counted.marks.dropped && counted.marks.pacing_dropped)
            &&& verdict(bytes, skb, answers).action == Action::Drop <==> counted.marks.dropped
                || counted.marks.pacing_dropped
            &&& counted.marks.dropped ==> verdict(bytes, skb, answers).tstamp == skb.tstamp
        },
{
}

/// The rule that a packet was counted under covers it: the node found for its
/// source names that rule, of its family, for its protocol and its port.
pub proof fn counted_packets_match_their_rule(bytes: Seq<u8>, parsed: Parsed, answers: Answers)
    ensures
        chosen(bytes, parsed, answers) matches Ok((flow, rule)) ==> {
            &&& answers.source matches Some(node) && node.rule == rule && node.generation != 0
            &&& rule.address_family == flow.family
            &&& rule.protocol == PROTOCOL_ANY || rule.protocol == flow.protocol
            &&& rule.destination_port == 0 || rule.destination_port == flow.destination_port
        },
{
}

/// Random loss without other impairments keeps no state and has no use for the
/// seed: its fate depends on the sample alone.
pub proof fn random_loss_keeps_no_state(
    flow: Flow,
    rule: FaultRule,
    seed: u32,
    tstamp: u64,
    answers: Answers,
    packet_index: u64,
)
    requires
        rule.loss_algorithm == LOSS_ALGORITHM_RANDOM,
        !rule.impairs(),
    ensures
        !takes_index(rule),
        treated(flow, FaultRule { seed, ..rule }, tstamp, Answers { packet_index, ..answers })
            == treated(flow, rule, tstamp, answers),
        treated(flow, rule, tstamp, answers).0.dropped == sample_drops(
            rule.drop_permyriad,
            answers.sample,
        ),
{
}

/// A rule without impairments does nothing but lose packets: what it does not
/// lose keeps its timestamp, is not cloned and takes no place on the link. Of
/// such rules only those of seeded loss number the packets of a flow.
pub proof fn plain_loss_leaves_packets_alone(
    flow: Flow,
    rule: FaultRule,
    tstamp: u64,
    answers: Answers,
)
    requires
        !rule.impairs(),
    ensures
        treated(flow, rule, tstamp, answers) == (
            PacketMarks {
                dropped: treated(flow, rule, tstamp, answers).0.dropped,
                duplicated: false,
                reordered: false,
                delayed: false,
                pacing_dropped: false,
            },
            tstamp,
        ),
        rule.loss_algorithm != LOSS_ALGORITHM_HASH ==> !takes_index(rule),
{
}

/// Whether counters agree with each other: what was lost, delayed or cloned
/// was matched, and what the pacing clock dropped is not among what was lost.
pub open spec fn consistent(stats: RuleStats) -> bool {
    &&& stats.dropped + stats.pacing_dropped <= stats.matched
    &&& stats.dropped_segments <= stats.matched_segments
    &&& stats.dropped_bytes <= stats.matched_bytes
    &&& stats.gso_skbs <= stats.matched
    &&& stats.duplicated <= stats.matched
    &&& stats.reordered <= stats.matched
    &&& stats.delayed <= stats.matched
}

/// Counters that agree stay in agreement, and none ever falls, for as long as
/// they have room, whatever packet the classifier counts.
pub proof fn counters_agree(stats: RuleStats, bytes: Seq<u8>, skb: SkBuff, answers: Answers)
    requires
        consistent(stats),
        verdict(bytes, skb, answers).account matches Account::Rule(counting) ==> {
            &&& stats.matched < u64::MAX
            &&& stats.matched_segments + counting.segments <= u64::MAX
            &&& stats.matched_bytes + counting.bytes <= u64::MAX
        },
    ensures
        verdict(bytes, skb, answers).account matches Account::Rule(counting) ==> {
            let after = counted(stats, counting.segments, counting.bytes, counting.marks);
            &&& consistent(after)
            &&& after.matched == stats.matched + 1
            &&& after.dropped >= stats.dropped
            &&& after.pacing_dropped >= stats.pacing_dropped
            &&& after.dropped_segments >= stats.dropped_segments
            &&& after.dropped_bytes >= stats.dropped_bytes
            &&& after.gso_skbs >= stats.gso_skbs
            &&& after.duplicated >= stats.duplicated
            &&& after.reordered >= stats.reordered
            &&& after.delayed >= stats.delayed
        },
{
    only_rules_touch_packets(bytes, skb, answers);
}

/// A rule without loss and without impairments passes what it matches
/// untouched; a rule that always loses drops everything it matches.
pub proof fn extreme_rates(flow: Flow, rule: FaultRule, tstamp: u64, answers: Answers)
    ensures
        rule.drop_permyriad == 0 && rule.loss_algorithm != LOSS_ALGORITHM_GILBERT_ELLIOTT
            && !rule.impairs() ==> marked_action(treated(flow, rule, tstamp, answers).0)
            == Action::Pass && treated(flow, rule, tstamp, answers).1 == tstamp,
        rule.drop_permyriad >= 10_000 && (rule.loss_algorithm == LOSS_ALGORITHM_HASH
            || rule.loss_algorithm == LOSS_ALGORITHM_RANDOM) ==> treated(
            flow,
            rule,
            tstamp,
            answers,
        ).0.dropped,
{
}

/// A packet never leaves before the deadline it came with, as long as its
/// place on the link is not before the time it asked for.
pub proof fn deadlines_never_move_backwards(
    flow: Flow,
    rule: FaultRule,
    tstamp: u64,
    answers: Answers,
)
    requires
        answers.first matches Some(delivery) ==> delivery >= impairment_plan(
            flow,
            answers.packet_index,
            rule,
            answers.now_ns,
            tstamp,
        ).requested,
    ensures
        treated(flow, rule, tstamp, answers).1 >= tstamp,
{
}

/// Two reservations on one clock do not overlap: the second packet leaves no
/// earlier than the first has left the link, and neither leaves before it
/// asked to. The clock never runs backwards.
pub proof fn reservations_do_not_overlap(
    clock: u64,
    first_requested: u64,
    first_occupied: u64,
    second_requested: u64,
    second_occupied: u64,
)
    requires
        later(first_requested, clock) + first_occupied <= u64::MAX,
    ensures
        ({
            let (first, after_first) = reservation(clock, first_requested, first_occupied);
            let (second, after_second) = reservation(
                after_first,
                second_requested,
                second_occupied,
            );
            &&& first >= first_requested && first >= clock
            &&& second >= second_requested
            &&& second >= first + first_occupied
            &&& clock <= after_first <= after_second
        }),
{
}

/// A clone is marked so that its second way through the classifier bypasses it
/// and gives back the mark of the packet it was made from.
pub proof fn clones_pass_once(bytes: Seq<u8>, skb: SkBuff, answers: Answers)
    requires
        !is_clone(skb.mark),
    ensures
        verdict(bytes, SkBuff { mark: marked_as_clone(skb.mark), ..skb }, answers) == passed(
            skb,
            skb.mark,
            Diagnostic::DuplicateBypass,
        ),
{
}

/// Ports that were remembered for a datagram serve its later fragments for
/// thirty seconds and no longer.
pub proof fn later_fragments_share_ports(entry: FragmentPorts, now_ns: u64)
    ensures
        cache_worth(Some(entry), now_ns).usable() == (if now_ns - entry.seen_ns
            <= FRAGMENT_CACHE_TTL_NS {
            Some((entry.source_port, entry.destination_port))
        } else {
            None
        }),
{
}

/// Reading a written burst word gives back the state that was written.
#[verifier::spinoff_prover]
pub proof fn burst_word_round_trips(state: BurstState)
    requires
        0 <= state.seconds < 0x1_0000_0000,
        0 <= state.sequence < 0x8000_0000,
    ensures
        0 <= burst_word(state) <= u64::MAX,
        burst_state(burst_word(state) as u64) == state,
{
}

/// Rest is told across the wrap of the seconds: after less than half their range
/// a flow rested exactly when the reset time has passed, and a clock that is
/// behind the stored second by no more than half the range is no rest.
#[verifier::spinoff_prover]
pub proof fn rest_is_told_across_the_wrap(state: BurstState, rule: FaultRule, seconds: int)
    requires
        0 < state.seconds < 0x1_0000_0000,
        0 <= seconds < 0x8000_0000,
    ensures
        rested(state, (state.seconds + seconds) % 0x1_0000_0000, rule) <==> 0
            < rule.ge_idle_reset_secs <= seconds,
        seconds > 0 ==> !rested(state, (state.seconds - seconds) % 0x1_0000_0000, rule),
{
}

/// A burst decision leaves a state that fits its word and whose sequence moved
/// by one.
pub proof fn burst_states_fit(flow: Flow, word: u64, now_ns: u64, rule: FaultRule)
    ensures
        ({
            let (after, lost) = burst_decision(flow, burst_state(word), burst_seconds(now_ns), rule);
            &&& 0 <= after.seconds < 0x1_0000_0000
            &&& 0 <= after.sequence < 0x8000_0000
            &&& after.sequence == (burst_state(word).sequence + 1) % 0x8000_0000
            &&& burst_state(burst_word(after) as u64) == after
        }),
{
    let (after, lost) = burst_decision(flow, burst_state(word), burst_seconds(now_ns), rule);
    burst_word_round_trips(after);
}

} // verus!
