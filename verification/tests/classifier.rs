use faultline::classifier::{
    action_for, apply_impairments, clone_mark, counted_bytes, counted_segments,
    delivery_time_exchanged, destination_found, destination_key, faultline_classifier,
    fragment_key, fragment_ports, gilbert_elliott_exchanged, loses_packet, loss_marks,
    needs_packet_index, next_gilbert_elliott_decision, next_packet_index, packet_index_exchanged,
    pace_key, plan_impairments, port_source, remember_fragment_ports, reserve_delivery_time,
    select_rule, settle_departure, source_found, source_key, try_faultline_classifier,
    update_diagnostic, update_stats, Account, Action, Answers, BurstStep, CachedPorts, Diagnostic,
    FlowStateKey, FragmentKey, FragmentPorts, IndexStep, Opening, PaceStep, PacketMarks,
    PortReading, PortSource, RuleKey, Selected, SkBuff, TableLookup,
};
use faultline::common::{
    gilbert_elliott_step, should_drop_hash, DiagnosticStats, FaultRule, FlowKey, PaceKey, RuleNode,
    RuleStats, ADDRESS_FAMILY_IPV4, ADDRESS_FAMILY_IPV6, LOSS_ALGORITHM_GILBERT_ELLIOTT,
    LOSS_ALGORITHM_HASH, LOSS_ALGORITHM_RANDOM, PROTOCOL_TCP, RULE_NAMESPACE_SOURCE_V4,
    RULE_NAMESPACE_SOURCE_V6, RULE_NODE_DESTINATION, RULE_NODE_SOURCE,
};
use faultline::control::ControlCommand;
use faultline::net::IpNet;
use faultline::packet::transport_ports;
use faultline::protocol::RuleSpec;
use faultline::rule_store::{Applied, RuleStore};

const TC_ACT_PIPE: i32 = 3;
const TC_ACT_SHOT: i32 = 2;
const DEFAULT_SEED: u64 = 0x7062_745f_6773_6f00;

/// The counters of one flow under one rule.
#[derive(Clone, Copy)]
struct FlowState {
    packet_index: u64,
    ge_state: u64,
}

/// The maps that the classifier reads and writes, held in memory.
struct Maps {
    rules: Option<Vec<(RuleKey, RuleNode)>>,
    flows: Vec<(FlowStateKey, FlowState)>,
    fragments: Vec<(FragmentKey, FragmentPorts)>,
    clocks: Vec<(PaceKey, u64)>,
    stats: RuleStats,
    diagnostics: DiagnosticStats,
    now_ns: u64,
    clones: Vec<(u32, u64)>,
}

/// What left the classifier.
#[derive(Debug, PartialEq)]
struct Outcome {
    code: i32,
    mark: u32,
    tstamp: u64,
}

fn bit(data: &[u8; 24], index: usize) -> u8 {
    (data[index / 8] >> (7 - index % 8)) & 1
}

fn longest_prefix(entries: &[(RuleKey, RuleNode)], key: &RuleKey) -> Option<RuleNode> {
    let mut best: Option<&(RuleKey, RuleNode)> = None;
    for entry in entries {
        let len = entry.0.prefix_len;
        if len > key.prefix_len || (0..len as usize).any(|i| bit(&entry.0.data, i) != bit(&key.data, i)) {
            continue;
        }
        if best.map_or(true, |found| found.0.prefix_len < len) {
            best = Some(entry);
        }
    }
    best.map(|entry| entry.1)
}

impl Maps {
    fn new(rules: Vec<(RuleKey, RuleNode)>) -> Self {
        Maps {
            rules: Some(rules),
            flows: Vec::new(),
            fragments: Vec::new(),
            clocks: Vec::new(),
            stats: RuleStats::default(),
            diagnostics: DiagnosticStats::default(),
            now_ns: 1_000_000_000,
            clones: Vec::new(),
        }
    }

    fn flow_state(&self, key: &FlowStateKey) -> Option<FlowState> {
        self.flows.iter().find(|entry| entry.0 == *key).map(|entry| entry.1)
    }

    fn flow_slot(&mut self, key: &FlowStateKey) -> usize {
        match self.flows.iter().position(|entry| entry.0 == *key) {
            Some(slot) => slot,
            None => {
                self.flows.push((*key, FlowState { packet_index: 0, ge_state: 0 }));
                self.flows.len() - 1
            }
        }
    }

    fn select(&mut self, packet: &[u8]) -> Result<Selected, Diagnostic> {
        let candidate = match faultline_classifier(packet, 0) {
            Opening::Ignore(reason) => return Err(reason),
            Opening::Lookup(candidate) => candidate,
            Opening::Bypass { .. } => unreachable!(),
        };
        let lookup = match &self.rules {
            None => TableLookup::NoTable,
            Some(rules) => match longest_prefix(rules, &destination_key(&candidate.flow)) {
                None => TableLookup::Miss,
                Some(node) => TableLookup::Found(node),
            },
        };
        let destination_id = destination_found(&lookup)?;
        let rules = self.rules.as_ref().unwrap();
        let node = longest_prefix(rules, &source_key(&candidate.flow, destination_id));
        let matched = source_found(&candidate.flow, destination_id, &node)?;
        let reading = match port_source(&candidate.flow, &candidate.packet) {
            PortSource::Absent => PortReading::Absent,
            PortSource::Cached => {
                let key = fragment_key(&candidate.flow, &candidate.packet);
                let entry = self.fragments.iter().find(|entry| entry.0 == key).map(|entry| entry.1);
                PortReading::Cached(fragment_ports(&entry, self.now_ns))
            }
            PortSource::Header { remember } => {
                let ports = transport_ports(packet, candidate.packet.transport_offset);
                if let (true, Ok(found)) = (remember, ports) {
                    let key = fragment_key(&candidate.flow, &candidate.packet);
                    self.fragments.push((key, remember_fragment_ports(found, self.now_ns)));
                }
                PortReading::Header(ports)
            }
        };
        select_rule(&candidate.flow, &matched, reading)
    }

    fn take_index(&mut self, key: &FlowStateKey) -> u64 {
        let slot = self.flow_slot(key);
        let mut step = next_packet_index(Some(self.flows[slot].1.packet_index));
        loop {
            match step {
                IndexStep::Done { index, advance } => {
                    if advance {
                        let counter = self.flows[slot].1.packet_index;
                        self.flows[slot].1.packet_index = counter.wrapping_add(1);
                    }
                    return index;
                }
                IndexStep::Exchange { observed, next, left } => {
                    self.flows[slot].1.packet_index = next;
                    step = packet_index_exchanged(observed, left, observed, true);
                }
            }
        }
    }

    fn burst(&mut self, selected: &Selected) -> bool {
        let slot = self.flow_slot(&selected.key);
        let word = self.flows[slot].1.ge_state;
        let mut step =
            next_gilbert_elliott_decision(&selected.key, &selected.rule, self.now_ns, Some(word));
        loop {
            match step {
                BurstStep::Done(lost) => return lost,
                BurstStep::Exchange { observed, next, lost, left } => {
                    self.flows[slot].1.ge_state = next;
                    step = gilbert_elliott_exchanged(
                        &selected.key,
                        &selected.rule,
                        self.now_ns,
                        lost,
                        left,
                        observed,
                        true,
                    );
                }
            }
        }
    }

    fn reserve(&mut self, selected: &Selected, requested: u64, length: u32) -> Option<u64> {
        let key = pace_key(selected.key.rule_id, selected.key.generation);
        let bps = selected.rule.bandwidth_bps;
        let slot = match self.clocks.iter().position(|entry| entry.0 == key) {
            Some(slot) => slot,
            None => {
                self.clocks.push((key, 0));
                self.clocks.len() - 1
            }
        };
        let mut step = reserve_delivery_time(requested, length, bps, Some(self.clocks[slot].1));
        loop {
            match step {
                PaceStep::Done(time) => return time,
                PaceStep::Exchange { observed, delivery, next, left } => {
                    self.clocks[slot].1 = next;
                    step = delivery_time_exchanged(
                        requested, length, bps, delivery, left, observed, true,
                    );
                }
            }
        }
    }

    fn treat(&mut self, packet: &[u8], skb: &SkBuff, selected: &Selected) -> (PacketMarks, u64) {
        let index =
            if needs_packet_index(&selected.rule) { self.take_index(&selected.key) } else { 0 };
        let burst = selected.rule.loss_algorithm == LOSS_ALGORITHM_GILBERT_ELLIOTT
            && self.burst(selected);
        let lost = loses_packet(selected, index, 9_999, burst);
        if lost || !selected.rule.has_impairments() {
            return (loss_marks(lost), skb.tstamp);
        }
        let plan = plan_impairments(selected, index, self.now_ns, skb.tstamp);
        let length = packet.len() as u32;
        let first = self.reserve(selected, plan.requested, length);
        let second = if plan.duplicate && first.is_some() {
            self.reserve(selected, plan.requested, length)
        } else {
            None
        };
        match settle_departure(&plan, first, second) {
            Err(marks) => (marks, skb.tstamp),
            Ok(leaves) => {
                if let Some(time) = leaves.duplicate {
                    self.clones.push((clone_mark(skb.mark), time));
                }
                let tstamp = leaves.delivery.max(skb.tstamp);
                (apply_impairments(&plan, &leaves, leaves.duplicate.is_some()), tstamp)
            }
        }
    }

    fn run(&mut self, packet: &[u8], skb: &SkBuff) -> Outcome {
        update_diagnostic(&mut self.diagnostics, Diagnostic::Seen);
        if let Opening::Bypass { mark } = faultline_classifier(packet, skb.mark) {
            update_diagnostic(&mut self.diagnostics, Diagnostic::DuplicateBypass);
            return Outcome { code: Action::Pass.code(), mark, tstamp: skb.tstamp };
        }
        match self.select(packet) {
            Err(reason) => {
                update_diagnostic(&mut self.diagnostics, reason);
                Outcome { code: Action::Pass.code(), mark: skb.mark, tstamp: skb.tstamp }
            }
            Ok(selected) => {
                let (marks, tstamp) = self.treat(packet, skb, &selected);
                update_stats(
                    &mut self.stats,
                    counted_segments(skb.gso_segs),
                    counted_bytes(skb.wire_len, packet.len() as u32),
                    &marks,
                );
                Outcome { code: action_for(&marks).code(), mark: skb.mark, tstamp }
            }
        }
    }

    fn code(&mut self, packet: &[u8]) -> i32 {
        self.run(packet, &skb(0, 0)).code
    }
}

fn skb(gso_segs: u32, wire_len: u32) -> SkBuff {
    SkBuff { mark: 0, tstamp: 0, gso_segs, wire_len }
}

fn node(kind: u32, destination_id: u32, generation: u32, rule: FaultRule) -> RuleNode {
    RuleNode { kind, destination_id, generation, _padding: 0, rule }
}

fn destination_entry(family: u8, address: &[u8], bits: u32, id: u32, generation: u32) -> (RuleKey, RuleNode) {
    let mut data = [0u8; 24];
    data[0] = family;
    data[1..1 + address.len()].copy_from_slice(address);
    let key = RuleKey { prefix_len: 8 + bits, data };
    (key, node(RULE_NODE_DESTINATION, id, generation, FaultRule::default()))
}

fn source_entry(
    namespace: u8,
    destination_id: u32,
    address: &[u8],
    bits: u32,
    generation: u32,
    rule: FaultRule,
) -> (RuleKey, RuleNode) {
    let mut data = [0u8; 24];
    data[0] = namespace;
    data[1..5].copy_from_slice(&destination_id.to_be_bytes());
    data[5..5 + address.len()].copy_from_slice(address);
    let key = RuleKey { prefix_len: 40 + bits, data };
    (key, node(RULE_NODE_SOURCE, destination_id, generation, rule))
}

fn v4_ruleset(rule: FaultRule, generation: u32) -> Vec<(RuleKey, RuleNode)> {
    vec![
        destination_entry(ADDRESS_FAMILY_IPV4, &[10, 20], 16, 0, generation),
        source_entry(RULE_NAMESPACE_SOURCE_V4, 0, &[], 0, generation, rule),
    ]
}

fn v6_ruleset(rule: FaultRule, generation: u32) -> Vec<(RuleKey, RuleNode)> {
    vec![
        destination_entry(
            ADDRESS_FAMILY_IPV6,
            &[0x20, 0x01, 0x0d, 0xb8, 0x00, 0x20],
            48,
            0,
            generation,
        ),
        source_entry(RULE_NAMESPACE_SOURCE_V6, 0, &[], 0, generation, rule),
    ]
}

fn half_rule() -> FaultRule {
    FaultRule {
        seed: 42,
        drop_permyriad: 5_000,
        protocol: PROTOCOL_TCP,
        loss_algorithm: LOSS_ALGORITHM_HASH,
        destination_port: 443,
        address_family: ADDRESS_FAMILY_IPV4,
        ..FaultRule::default()
    }
}

fn v6(groups: [u16; 8]) -> [u8; 16] {
    let mut bytes = [0u8; 16];
    for (index, group) in groups.iter().enumerate() {
        bytes[2 * index..2 * index + 2].copy_from_slice(&group.to_be_bytes());
    }
    bytes
}

fn v4_bytes(address: [u8; 4]) -> [u8; 16] {
    let mut bytes = [0u8; 16];
    bytes[..4].copy_from_slice(&address);
    bytes
}

fn tcp_flow(source: [u8; 4], destination: [u8; 4], source_port: u16) -> FlowKey {
    FlowKey {
        source_address: v4_bytes(source),
        destination_address: v4_bytes(destination),
        source_port,
        destination_port: 443,
        protocol: PROTOCOL_TCP,
        address_family: ADDRESS_FAMILY_IPV4,
        _padding: [0; 2],
    }
}

fn ipv4_tcp_packet_with_vlans(
    source: [u8; 4],
    destination: [u8; 4],
    source_port: u16,
    destination_port: u16,
    vlan_ethertypes: &[u16],
) -> Vec<u8> {
    let mut packet = vec![0u8; 54 + vlan_ethertypes.len() * 4];
    packet[0..6].copy_from_slice(&[0x02, 0, 0, 0, 0, 2]);
    packet[6..12].copy_from_slice(&[0x02, 0, 0, 0, 0, 1]);
    packet[12..14]
        .copy_from_slice(&vlan_ethertypes.first().copied().unwrap_or(0x0800).to_be_bytes());
    let mut network_offset = 14;
    for (index, _) in vlan_ethertypes.iter().enumerate() {
        let next = vlan_ethertypes.get(index + 1).copied().unwrap_or(0x0800);
        packet[network_offset + 2..network_offset + 4].copy_from_slice(&next.to_be_bytes());
        network_offset += 4;
    }
    packet[network_offset] = 0x45;
    packet[network_offset + 2..network_offset + 4].copy_from_slice(&40u16.to_be_bytes());
    packet[network_offset + 8] = 64;
    packet[network_offset + 9] = PROTOCOL_TCP;
    packet[network_offset + 12..network_offset + 16].copy_from_slice(&source);
    packet[network_offset + 16..network_offset + 20].copy_from_slice(&destination);
    let transport = network_offset + 20;
    packet[transport..transport + 2].copy_from_slice(&source_port.to_be_bytes());
    packet[transport + 2..transport + 4].copy_from_slice(&destination_port.to_be_bytes());
    packet[transport + 12] = 0x50;
    packet
}

fn ipv4_tcp_packet(
    source: [u8; 4],
    destination: [u8; 4],
    source_port: u16,
    destination_port: u16,
    payload_len: usize,
) -> Vec<u8> {
    let mut packet = ipv4_tcp_packet_with_vlans(source, destination, source_port, destination_port, &[]);
    packet.resize(54 + payload_len, 0);
    packet[16..18].copy_from_slice(&((40 + payload_len) as u16).to_be_bytes());
    packet
}

fn ipv4_tcp_fragment(
    source: [u8; 4],
    destination: [u8; 4],
    identification: u16,
    fragment_offset: u16,
    more_fragments: bool,
    ports: Option<(u16, u16)>,
) -> Vec<u8> {
    let payload_len = if ports.is_some() { 24 } else { 8 };
    let mut packet = vec![0u8; 14 + 20 + payload_len];
    packet[12..14].copy_from_slice(&0x0800u16.to_be_bytes());
    packet[14] = 0x45;
    packet[16..18].copy_from_slice(&((20 + payload_len) as u16).to_be_bytes());
    packet[18..20].copy_from_slice(&identification.to_be_bytes());
    let fragment = fragment_offset | if more_fragments { 0x2000 } else { 0 };
    packet[20..22].copy_from_slice(&fragment.to_be_bytes());
    packet[22] = 64;
    packet[23] = PROTOCOL_TCP;
    packet[26..30].copy_from_slice(&source);
    packet[30..34].copy_from_slice(&destination);
    if let Some((source_port, destination_port)) = ports {
        packet[34..36].copy_from_slice(&source_port.to_be_bytes());
        packet[36..38].copy_from_slice(&destination_port.to_be_bytes());
        packet[46] = 0x50;
    }
    packet
}

fn ipv6_tcp_fragment(
    source: [u8; 16],
    destination: [u8; 16],
    identification: u32,
    fragment_offset: u16,
    more_fragments: bool,
    ports: Option<(u16, u16)>,
) -> Vec<u8> {
    let payload_len = if ports.is_some() { 24 } else { 8 };
    let mut packet = vec![0u8; 14 + 40 + 8 + payload_len];
    packet[12..14].copy_from_slice(&0x86ddu16.to_be_bytes());
    packet[14] = 0x60;
    packet[18..20].copy_from_slice(&((8 + payload_len) as u16).to_be_bytes());
    packet[20] = 44;
    packet[21] = 64;
    packet[22..38].copy_from_slice(&source);
    packet[38..54].copy_from_slice(&destination);
    packet[54] = PROTOCOL_TCP;
    let fragment = (fragment_offset << 3) | u16::from(more_fragments);
    packet[56..58].copy_from_slice(&fragment.to_be_bytes());
    packet[58..62].copy_from_slice(&identification.to_be_bytes());
    if let Some((source_port, destination_port)) = ports {
        packet[62..64].copy_from_slice(&source_port.to_be_bytes());
        packet[64..66].copy_from_slice(&destination_port.to_be_bytes());
        packet[74] = 0x50;
    }
    packet
}

fn ipv6_packet(
    source: [u8; 16],
    destination: [u8; 16],
    source_port: u16,
    destination_port: u16,
    protocol: u8,
    extension_count: usize,
    declared_transport: bool,
) -> Vec<u8> {
    let extension_len = extension_count * 8;
    let mut packet = vec![0u8; 14 + 40 + extension_len + 20];
    packet[12..14].copy_from_slice(&0x86ddu16.to_be_bytes());
    packet[14] = 0x60;
    let declared = extension_len + if declared_transport { 20 } else { 0 };
    packet[18..20].copy_from_slice(&(declared as u16).to_be_bytes());
    packet[20] = if extension_count == 0 { protocol } else { 0 };
    packet[21] = 64;
    packet[22..38].copy_from_slice(&source);
    packet[38..54].copy_from_slice(&destination);
    for extension in 0..extension_count {
        let offset = 54 + extension * 8;
        packet[offset] = if extension + 1 == extension_count { protocol } else { 0 };
    }
    let transport = 54 + extension_len;
    packet[transport..transport + 2].copy_from_slice(&source_port.to_be_bytes());
    packet[transport + 2..transport + 4].copy_from_slice(&destination_port.to_be_bytes());
    packet
}

struct SplitMix64(u64);

impl SplitMix64 {
    fn next(&mut self) -> u64 {
        self.0 = self.0.wrapping_add(0x9e37_79b9_7f4a_7c15);
        let mut value = self.0;
        value = (value ^ (value >> 30)).wrapping_mul(0xbf58_476d_1ce4_e5b9);
        value = (value ^ (value >> 27)).wrapping_mul(0x94d0_49bb_1331_11eb);
        value ^ (value >> 31)
    }

    fn bounded(&mut self, upper: u64) -> u64 {
        self.next() % upper
    }
}

#[test]
fn classifier_matches_ipv4_ipv6_vlan_and_fragments() {
    let specific = FaultRule {
        id: 0,
        seed: 42,
        drop_permyriad: 10_000,
        source_network: v4_bytes([192, 0, 2, 1]),
        source_mask: v4_bytes([255, 255, 255, 255]),
        protocol: PROTOCOL_TCP,
        loss_algorithm: LOSS_ALGORITHM_HASH,
        destination_port: 443,
        source_prefix_len: 32,
        address_family: ADDRESS_FAMILY_IPV4,
        ..FaultRule::default()
    };
    let catch_all = FaultRule {
        id: 1,
        drop_permyriad: 0,
        source_network: [0; 16],
        source_mask: [0; 16],
        source_prefix_len: 0,
        ..specific
    };
    let v6_source = v6([0x2001, 0xdb8, 0x10, 0, 0, 0, 0, 0]);
    let v6_rule = FaultRule {
        id: 2,
        seed: 42,
        drop_permyriad: 10_000,
        source_network: v6_source,
        source_mask: v6([0xffff, 0xffff, 0xffff, 0, 0, 0, 0, 0]),
        protocol: PROTOCOL_TCP,
        loss_algorithm: LOSS_ALGORITHM_HASH,
        destination_port: 443,
        source_prefix_len: 48,
        address_family: ADDRESS_FAMILY_IPV6,
        ..FaultRule::default()
    };
    let mut maps = Maps::new(vec![
        destination_entry(ADDRESS_FAMILY_IPV4, &[10, 20, 0, 0], 16, 0, 1),
        source_entry(RULE_NAMESPACE_SOURCE_V4, 0, &[192, 0, 2, 1], 32, 1, specific),
        source_entry(RULE_NAMESPACE_SOURCE_V4, 0, &[], 0, 1, catch_all),
        destination_entry(
            ADDRESS_FAMILY_IPV6,
            &v6([0x2001, 0xdb8, 0x20, 0, 0, 0, 0, 0]),
            48,
            1,
            1,
        ),
        source_entry(RULE_NAMESPACE_SOURCE_V6, 1, &v6_source, 48, 1, v6_rule),
    ]);
    let source = [192, 0, 2, 1];
    let destination = [10, 20, 1, 2];
    let matching = ipv4_tcp_packet_with_vlans(source, destination, 40_000, 443, &[]);
    let wrong_port = ipv4_tcp_packet_with_vlans(source, destination, 40_000, 80, &[]);
    let wrong_source = ipv4_tcp_packet_with_vlans([192, 0, 2, 2], destination, 40_000, 443, &[]);
    let outside = ipv4_tcp_packet_with_vlans(source, [10, 21, 1, 2], 40_000, 443, &[]);
    let dot1q = ipv4_tcp_packet_with_vlans(source, destination, 40_000, 443, &[0x8100]);
    let qinq = ipv4_tcp_packet_with_vlans(source, destination, 40_000, 443, &[0x88a8, 0x8100]);
    let too_many =
        ipv4_tcp_packet_with_vlans(source, destination, 40_000, 443, &[0x88a8, 0x8100, 0x8100]);
    let from = v6([0x2001, 0xdb8, 0x10, 0, 0, 0, 0, 1]);
    let to = v6([0x2001, 0xdb8, 0x20, 0, 0, 0, 0, 2]);
    let plain6 = ipv6_packet(from, to, 40_000, 443, PROTOCOL_TCP, 0, true);
    let hop_by_hop = ipv6_packet(from, to, 40_000, 443, PROTOCOL_TCP, 1, true);
    let ports = Some((40_000, 443));
    let first4 = ipv4_tcp_fragment(source, destination, 0x1234, 0, true, ports);
    let later4 = ipv4_tcp_fragment(source, destination, 0x1234, 1, false, None);
    let unknown4 = ipv4_tcp_fragment(source, destination, 0x4321, 1, false, None);
    let first6 = ipv6_tcp_fragment(from, to, 0x1234_5678, 0, true, ports);
    let later6 = ipv6_tcp_fragment(from, to, 0x1234_5678, 1, false, None);
    let unknown6 = ipv6_tcp_fragment(from, to, 0x8765_4321, 1, false, None);

    assert_eq!(maps.code(&matching), TC_ACT_SHOT);
    assert_eq!(maps.code(&wrong_port), TC_ACT_PIPE);
    assert_eq!(maps.code(&wrong_source), TC_ACT_PIPE);
    assert_eq!(maps.code(&outside), TC_ACT_PIPE);
    assert_eq!(maps.code(&dot1q), TC_ACT_SHOT);
    assert_eq!(maps.code(&qinq), TC_ACT_SHOT);
    assert_eq!(maps.code(&too_many), TC_ACT_PIPE);
    assert_eq!(maps.code(&plain6), TC_ACT_SHOT);
    assert_eq!(maps.code(&hop_by_hop), TC_ACT_SHOT);
    assert_eq!(maps.code(&unknown4), TC_ACT_PIPE);
    assert_eq!(maps.code(&first4), TC_ACT_SHOT);
    assert_eq!(maps.code(&later4), TC_ACT_SHOT);
    assert_eq!(maps.code(&unknown6), TC_ACT_PIPE);
    assert_eq!(maps.code(&first6), TC_ACT_SHOT);
    assert_eq!(maps.code(&later6), TC_ACT_SHOT);

    let seen = maps.diagnostics;
    assert_eq!(seen.seen, 15);
    assert_eq!(seen.port_miss, 1);
    assert_eq!(seen.destination_miss, 1);
    assert_eq!(seen.fragment_port_miss, 2);

    maps.now_ns += 30_000_000_001;
    assert_eq!(maps.code(&later4), TC_ACT_PIPE);
    assert_eq!(maps.diagnostics.fragment_port_miss, 3);
}

#[test]
fn generated_gso_skb_sequences_match_the_skb_reference_model() {
    let rule = half_rule();
    let mut maps = Maps::new(v4_ruleset(rule, 1));
    let mut model = RuleStats::default();
    for case in 0..256u32 {
        let mut random = SplitMix64(DEFAULT_SEED ^ case as u64);
        let source = [192, 0, 2, 1];
        let destination = [10, 20, (case >> 8) as u8, case as u8];
        let source_port = 1024 + (case % 50_000) as u16;
        let packet_count = 1 + random.bounded(32);
        let flow = tcp_flow(source, destination, source_port);
        for packet_index in 0..packet_count {
            let gso_segs_raw = match random.bounded(8) {
                0 => 0,
                1 => 1,
                2 => 2,
                3 => 16,
                _ => 1 + random.bounded(64) as u32,
            };
            let gso_segs = gso_segs_raw.max(1);
            let gso_size = match random.bounded(8) {
                0 => 0,
                1 => 1,
                2 => 63,
                3 => 64,
                4 => 1_400,
                5 => u16::MAX as u32,
                _ => 64 + random.bounded(1400) as u32,
            };
            let logical = ((gso_segs as u64) * (gso_size as u64)).min(60_000) as u32;
            let packet =
                ipv4_tcp_packet(source, destination, source_port, 443, logical.min(3_000) as usize);
            let wire_len = if random.bounded(4) == 0 { 0 } else { 14 + 20 + 20 + logical };
            let code = maps.run(&packet, &skb(gso_segs_raw, wire_len)).code;
            let dropped = should_drop_hash(&flow, packet_index, &rule);
            assert_eq!(code == TC_ACT_SHOT, dropped);
            let bytes = if wire_len == 0 { packet.len() as u64 } else { wire_len as u64 };
            model.matched += 1;
            model.matched_segments += gso_segs as u64;
            model.matched_bytes += bytes;
            model.gso_skbs += (gso_segs > 1) as u64;
            if dropped {
                model.dropped += 1;
                model.dropped_segments += gso_segs as u64;
                model.dropped_bytes += bytes;
            }
        }
    }
    assert_eq!(maps.stats.matched, model.matched);
    assert_eq!(maps.stats.dropped, model.dropped);
    assert_eq!(maps.stats.matched_segments, model.matched_segments);
    assert_eq!(maps.stats.dropped_segments, model.dropped_segments);
    assert_eq!(maps.stats.matched_bytes, model.matched_bytes);
    assert_eq!(maps.stats.dropped_bytes, model.dropped_bytes);
    assert_eq!(maps.stats.gso_skbs, model.gso_skbs);
}

#[test]
fn generation_swap_restarts_flow_state_without_changing_the_hash_model() {
    let rule = half_rule();
    let mut maps = Maps::new(v4_ruleset(rule, 1));
    let packet = ipv4_tcp_packet([192, 0, 2, 1], [10, 20, 1, 1], 20_001, 443, 512);
    let flow = tcp_flow([192, 0, 2, 1], [10, 20, 1, 1], 20_001);
    let mut sequences = Vec::new();
    for generation in [1, 2] {
        maps.rules = Some(v4_ruleset(rule, generation));
        let mut decisions = Vec::new();
        for packet_index in 0..8 {
            let actual = maps.run(&packet, &skb(1, packet.len() as u32)).code == TC_ACT_SHOT;
            assert_eq!(actual, should_drop_hash(&flow, packet_index, &rule));
            decisions.push(actual);
        }
        sequences.push(decisions);
    }
    assert_eq!(sequences[0], sequences[1], "a new generation must restart the hash sequence");
    for generation in [1, 2] {
        let key = FlowStateKey { flow, rule_id: rule.id, generation };
        assert_eq!(maps.flow_state(&key).unwrap().packet_index, 8);
    }
}

#[test]
fn pass_through_rule_preserves_tstamp_and_skips_flow_state() {
    let rule = FaultRule {
        id: 0,
        seed: 42,
        protocol: PROTOCOL_TCP,
        loss_algorithm: LOSS_ALGORITHM_RANDOM,
        destination_port: 443,
        address_family: ADDRESS_FAMILY_IPV4,
        ..FaultRule::default()
    };
    let mut maps = Maps::new(v4_ruleset(rule, 7));
    let packet = ipv4_tcp_packet([192, 0, 2, 1], [10, 20, 1, 1], 20_001, 443, 64);
    let context =
        SkBuff { mark: 0, tstamp: 123_456, gso_segs: 1, wire_len: packet.len() as u32 };
    let out = maps.run(&packet, &context);
    assert_eq!(out.code, TC_ACT_PIPE);
    assert_eq!(out.tstamp, context.tstamp);
    let flow = tcp_flow([192, 0, 2, 1], [10, 20, 1, 1], 20_001);
    assert!(
        maps.flow_state(&FlowStateKey { flow, rule_id: rule.id, generation: 7 }).is_none(),
        "a pass-through random rule must not allocate flow state"
    );
}

#[test]
fn generated_gilbert_elliott_sequences_match_the_reference_model() {
    let rates = [0, 1, 2_500, 5_000, 9_999, 10_000];
    let mut maps = Maps::new(Vec::new());
    for case in 0..256u32 {
        let mut random = SplitMix64(DEFAULT_SEED ^ 0x6765_5f70_6274_0000 ^ case as u64);
        let rule = FaultRule {
            id: 0,
            seed: random.next() as u32,
            loss_algorithm: LOSS_ALGORITHM_GILBERT_ELLIOTT,
            ge_enter_permyriad: rates[random.bounded(6) as usize],
            ge_recover_permyriad: rates[random.bounded(6) as usize],
            ge_good_loss_permyriad: rates[random.bounded(6) as usize],
            ge_bad_loss_permyriad: rates[random.bounded(6) as usize],
            protocol: PROTOCOL_TCP,
            destination_port: 443,
            address_family: ADDRESS_FAMILY_IPV4,
            ..FaultRule::default()
        };
        let generation = case + 1;
        maps.rules = Some(v4_ruleset(rule, generation));
        let source = [192, 0, 2, 1];
        let destination = [10, 20, (case >> 8) as u8, case as u8];
        let source_port = 1024 + (case % 50_000) as u16;
        let flow = tcp_flow(source, destination, source_port);
        let packet = ipv4_tcp_packet(source, destination, source_port, 443, 64);
        let count = 1 + random.bounded(64);
        let mut bad = false;
        for packet_index in 0..count {
            let (next_bad, expected) = gilbert_elliott_step(&flow, packet_index, bad, &rule);
            let actual = maps.run(&packet, &skb(1, packet.len() as u32)).code == TC_ACT_SHOT;
            assert_eq!(actual, expected, "case={case} packet={packet_index}");
            bad = next_bad;
        }
        let state = maps.flow_state(&FlowStateKey { flow, rule_id: rule.id, generation }).unwrap();
        assert_eq!(state.packet_index, 0);
        assert_eq!(state.ge_state & ((1 << 31) - 1), count);
    }
}

#[test]
fn generated_ipv4_parser_and_rule_boundaries_match_the_model() {
    let mut rule = half_rule();
    rule.drop_permyriad = 10_000;
    let mut maps = Maps::new(v4_ruleset(rule, 2));
    let mut matched = 0u64;
    for case in 0..256u32 {
        let mut random = SplitMix64(DEFAULT_SEED ^ 0x7061_7273_6572_0000 ^ case as u64);
        let vlan_depth = random.bounded(4) as usize;
        let ihl_words = 5 + random.bounded(11) as u8;
        let tcp = random.bounded(2) == 0;
        let port_matches = random.bounded(2) == 0;
        let destination_matches = random.bounded(2) == 0;
        let declared_transport = random.bounded(4) != 0;
        let source = [192, 0, random.next() as u8, random.next() as u8];
        let second = if destination_matches { 20 } else { 21 };
        let destination = [10, second, random.next() as u8, random.next() as u8];
        let destination_port: u16 = if port_matches { 443 } else { 80 };
        let protocol = if tcp { PROTOCOL_TCP } else { 17 };

        let network = 14 + vlan_depth * 4;
        let header = ihl_words as usize * 4;
        let mut packet = vec![0u8; network + header + 20];
        if vlan_depth == 0 {
            packet[12..14].copy_from_slice(&0x0800u16.to_be_bytes());
        } else {
            packet[12..14].copy_from_slice(&0x88a8u16.to_be_bytes());
            for tag in 0..vlan_depth {
                let next: u16 = if tag + 1 == vlan_depth { 0x0800 } else { 0x8100 };
                packet[16 + tag * 4..18 + tag * 4].copy_from_slice(&next.to_be_bytes());
            }
        }
        packet[network] = 0x40 | ihl_words;
        let declared = header + if declared_transport { 20 } else { 0 };
        packet[network + 2..network + 4].copy_from_slice(&(declared as u16).to_be_bytes());
        packet[network + 8] = 64;
        packet[network + 9] = protocol;
        packet[network + 12..network + 16].copy_from_slice(&source);
        packet[network + 16..network + 20].copy_from_slice(&destination);
        let transport = network + header;
        packet[transport..transport + 2].copy_from_slice(&(20_000 + case as u16).to_be_bytes());
        packet[transport + 2..transport + 4].copy_from_slice(&destination_port.to_be_bytes());

        let expected =
            vlan_depth <= 2 && tcp && port_matches && destination_matches && declared_transport;
        let actual = maps.run(&packet, &skb(0, packet.len() as u32)).code == TC_ACT_SHOT;
        assert_eq!(actual, expected, "case={case}");
        matched += expected as u64;
    }
    assert!(matched > 0);
    assert_eq!(maps.stats.matched, matched);
}

#[test]
fn generated_ipv6_extensions_and_payload_length_match_the_model() {
    let rule = FaultRule {
        id: 0,
        drop_permyriad: 10_000,
        protocol: PROTOCOL_TCP,
        loss_algorithm: LOSS_ALGORITHM_HASH,
        destination_port: 443,
        address_family: ADDRESS_FAMILY_IPV6,
        ..FaultRule::default()
    };
    let mut maps = Maps::new(v6_ruleset(rule, 2));
    let mut matched = 0u64;
    for case in 0..256u32 {
        let mut random = SplitMix64(DEFAULT_SEED ^ 0x6970_7636_5f70_6274 ^ case as u64);
        let extension_count = random.bounded(8) as usize;
        let tcp = random.bounded(2) == 0;
        let port_matches = random.bounded(2) == 0;
        let destination_matches = random.bounded(2) == 0;
        let declared_transport = random.bounded(4) != 0;
        let source = v6([0x2001, 0xdb8, 0x10, case as u16, 0, 0, 0, 1]);
        let third = if destination_matches { 0x20 } else { 0x21 };
        let destination = v6([0x2001, 0xdb8, third, case as u16, 0, 0, 0, 2]);
        let packet = ipv6_packet(
            source,
            destination,
            30_000u16.wrapping_add(case as u16),
            if port_matches { 443 } else { 80 },
            if tcp { PROTOCOL_TCP } else { 17 },
            extension_count,
            declared_transport,
        );
        let expected = extension_count <= 6
            && tcp
            && port_matches
            && destination_matches
            && declared_transport;
        let actual = maps.run(&packet, &skb(0, packet.len() as u32)).code == TC_ACT_SHOT;
        assert_eq!(actual, expected, "case={case}");
        matched += expected as u64;
    }
    assert!(matched > 0);
}

#[test]
fn more_than_sixteen_source_rules_can_share_one_destination() {
    let mut rules = vec![destination_entry(ADDRESS_FAMILY_IPV4, &[10, 20], 16, 0, 2)];
    for host in 1..=17u8 {
        let rule = FaultRule {
            id: host as u32 - 1,
            seed: 42,
            drop_permyriad: if host == 17 { 10_000 } else { 0 },
            source_network: v4_bytes([192, 0, 2, host]),
            source_mask: v4_bytes([255, 255, 255, 255]),
            protocol: PROTOCOL_TCP,
            loss_algorithm: LOSS_ALGORITHM_HASH,
            destination_port: 443,
            source_prefix_len: 32,
            address_family: ADDRESS_FAMILY_IPV4,
            ..FaultRule::default()
        };
        rules.push(source_entry(RULE_NAMESPACE_SOURCE_V4, 0, &[192, 0, 2, host], 32, 2, rule));
    }
    let mut maps = Maps::new(rules);
    let matching = ipv4_tcp_packet([192, 0, 2, 17], [10, 20, 1, 1], 20_017, 443, 64);
    let missing = ipv4_tcp_packet([192, 0, 2, 18], [10, 20, 1, 1], 20_018, 443, 64);
    assert_eq!(maps.code(&matching), TC_ACT_SHOT);
    assert_eq!(maps.code(&missing), TC_ACT_PIPE);
    assert_eq!(maps.diagnostics.source_miss, 1);
}

#[test]
fn flow_sequence_wraps_at_u64_boundary() {
    let rule = half_rule();
    let mut maps = Maps::new(v4_ruleset(rule, 1));
    let packet = ipv4_tcp_packet([192, 0, 2, 1], [10, 20, 1, 1], 20_001, 443, 64);
    let flow = tcp_flow([192, 0, 2, 1], [10, 20, 1, 1], 20_001);
    let key = FlowStateKey { flow, rule_id: 0, generation: 1 };
    let slot = maps.flow_slot(&key);
    maps.flows[slot].1.packet_index = u64::MAX;
    let last = maps.code(&packet) == TC_ACT_SHOT;
    assert_eq!(last, should_drop_hash(&flow, u64::MAX, &rule));
    assert_eq!(maps.flow_state(&key).unwrap().packet_index, 0);
    let first = maps.code(&packet) == TC_ACT_SHOT;
    assert_eq!(first, should_drop_hash(&flow, 0, &rule));
}

#[test]
fn delay_bandwidth_and_clones_take_a_packet_through_the_queue() {
    let rule = FaultRule {
        delay_ns: 5_000_000,
        bandwidth_bps: 8_000_000,
        duplicate_permyriad: 10_000,
        drop_permyriad: 0,
        ..half_rule()
    };
    let mut maps = Maps::new(v4_ruleset(rule, 1));
    let packet = ipv4_tcp_packet([192, 0, 2, 1], [10, 20, 1, 1], 20_001, 443, 946);
    assert_eq!(packet.len(), 1_000);
    let out = maps.run(&packet, &SkBuff { mark: 7, tstamp: 0, gso_segs: 0, wire_len: 0 });
    assert_eq!(out, Outcome { code: TC_ACT_PIPE, mark: 7, tstamp: 1_005_000_000 });
    assert_eq!(maps.clones, vec![(0x8000_0007, 1_006_000_000)]);
    assert_eq!(maps.clocks[0].1, 1_007_000_000);
    assert_eq!(maps.stats.duplicated, 1);
    assert_eq!(maps.stats.delayed, 1);
    let back = maps.run(&packet, &SkBuff { mark: 0x8000_0007, tstamp: 3, gso_segs: 0, wire_len: 0 });
    assert_eq!(back, Outcome { code: TC_ACT_PIPE, mark: 7, tstamp: 3 });
    assert_eq!(maps.stats.matched, 1);
    assert_eq!(maps.diagnostics.duplicate_bypass, 1);
}

#[test]
fn contention_gives_up_without_holding_the_packet() {
    assert_eq!(
        next_packet_index(Some(4)),
        IndexStep::Exchange { observed: 4, next: 5, left: 1 }
    );
    let retry = packet_index_exchanged(4, 1, 9, false);
    assert_eq!(retry, IndexStep::Exchange { observed: 9, next: 10, left: 0 });
    assert_eq!(
        packet_index_exchanged(9, 0, 12, false),
        IndexStep::Done { index: 12, advance: true }
    );
    assert_eq!(next_packet_index(None), IndexStep::Done { index: 0, advance: false });

    let flow = tcp_flow([192, 0, 2, 1], [10, 20, 1, 1], 20_001);
    let key = FlowStateKey { flow, rule_id: 0, generation: 1 };
    let rule = FaultRule { ge_bad_loss_permyriad: 10_000, ..half_rule() };
    assert_eq!(
        gilbert_elliott_exchanged(&key, &rule, 5, true, 0, 77, false),
        BurstStep::Done(false)
    );
    assert_eq!(next_gilbert_elliott_decision(&key, &rule, 5, None), BurstStep::Done(false));

    assert_eq!(reserve_delivery_time(9, 100, 0, None), PaceStep::Done(Some(9)));
    assert_eq!(reserve_delivery_time(9, 100, 1_000, None), PaceStep::Done(None));
    assert_eq!(
        delivery_time_exchanged(9, 100, 8_000_000_000, 9, 0, 50, false),
        PaceStep::Done(None)
    );
    assert_eq!(
        delivery_time_exchanged(9, 100, 8_000_000_000, 9, 1, 50, false),
        PaceStep::Exchange { observed: 50, delivery: 50, next: 150, left: 0 }
    );
}

#[test]
fn an_idle_flow_leaves_the_bad_state() {
    let rule = FaultRule {
        loss_algorithm: LOSS_ALGORITHM_GILBERT_ELLIOTT,
        ge_enter_permyriad: 0,
        ge_recover_permyriad: 0,
        ge_good_loss_permyriad: 0,
        ge_bad_loss_permyriad: 10_000,
        ge_idle_reset_secs: 5,
        ..half_rule()
    };
    let mut maps = Maps::new(v4_ruleset(rule, 1));
    let packet = ipv4_tcp_packet([192, 0, 2, 1], [10, 20, 1, 1], 20_001, 443, 64);
    let flow = tcp_flow([192, 0, 2, 1], [10, 20, 1, 1], 20_001);
    let key = FlowStateKey { flow, rule_id: 0, generation: 1 };
    let slot = maps.flow_slot(&key);
    maps.now_ns = 10_000_000_000;
    maps.flows[slot].1.ge_state = (1 << 63) | (7 << 31);
    assert_eq!(maps.code(&packet), TC_ACT_SHOT);
    maps.now_ns = 15_000_000_000;
    assert_eq!(maps.code(&packet), TC_ACT_PIPE);
}

#[test]
fn rest_is_measured_across_the_wrap_of_the_seconds() {
    const RANGE: u64 = 1 << 32;
    let rule = FaultRule {
        loss_algorithm: LOSS_ALGORITHM_GILBERT_ELLIOTT,
        ge_bad_loss_permyriad: 10_000,
        ge_idle_reset_secs: 10,
        ..half_rule()
    };
    let packet = ipv4_tcp_packet([192, 0, 2, 1], [10, 20, 1, 1], 20_001, 443, 64);
    let flow = tcp_flow([192, 0, 2, 1], [10, 20, 1, 1], 20_001);
    let key = FlowStateKey { flow, rule_id: 0, generation: 1 };
    let cases = [
        (RANGE - 1, RANGE, TC_ACT_SHOT),
        (RANGE - 1, RANGE + 8, TC_ACT_SHOT),
        (RANGE - 1, RANGE + 9, TC_ACT_PIPE),
        (RANGE - 1, RANGE - 2, TC_ACT_SHOT),
        (8, 7, TC_ACT_SHOT),
        (8, 17, TC_ACT_SHOT),
        (8, 18, TC_ACT_PIPE),
        (1, RANGE - 1, TC_ACT_SHOT),
        (1, RANGE / 2, TC_ACT_PIPE),
        (1, RANGE / 2 + 1, TC_ACT_SHOT),
    ];
    for (stored, now, wanted) in cases {
        let mut maps = Maps::new(v4_ruleset(rule, 1));
        let slot = maps.flow_slot(&key);
        maps.flows[slot].1.ge_state = (1 << 63) | (stored << 31);
        maps.now_ns = now * 1_000_000_000;
        assert_eq!(maps.code(&packet), wanted);
    }
}

#[test]
fn frames_are_told_apart_by_what_is_wrong_with_them() {
    let good = ipv4_tcp_packet([192, 0, 2, 1], [10, 20, 1, 1], 20_001, 443, 0);
    let mut arp = good.clone();
    arp[12..14].copy_from_slice(&0x0806u16.to_be_bytes());
    let mut maps = Maps::new(Vec::new());
    maps.rules = None;
    for packet in [&good[..], &arp[..], &good[..13], &good[..30]] {
        assert_eq!(maps.code(packet), TC_ACT_PIPE);
    }
    assert_eq!(maps.diagnostics.seen, 4);
    assert_eq!(maps.diagnostics.no_rules, 1);
    assert_eq!(maps.diagnostics.non_ip, 1);
    assert_eq!(maps.diagnostics.malformed, 2);

    let udp_rule = FaultRule { protocol: 17, ..half_rule() };
    maps.rules = Some(v4_ruleset(udp_rule, 1));
    maps.code(&good);
    assert_eq!(maps.diagnostics.protocol_miss, 1);
    maps.rules = Some(v4_ruleset(half_rule(), 0));
    maps.code(&good);
    assert_eq!(maps.diagnostics.invalid_rule, 1);
}

#[test]
fn gathered_answers_give_the_verdict_of_the_steps() {
    let rule = FaultRule { drop_permyriad: 10_000, ..half_rule() };
    let entries = v4_ruleset(rule, 3);
    let answers = Answers {
        destination: TableLookup::Found(entries[0].1),
        source: Some(entries[1].1),
        fragment: None,
        fragment_ns: 0,
        packet_index: 0,
        sample: 0,
        burst_lost: false,
        now_ns: 0,
        first: None,
        second: None,
        cloned: false,
    };
    let packet = ipv4_tcp_packet([192, 0, 2, 1], [10, 20, 1, 1], 20_001, 443, 10);
    let context = SkBuff { mark: 1, tstamp: 2, gso_segs: 0, wire_len: 0 };
    let lost = try_faultline_classifier(&packet, &context, &answers);
    assert_eq!(lost.action, Action::Drop);
    match lost.account {
        Account::Rule(counted) => {
            assert_eq!((counted.rule_id, counted.segments, counted.bytes), (0, 1, 64));
            assert!(counted.marks.dropped);
        }
        Account::Reason(_) => panic!("a rule handles the packet"),
    }
    let missed = try_faultline_classifier(
        &packet,
        &context,
        &Answers { destination: TableLookup::Miss, ..answers },
    );
    assert_eq!(missed.action, Action::Pass);
    assert_eq!(missed.account, Account::Reason(Diagnostic::DestinationMiss));
    let held = FaultRule { drop_permyriad: 0, bandwidth_bps: 1, ..rule };
    let paced = try_faultline_classifier(
        &packet,
        &context,
        &Answers { source: Some(v4_ruleset(held, 3)[1].1), ..answers },
    );
    assert_eq!(paced.action, Action::Drop);
    assert!(matches!(paced.account, Account::Rule(counted) if counted.marks.pacing_dropped));
}

#[test]
fn fragment_ports_expire_after_thirty_seconds() {
    let entry = Some(remember_fragment_ports((40_000, 443), 10));
    assert_eq!(fragment_ports(&entry, 30_000_000_010), CachedPorts::Fresh((40_000, 443)));
    assert_eq!(fragment_ports(&entry, 30_000_000_011), CachedPorts::Expired);
    assert_eq!(fragment_ports(&entry, 5), CachedPorts::Fresh((40_000, 443)));
    assert_eq!(fragment_ports(&None, 5), CachedPorts::Missing);
}

#[test]
fn random_loss_follows_the_sample_and_neither_the_seed_nor_the_flow() {
    let packet = ipv4_tcp_packet([192, 0, 2, 1], [10, 20, 1, 1], 20_001, 443, 10);
    let context = SkBuff { mark: 1, tstamp: 2, gso_segs: 0, wire_len: 0 };
    for (sample, action) in [(0, Action::Drop), (u32::MAX, Action::Pass)] {
        for (seed, packet_index) in [(1, 0), (1, 9), (77, 0), (77, 9)] {
            let rule = FaultRule {
                seed,
                drop_permyriad: 5_000,
                loss_algorithm: LOSS_ALGORITHM_RANDOM,
                ..half_rule()
            };
            assert!(!needs_packet_index(&rule));
            let entries = v4_ruleset(rule, 3);
            let verdict = try_faultline_classifier(
                &packet,
                &context,
                &Answers {
                    destination: TableLookup::Found(entries[0].1),
                    source: Some(entries[1].1),
                    fragment: None,
                    fragment_ns: 0,
                    packet_index,
                    sample,
                    burst_lost: false,
                    now_ns: 0,
                    first: None,
                    second: None,
                    cloned: false,
                },
            );
            assert_eq!(verdict.action, action);
        }
    }
}

fn filter(id: u32, source: Option<&str>, destination: &str, drop_permyriad: u32) -> RuleSpec {
    RuleSpec {
        id,
        source: source.map(|text| IpNet::parse(text).unwrap()),
        destination: IpNet::parse(destination).unwrap(),
        protocol: PROTOCOL_TCP,
        loss_algorithm: LOSS_ALGORITHM_HASH,
        destination_port: 0,
        drop_permyriad,
        ge_enter_permyriad: 0,
        ge_recover_permyriad: 0,
        ge_good_loss_permyriad: 0,
        ge_bad_loss_permyriad: 0,
        ge_idle_reset_secs: 0,
        duplicate_permyriad: 0,
        reorder_permyriad: 0,
        delay_ns: 0,
        jitter_ns: 0,
        bandwidth_bps: 0,
        seed: 1,
    }
}

#[test]
fn the_longest_prefixes_win_in_whatever_order_rules_are_written() {
    let mut rules = vec![
        filter(0, None, "10.0.0.0/8", 10_000),
        filter(1, None, "10.20.0.0/16", 10_000),
        filter(2, Some("192.0.2.0/24"), "10.20.0.0/16", 0),
        filter(3, Some("192.0.2.9/32"), "10.20.0.0/16", 10_000),
        filter(4, Some("198.51.100.0/24"), "10.20.1.0/24", 0),
    ];
    let cases = [
        ([192, 0, 2, 1], [10, 30, 0, 1], Some(0)),
        ([203, 0, 113, 1], [10, 20, 0, 1], Some(1)),
        ([192, 0, 2, 1], [10, 20, 0, 1], Some(2)),
        ([192, 0, 2, 9], [10, 20, 0, 1], Some(3)),
        ([198, 51, 100, 7], [10, 20, 1, 1], Some(4)),
        ([192, 0, 2, 1], [10, 20, 1, 1], None),
        ([192, 0, 2, 1], [11, 0, 0, 1], None),
    ];
    for _ in 0..2 {
        let command = ControlCommand::ReplaceRules(rules.clone());
        let Ok(Applied::Publish(generation)) = RuleStore::new().apply(&command) else {
            panic!("the rules make a table");
        };
        let entries = generation.entries.iter().map(|entry| (entry.key, entry.node)).collect();
        let mut maps = Maps::new(entries);
        for (source, destination, wanted) in cases {
            let packet = ipv4_tcp_packet(source, destination, 20_000, 443, 10);
            let found = maps.select(&packet).ok().map(|selected| selected.rule.id);
            assert_eq!(found, wanted);
        }
        rules.reverse();
    }
}

#[test]
fn counters_of_lost_packets_stay_within_those_of_matched_ones() {
    let mut maps = Maps::new(v4_ruleset(half_rule(), 7));
    for index in 0..1_000u32 {
        let before = maps.stats;
        let packet = ipv4_tcp_packet([192, 0, 2, 1], [10, 20, 1, 1], 20_001, 443, 64);
        maps.run(&packet, &skb(index % 5, 100 + index));
        let after = maps.stats;
        assert_eq!(after.matched, before.matched + 1);
        assert!(after.dropped >= before.dropped && after.dropped <= after.matched);
        assert!(after.dropped_segments <= after.matched_segments);
        assert!(after.dropped_bytes <= after.matched_bytes);
        assert!(after.gso_skbs <= after.matched);
        assert_eq!(after.pacing_dropped, 0);
    }
    assert!(maps.stats.dropped > 400 && maps.stats.dropped < 600);
}
