//! Which packets a rule meets, in terms of their bytes.

use vstd::prelude::*;
use crate::classifier::{
    chosen, datagram, frame_flow, is_clone, marked_as_clone, ports_from, unmarked, verdict, Account,
    Action, Answers, Diagnostic, PortSource, SkBuff, TableLookup,
};
use crate::common::{FaultRule, Flow};
use crate::packet::{
    chain_end, frame_network, ip_parsed, ports_at, Chain, Parsed, ParsedPacket, ShortPacket,
};

verus! {

/// Whether both lookups of a packet led to a rule for its family and protocol.
pub open spec fn leads_to(flow: Flow, answers: Answers, rule: FaultRule) -> bool {
    &&& answers.destination matches TableLookup::Found(destination)
    &&& answers.source matches Some(source)
    &&& destination.kind == 1 && source.kind == 2
    &&& source.destination_id == destination.destination_id
    &&& source.generation != 0
    &&& source.rule == rule
    &&& rule.address_family == flow.family
    &&& rule.protocol == 0 || rule.protocol == flow.protocol
    &&& rule.id < 1024
}

/// TCP and UDP packets are matched by the ports in their own header, unless they
/// are later fragments: the rule takes the packet when it is for every port or
/// for the one that the packet goes to, the flow carries both ports, and a rule
/// for another port is missed by its port.
pub proof fn packets_are_matched_by_their_ports(
    bytes: Seq<u8>,
    parsed: Parsed,
    answers: Answers,
    rule: FaultRule,
)
    requires
        leads_to(parsed.flow, answers, rule),
        parsed.flow.protocol == 6 || parsed.flow.protocol == 17,
        !parsed.packet.non_initial_fragment,
        parsed.packet.transport_offset + 4 <= bytes.len(),
    ensures
        ({
            let at = parsed.packet.transport_offset as int;
            let from = bytes[at] * 256 + bytes[at + 1];
            let to = bytes[at + 2] * 256 + bytes[at + 3];
            &&& rule.destination_port == 0 || rule.destination_port == to ==> chosen(
                bytes,
                parsed,
                answers,
            ) == Ok::<(Flow, FaultRule), Diagnostic>(
                (
                    Flow {
                        source_port: from as u16,
                        destination_port: to as u16,
                        ..parsed.flow
                    },
                    rule,
                ),
            )
            &&& rule.destination_port != 0 && rule.destination_port != to ==> chosen(
                bytes,
                parsed,
                answers,
            ) == Err::<(Flow, FaultRule), Diagnostic>(Diagnostic::PortMiss)
        }),
{
}

/// A later fragment of a TCP or UDP datagram has the ports of its first one for
/// thirty seconds. Behind that, or when the first one was not seen, only a rule
/// for every port takes it.
pub proof fn later_fragments_are_matched_by_the_first(
    bytes: Seq<u8>,
    parsed: Parsed,
    answers: Answers,
    rule: FaultRule,
)
    requires
        leads_to(parsed.flow, answers, rule),
        parsed.flow.protocol == 6 || parsed.flow.protocol == 17,
        parsed.packet.non_initial_fragment,
    ensures
        ({
            let known = answers.fragment is Some && answers.fragment_ns
                - answers.fragment->0.seen_ns <= 30_000_000_000;
            let first = answers.fragment->0;
            let result = chosen(bytes, parsed, answers);
            &&& known && (rule.destination_port == 0 || rule.destination_port
                == first.destination_port) ==> result == Ok::<(Flow, FaultRule), Diagnostic>(
                (
                    Flow {
                        source_port: first.source_port,
                        destination_port: first.destination_port,
                        ..parsed.flow
                    },
                    rule,
                ),
            )
            &&& known && rule.destination_port != 0 && rule.destination_port
                != first.destination_port ==> result == Err::<(Flow, FaultRule), Diagnostic>(
                Diagnostic::PortMiss,
            )
            &&& !known && rule.destination_port == 0 ==> result == Ok::<
                (Flow, FaultRule),
                Diagnostic,
            >((Flow { source_port: 0, destination_port: 0, ..parsed.flow }, rule))
            &&& !known && rule.destination_port != 0 ==> result == Err::<
                (Flow, FaultRule),
                Diagnostic,
            >(Diagnostic::FragmentPortMiss)
        }),
{
}

/// Packets of other protocols have no ports: only a rule for every port takes
/// them.
pub proof fn other_protocols_have_no_ports(
    bytes: Seq<u8>,
    parsed: Parsed,
    answers: Answers,
    rule: FaultRule,
)
    requires
        leads_to(parsed.flow, answers, rule),
        parsed.flow.protocol != 6,
        parsed.flow.protocol != 17,
    ensures
        rule.destination_port == 0 ==> chosen(bytes, parsed, answers) == Ok::<
            (Flow, FaultRule),
            Diagnostic,
        >((Flow { source_port: 0, destination_port: 0, ..parsed.flow }, rule)),
        rule.destination_port != 0 ==> chosen(bytes, parsed, answers) == Err::<
            (Flow, FaultRule),
            Diagnostic,
        >(Diagnostic::PortMiss),
{
}

/// A packet is passed over for the first thing that keeps a rule from it: there
/// is no table, nothing covers its destination, nothing covers its source, or
/// the rule found is for another protocol.
pub proof fn misses_are_told_in_their_order(bytes: Seq<u8>, parsed: Parsed, answers: Answers)
    ensures
        ({
            let result = chosen(bytes, parsed, answers);
            &&& answers.destination is NoTable <==> result == Err::<(Flow, FaultRule), Diagnostic>(
                Diagnostic::NoRules,
            )
            &&& answers.destination is Miss <==> result == Err::<(Flow, FaultRule), Diagnostic>(
                Diagnostic::DestinationMiss,
            )
            &&& answers.destination matches TableLookup::Found(node) ==> {
                &&& node.kind != 1 ==> result == Err::<(Flow, FaultRule), Diagnostic>(
                    Diagnostic::InvalidRule,
                )
                &&& node.kind == 1 && answers.source is None <==> result == Err::<
                    (Flow, FaultRule),
                    Diagnostic,
                >(Diagnostic::SourceMiss)
                &&& node.kind == 1 ==> (answers.source matches Some(found) ==> {
                    let sound = found.kind == 2 && found.destination_id == node.destination_id
                        && found.generation != 0 && found.rule.address_family
                        == parsed.flow.family;
                    &&& !sound ==> result == Err::<(Flow, FaultRule), Diagnostic>(
                        Diagnostic::InvalidRule,
                    )
                    &&& sound && found.rule.protocol != 0 && found.rule.protocol
                        != parsed.flow.protocol <==> result == Err::<
                        (Flow, FaultRule),
                        Diagnostic,
                    >(Diagnostic::ProtocolMiss)
                })
            }
        }),
{
}

/// The ports of a first fragment are kept for the datagram it belongs to, and
/// only where more fragments may follow.
pub proof fn first_fragments_are_remembered(
    flow: Flow,
    packet: ParsedPacket,
    other_flow: Flow,
    other: ParsedPacket,
)
    ensures
        (flow.protocol == 6 || flow.protocol == 17) && !packet.non_initial_fragment ==> ports_from(
            flow,
            packet,
        ) == (PortSource::Header { remember: packet.fragmented }),
        (flow.protocol == 6 || flow.protocol == 17) && packet.non_initial_fragment ==> ports_from(
            flow,
            packet,
        ) == PortSource::Cached,
        flow.protocol != 6 && flow.protocol != 17 ==> ports_from(flow, packet)
            == PortSource::Absent,
        datagram(flow, packet) == datagram(other_flow, other) <==> flow.source
            == other_flow.source && flow.destination == other_flow.destination && flow.protocol
            == other_flow.protocol && flow.family == other_flow.family && packet.fragment_id
            == other.fragment_id,
{
}

/// An IPv4 packet is read from its header: addresses, protocol, where its
/// transport header begins, and what fragment it is. It is malformed exactly
/// when its version, its header length or its total length cannot be, or when
/// a TCP or UDP header would not fit in.
pub proof fn ipv4_headers_are_read(bytes: Seq<u8>, at: int)
    requires
        0 <= at,
        at + 20 <= bytes.len() <= usize::MAX,
    ensures
        ({
            let header = (bytes[at] % 16) * 4;
            let total = bytes[at + 2] * 256 + bytes[at + 3];
            let later = bytes[at + 6] % 32 != 0 || bytes[at + 7] != 0;
            let more = (bytes[at + 6] / 32) % 2 == 1;
            let protocol = bytes[at + 9];
            let sound = bytes[at] / 16 == 4 && 20 <= header <= total && at + total <= bytes.len()
                && (later || protocol != 6 && protocol != 17 || header + 4 <= total);
            let result = ip_parsed(bytes, 0x0800, at);
            &&& !sound ==> result == Ok::<Option<Parsed>, ShortPacket>(None)
            &&& sound ==> (result matches Ok(Some(parsed)) && {
                &&& parsed.flow.family == 4
                &&& parsed.flow.protocol == protocol
                &&& parsed.flow.source.len() == 16 && parsed.flow.destination.len() == 16
                &&& forall|i: int|
                    0 <= i < 4 ==> #[trigger] parsed.flow.source[i] == bytes[at + 12 + i]
                &&& forall|i: int|
                    0 <= i < 4 ==> #[trigger] parsed.flow.destination[i] == bytes[at + 16 + i]
                &&& forall|i: int|
                    4 <= i < 16 ==> #[trigger] parsed.flow.source[i] == 0
                &&& forall|i: int|
                    4 <= i < 16 ==> #[trigger] parsed.flow.destination[i] == 0
                &&& parsed.flow.source_port == 0 && parsed.flow.destination_port == 0
                &&& parsed.packet.transport_offset == at + header
                &&& parsed.packet.non_initial_fragment == later
                &&& parsed.packet.fragmented == (later || more)
                &&& parsed.packet.fragment_id == bytes[at + 4] * 256 + bytes[at + 5]
            })
        }),
{
    let fragment = bytes[at + 6] * 256 + bytes[at + 7];
    assert(fragment % 8192 == (bytes[at + 6] % 32) * 256 + bytes[at + 7]);
    assert(fragment / 8192 == bytes[at + 6] / 32);
}

/// The start of the walk along the headers of an IPv6 packet.
pub open spec fn ipv6_start(bytes: Seq<u8>, at: int) -> Chain {
    Chain {
        next: bytes[at + 6],
        offset: at + 40,
        non_initial_fragment: false,
        fragmented: false,
        fragment_id: 0,
    }
}

/// An IPv6 packet is read from its header and what follows at most six
/// extension headers.
pub proof fn ipv6_headers_are_read(bytes: Seq<u8>, at: int)
    requires
        0 <= at,
        at + 40 <= bytes.len() <= usize::MAX,
    ensures
        ({
            let end = at + 40 + bytes[at + 4] * 256 + bytes[at + 5];
            let last = chain_end(bytes, ipv6_start(bytes, at), end, 6);
            let sound = bytes[at] / 16 == 6 && end <= bytes.len() && last is Some && (
            last->0.non_initial_fragment || last->0.next != 6 && last->0.next != 17
                || last->0.offset + 4 <= end);
            let result = ip_parsed(bytes, 0x86dd, at);
            &&& !sound ==> result == Ok::<Option<Parsed>, ShortPacket>(None)
            &&& sound ==> (result matches Ok(Some(parsed)) && {
                &&& parsed.flow.family == 6
                &&& parsed.flow.protocol == last->0.next
                &&& parsed.flow.source == bytes.subrange(at + 8, at + 24)
                &&& parsed.flow.destination == bytes.subrange(at + 24, at + 40)
                &&& parsed.flow.source_port == 0 && parsed.flow.destination_port == 0
                &&& parsed.packet.transport_offset == last->0.offset as usize
                &&& parsed.packet.non_initial_fragment == last->0.non_initial_fragment
                &&& parsed.packet.fragmented == last->0.fragmented
                &&& parsed.packet.fragment_id == last->0.fragment_id as u32
            })
        }),
{
    assert(crate::packet::address_at(bytes, at + 8, 16) =~= bytes.subrange(at + 8, at + 24));
    assert(crate::packet::address_at(bytes, at + 24, 16) =~= bytes.subrange(at + 24, at + 40));
}

/// How extension headers are walked along. Hop-by-hop, routing and destination
/// options take eight bytes and eight more for each that they announce, an
/// authentication header eight and four more for each, a fragment header
/// eight; a fragment header tells the fragment. Anything else ends the walk,
/// and a header that leaves the packet, or one too many, breaks it off.
pub proof fn extension_headers_are_walked_along(bytes: Seq<u8>, chain: Chain, end: int, depth: nat)
    ensures
        ({
            let o = chain.offset;
            let next = chain.next;
            let options = next == 0 || next == 43 || next == 60;
            let behind_options = o + 8 * (bytes[o + 1] + 1);
            let behind_authentication = o + 4 * (bytes[o + 1] + 2);
            let extension = options || next == 44 || next == 51;
            let fits = if next == 44 {
                o + 8 <= end
            } else if next == 51 {
                behind_authentication <= end && o + 2 <= end
            } else {
                behind_options <= end && o + 2 <= end
            };
            let result = chain_end(bytes, chain, end, depth);
            &&& !extension ==> result == Some(chain)
            &&& extension && (depth == 0 || !fits) ==> result is None
            &&& options && fits && depth > 0 ==> result == chain_end(
                bytes,
                Chain { next: bytes[o], offset: behind_options, ..chain },
                end,
                (depth - 1) as nat,
            )
            &&& next == 51 && fits && depth > 0 ==> result == chain_end(
                bytes,
                Chain { next: bytes[o], offset: behind_authentication, ..chain },
                end,
                (depth - 1) as nat,
            )
            &&& next == 44 && fits && depth > 0 ==> result == chain_end(
                bytes,
                Chain {
                    next: bytes[o],
                    offset: o + 8,
                    non_initial_fragment: bytes[o + 2] != 0 || bytes[o + 3] >= 8,
                    fragmented: bytes[o + 2] != 0 || bytes[o + 3] >= 8 || bytes[o + 3] % 2 == 1,
                    fragment_id: bytes[o + 4] * 0x100_0000 + bytes[o + 5] * 0x1_0000 + bytes[o + 6]
                        * 0x100 + bytes[o + 7],
                },
                end,
                (depth - 1) as nat,
            )
        }),
{
}

/// The EtherType that stands at an offset.
pub open spec fn type_at(bytes: Seq<u8>, at: int) -> int {
    bytes[at] * 256 + bytes[at + 1]
}

/// Whether an EtherType is that of a VLAN tag.
pub open spec fn tags(ether_type: int) -> bool {
    ether_type == 0x8100 || ether_type == 0x88a8
}

/// The IP header of a frame begins behind its Ethernet header and up to two VLAN
/// tags, each of four bytes. A frame that carries something else there is not
/// IP, and one that ends before its type is short.
pub proof fn frames_are_untagged(bytes: Seq<u8>)
    requires
        bytes.len() <= usize::MAX,
    ensures
        ({
            let tagged = bytes.len() >= 14 && tags(type_at(bytes, 12));
            let twice = tagged && bytes.len() >= 18 && tags(type_at(bytes, 16));
            let at = if twice {
                22int
            } else if tagged {
                18
            } else {
                14
            };
            let found = type_at(bytes, at - 2);
            let result = frame_network(bytes);
            &&& bytes.len() < at ==> result is Err
            &&& bytes.len() >= at && (found == 0x0800 || found == 0x86dd) ==> result == Ok::<
                Option<(u16, usize)>,
                ShortPacket,
            >(Some((found as u16, at as usize)))
            &&& bytes.len() >= at && found != 0x0800 && found != 0x86dd ==> result == Ok::<
                Option<(u16, usize)>,
                ShortPacket,
            >(None)
        }),
{
    reveal_with_fuel(crate::packet::untagged, 3);
}

/// What a frame is taken for: the packet behind its tags, something that is not
/// IP, or something malformed.
pub proof fn frames_are_taken_for_what_they_carry(bytes: Seq<u8>)
    ensures
        frame_network(bytes) is Err ==> frame_flow(bytes) == Err::<Parsed, Diagnostic>(
            Diagnostic::Malformed,
        ),
        frame_network(bytes) == Ok::<Option<(u16, usize)>, ShortPacket>(None) ==> frame_flow(bytes)
            == Err::<Parsed, Diagnostic>(Diagnostic::NonIp),
        frame_network(bytes) matches Ok(Some((ether_type, at))) ==> {
            let read = ip_parsed(bytes, ether_type, at as int);
            &&& read matches Ok(Some(parsed)) ==> frame_flow(bytes) == Ok::<Parsed, Diagnostic>(
                parsed,
            )
            &&& !(read matches Ok(Some(_))) ==> frame_flow(bytes) == Err::<Parsed, Diagnostic>(
                Diagnostic::Malformed,
            )
        },
{
}

/// The verdict on a packet that is no clone is that of the rule that its frame
/// leads to, and without one the packet passes as it came; a clone loses its
/// mark, the highest bit, and passes.
pub proof fn verdicts_follow_from_the_frame(bytes: Seq<u8>, skb: SkBuff, answers: Answers)
    ensures
        is_clone(skb.mark) <==> skb.mark >= 0x8000_0000,
        skb.mark >= 0x8000_0000 ==> unmarked(skb.mark) == skb.mark - 0x8000_0000,
        skb.mark < 0x8000_0000 ==> marked_as_clone(skb.mark) == skb.mark + 0x8000_0000,
        ({
            let result = verdict(bytes, skb, answers);
            &&& skb.mark >= 0x8000_0000 ==> {
                &&& result.action == Action::Pass
                &&& result.account == Account::Reason(Diagnostic::DuplicateBypass)
                &&& result.mark == skb.mark - 0x8000_0000
                &&& result.tstamp == skb.tstamp
            }
            &&& skb.mark < 0x8000_0000 ==> {
                &&& result.mark == skb.mark
                &&& frame_flow(bytes) matches Err(reason) ==> result.account == Account::Reason(
                    reason,
                ) && result.action == Action::Pass && result.tstamp == skb.tstamp
                &&& frame_flow(bytes) matches Ok(parsed) ==> (match chosen(bytes, parsed, answers) {
                    Err(reason) => result.account == Account::Reason(reason) && result.action
                        == Action::Pass && result.tstamp == skb.tstamp,
                    Ok((flow, rule)) => {
                        let (marks, tstamp) = crate::classifier::treated(
                            flow,
                            rule,
                            skb.tstamp,
                            answers,
                        );
                        &&& result.account matches Account::Rule(counting) && counting.rule_id
                            == rule.id && counting.marks == marks
                        &&& result.tstamp == tstamp
                        &&& result.action == Action::Drop <==> marks.dropped
                            || marks.pacing_dropped
                    },
                })
            }
        }),
{
}

/// Ports stand in the first four bytes of a transport header, most significant
/// byte first.
pub proof fn ports_stand_first(bytes: Seq<u8>, at: int)
    requires
        0 <= at,
    ensures
        at + 4 <= bytes.len() ==> ports_at(bytes, at) == Ok::<(u16, u16), ShortPacket>(
            (
                (bytes[at] * 256 + bytes[at + 1]) as u16,
                (bytes[at + 2] * 256 + bytes[at + 3]) as u16,
            ),
        ),
        at + 4 > bytes.len() ==> ports_at(bytes, at) is Err,
{
}

} // verus!
