//! Finding the network header of an Ethernet frame and reading the five-tuple
//! of an IPv4 or IPv6 packet.

use vstd::prelude::*;
use crate::common::{
    zero_bytes, Flow, FlowKey, ADDRESS_FAMILY_IPV4, ADDRESS_FAMILY_IPV6, PROTOCOL_TCP, PROTOCOL_UDP,
};

verus! {

pub const ETHERTYPE_IPV4: u16 = 0x0800;

pub const ETHERTYPE_IPV6: u16 = 0x86dd;

pub const ETHERTYPE_8021Q: u16 = 0x8100;

pub const ETHERTYPE_8021AD: u16 = 0x88a8;

pub const ETHERNET_HEADER_LEN: usize = 14;

pub const VLAN_HEADER_LEN: usize = 4;

pub const MAX_VLAN_DEPTH: usize = 2;

/// Extension headers followed before an IPv6 chain counts as malformed.
pub const MAX_EXTENSION_HEADERS: usize = 6;

/// A read past the end of the packet.
#[derive(Clone, Copy, Debug, PartialEq, Eq, Structural)]
pub struct ShortPacket;

/// What is known of a packet besides its flow.
#[derive(Clone, Copy, Debug, PartialEq, Eq, Structural)]
pub struct ParsedPacket {
    pub transport_offset: usize,
    pub non_initial_fragment: bool,
    pub fragmented: bool,
    pub fragment_id: u32,
}

/// The big-endian 16-bit number at an offset.
pub open spec fn word16(bytes: Seq<u8>, at: int) -> int {
    bytes[at] * 256 + bytes[at + 1]
}

/// The big-endian 32-bit number at an offset.
pub open spec fn word32(bytes: Seq<u8>, at: int) -> int {
    word16(bytes, at) * 65536 + word16(bytes, at + 2)
}

/// Whether `len` bytes can be read at an offset.
pub open spec fn readable(bytes: Seq<u8>, at: int, len: int) -> bool {
    0 <= at && at + len <= bytes.len()
}

fn load_u8(packet: &[u8], offset: usize) -> (r: Result<u8, ShortPacket>)
    ensures
        r is Ok <==> readable(packet@, offset as int, 1),
        r is Ok ==> r->Ok_0 == packet@[offset as int],
{
    if offset < packet.len() {
        Ok(packet[offset])
    } else {
        Err(ShortPacket)
    }
}

fn load_u16(packet: &[u8], offset: usize) -> (r: Result<u16, ShortPacket>)
    ensures
        r is Ok <==> readable(packet@, offset as int, 2),
        r is Ok ==> r->Ok_0 == word16(packet@, offset as int),
{
    if packet.len() < 2 || offset > packet.len() - 2 {
        return Err(ShortPacket);
    }
    Ok(packet[offset] as u16 * 256 + packet[offset + 1] as u16)
}

fn load_u32(packet: &[u8], offset: usize) -> (r: Result<u32, ShortPacket>)
    ensures
        r is Ok <==> readable(packet@, offset as int, 4),
        r is Ok ==> r->Ok_0 == word32(packet@, offset as int),
{
    if packet.len() < 4 || offset > packet.len() - 4 {
        return Err(ShortPacket);
    }
    let high: u32 = packet[offset] as u32 * 256 + packet[offset + 1] as u32;
    let low: u32 = packet[offset + 2] as u32 * 256 + packet[offset + 3] as u32;
    Ok(high * 65536 + low)
}

/// The `len` bytes at an offset, padded with zeros to sixteen.
pub open spec fn address_at(bytes: Seq<u8>, at: int, len: int) -> Seq<u8> {
    bytes.subrange(at, at + len) + zero_bytes((16 - len) as nat)
}

fn load_address(packet: &[u8], offset: usize, len: usize) -> (r: Result<[u8; 16], ShortPacket>)
    requires
        len <= 16,
    ensures
        r is Ok <==> readable(packet@, offset as int, len as int),
        r is Ok ==> r->Ok_0@ == address_at(packet@, offset as int, len as int),
{
    if packet.len() < len || offset > packet.len() - len {
        return Err(ShortPacket);
    }
    let mut address: [u8; 16] = [0;16];
    let mut index: usize = 0;
    while index < len
        invariant
            index <= len <= 16,
            offset + len <= packet.len(),
            address@.len() == 16,
            forall|i: int| 0 <= i < index ==> address@[i] == packet@[offset + i],
            forall|i: int| index <= i < 16 ==> address@[i] == 0,
        decreases len - index,
    {
        address[index] = packet[offset + index];
        index += 1;
    }
    assert(address@ =~= address_at(packet@, offset as int, len as int));
    Ok(address)
}

pub open spec fn is_vlan(ether_type: int) -> bool {
    ether_type == ETHERTYPE_8021Q || ether_type == ETHERTYPE_8021AD
}

/// The EtherType and offset behind at most `depth` VLAN tags, starting from a
/// header of the given type whose payload begins at `offset`. None when the
/// packet ends inside a tag.
pub open spec fn untagged(bytes: Seq<u8>, ether_type: int, offset: int, depth: nat) -> Option<
    (int, int),
>
    decreases depth,
{
    if depth == 0 || !is_vlan(ether_type) {
        Some((ether_type, offset))
    } else if !readable(bytes, offset + 2, 2) {
        None
    } else {
        untagged(
            bytes,
            word16(bytes, offset + 2),
            offset + VLAN_HEADER_LEN,
            (depth - 1) as nat,
        )
    }
}

/// Where the IP header of a frame begins, and its EtherType: behind up to two
/// VLAN tags. The inner None stands for a frame that carries no IP.
pub open spec fn frame_network(bytes: Seq<u8>) -> Result<Option<(u16, usize)>, ShortPacket> {
    if !readable(bytes, 12, 2) {
        Err(ShortPacket)
    } else {
        match untagged(bytes, word16(bytes, 12), 14, MAX_VLAN_DEPTH as nat) {
            None => Err(ShortPacket),
            Some((ether_type, offset)) => if ether_type == ETHERTYPE_IPV4 || ether_type
                == ETHERTYPE_IPV6 {
                Ok(Some((ether_type as u16, offset as usize)))
            } else {
                Ok(None)
            },
        }
    }
}

/// Peels inline 802.1Q and 802.1ad tags, up to two of them, and finds the IP
/// header behind them.
pub fn network_header(packet: &[u8]) -> (r: Result<Option<(u16, usize)>, ShortPacket>)
    ensures
        r == frame_network(packet@),
        r matches Ok(Some((_, offset))) ==> 14 <= offset <= 22,
{
    let mut ether_type: u16 = match load_u16(packet, 12) {
        Ok(value) => value,
        Err(error) => return Err(error),
    };
    let mut network_offset: usize = ETHERNET_HEADER_LEN;
    let mut depth: usize = MAX_VLAN_DEPTH;
    while depth > 0 && (ether_type == ETHERTYPE_8021Q || ether_type == ETHERTYPE_8021AD)
        invariant
            depth <= MAX_VLAN_DEPTH,
            network_offset == 14 + 4 * (MAX_VLAN_DEPTH - depth),
            readable(packet@, 12, 2),
            untagged(packet@, word16(packet@, 12), 14, MAX_VLAN_DEPTH as nat) == untagged(
                packet@,
                ether_type as int,
                network_offset as int,
                depth as nat,
            ),
        decreases depth,
    {
        ether_type =
        match load_u16(packet, network_offset + 2) {
            Ok(value) => value,
            Err(error) => return Err(error),
        };
        network_offset += VLAN_HEADER_LEN;
        depth -= 1;
    }
    if ether_type == ETHERTYPE_IPV4 || ether_type == ETHERTYPE_IPV6 {
        Ok(Some((ether_type, network_offset)))
    } else {
        Ok(None)
    }
}

/// A successfully parsed packet: its flow without ports, and the rest.
pub struct Parsed {
    pub flow: Flow,
    pub packet: ParsedPacket,
}

pub open spec fn has_ports(protocol: u8) -> bool {
    protocol == PROTOCOL_TCP || protocol == PROTOCOL_UDP
}

/// Reads an IPv4 header. The inner None stands for a header that contradicts
/// itself or the length of the packet; Err for a packet that ends inside it.
pub open spec fn ipv4_parsed(bytes: Seq<u8>, at: int) -> Result<Option<Parsed>, ShortPacket> {
    let header_len = (bytes[at] % 16) * 4;
    let total_len = word16(bytes, at + 2);
    let fragment = word16(bytes, at + 6);
    let fragment_offset = fragment % 8192;
    let more_fragments = (fragment / 8192) % 2 == 1;
    let protocol = bytes[at + 9];
    if !readable(bytes, at, 1) {
        Err(ShortPacket)
    } else if bytes[at] / 16 != 4 || header_len < 20 {
        Ok(None)
    } else if !readable(bytes, at, 4) {
        Err(ShortPacket)
    } else if total_len < header_len || at + total_len > bytes.len() {
        Ok(None)
    } else if fragment_offset == 0 && has_ports(protocol) && total_len < header_len + 4 {
        Ok(None)
    } else {
        Ok(
            Some(
                Parsed {
                    flow: Flow {
                        source: address_at(bytes, at + 12, 4),
                        destination: address_at(bytes, at + 16, 4),
                        source_port: 0,
                        destination_port: 0,
                        protocol,
                        family: ADDRESS_FAMILY_IPV4,
                    },
                    packet: ParsedPacket {
                        transport_offset: (at + header_len) as usize,
                        non_initial_fragment: fragment_offset != 0,
                        fragmented: fragment_offset != 0 || more_fragments,
                        fragment_id: word16(bytes, at + 4) as u32,
                    },
                },
            ),
        )
    }
}

/// Where a walk along IPv6 extension headers stands.
pub struct Chain {
    pub next: u8,
    pub offset: int,
    pub non_initial_fragment: bool,
    pub fragmented: bool,
    pub fragment_id: int,
}

pub open spec fn is_options_header(next: u8) -> bool {
    next == 0 || next == 43 || next == 60
}

pub open spec fn is_extension_header(next: u8) -> bool {
    is_options_header(next) || next == 44 || next == 51
}

/// The bytes that the extension header at `offset` occupies. Only its first
/// two bytes are looked at.
pub open spec fn extension_len(bytes: Seq<u8>, next: u8, offset: int) -> int {
    if next == 44 {
        8
    } else if next == 51 {
        (bytes[offset + 1] + 2) * 4
    } else {
        (bytes[offset + 1] + 1) * 8
    }
}

/// Whether the extension header at `offset` lies within the packet.
pub open spec fn extension_fits(bytes: Seq<u8>, next: u8, offset: int, end: int) -> bool {
    &&& offset + (if next == 44 {
        8int
    } else {
        2
    }) <= end
    &&& offset + extension_len(bytes, next, offset) <= end
}

/// One extension header further along the chain.
pub open spec fn past_extension(bytes: Seq<u8>, chain: Chain) -> Chain {
    let fragment = word16(bytes, chain.offset + 2);
    let fragment_header = chain.next == 44;
    Chain {
        next: bytes[chain.offset],
        offset: chain.offset + extension_len(bytes, chain.next, chain.offset),
        non_initial_fragment: if fragment_header {
            fragment >= 8
        } else {
            chain.non_initial_fragment
        },
        fragmented: if fragment_header {
            fragment >= 8 || fragment % 2 == 1
        } else {
            chain.fragmented
        },
        fragment_id: if fragment_header {
            word32(bytes, chain.offset + 4)
        } else {
            chain.fragment_id
        },
    }
}

/// The end of a chain of at most `depth` extension headers. None when one of
/// them leaves the packet or another one follows.
pub open spec fn chain_end(bytes: Seq<u8>, chain: Chain, end: int, depth: nat) -> Option<Chain>
    decreases depth,
{
    if !is_extension_header(chain.next) {
        Some(chain)
    } else if depth == 0 || !extension_fits(bytes, chain.next, chain.offset, end) {
        None
    } else {
        chain_end(bytes, past_extension(bytes, chain), end, (depth - 1) as nat)
    }
}

/// Reads an IPv6 header and its extension headers. The inner None stands for a
/// header that contradicts itself or the length of the packet; Err for a
/// packet that ends inside it.
pub open spec fn ipv6_parsed(bytes: Seq<u8>, at: int) -> Result<Option<Parsed>, ShortPacket> {
    let end = at + 40 + word16(bytes, at + 4);
    let start = Chain {
        next: bytes[at + 6],
        offset: at + 40,
        non_initial_fragment: false,
        fragmented: false,
        fragment_id: 0,
    };
    if !readable(bytes, at, 1) {
        Err(ShortPacket)
    } else if bytes[at] / 16 != 6 {
        Ok(None)
    } else if !readable(bytes, at, 6) {
        Err(ShortPacket)
    } else if end > bytes.len() {
        Ok(None)
    } else {
        match chain_end(bytes, start, end, MAX_EXTENSION_HEADERS as nat) {
            None => Ok(None),
            Some(chain) => if !chain.non_initial_fragment && has_ports(chain.next) && chain.offset
                + 4 > end {
                Ok(None)
            } else {
                Ok(
                    Some(
                        Parsed {
                            flow: Flow {
                                source: address_at(bytes, at + 8, 16),
                                destination: address_at(bytes, at + 24, 16),
                                source_port: 0,
                                destination_port: 0,
                                protocol: chain.next,
                                family: ADDRESS_FAMILY_IPV6,
                            },
                            packet: ParsedPacket {
                                transport_offset: chain.offset as usize,
                                non_initial_fragment: chain.non_initial_fragment,
                                fragmented: chain.fragmented,
                                fragment_id: chain.fragment_id as u32,
                            },
                        },
                    ),
                )
            },
        }
    }
}

/// Reads the IP header at an offset: IPv4 behind its own EtherType, IPv6
/// behind any other.
pub open spec fn ip_parsed(bytes: Seq<u8>, ether_type: u16, at: int) -> Result<
    Option<Parsed>,
    ShortPacket,
> {
    if ether_type == ETHERTYPE_IPV4 {
        ipv4_parsed(bytes, at)
    } else {
        ipv6_parsed(bytes, at)
    }
}

/// Whether an executable parse result shows the specified one.
pub open spec fn shows(
    actual: Result<Option<(FlowKey, ParsedPacket)>, ShortPacket>,
    wanted: Result<Option<Parsed>, ShortPacket>,
) -> bool {
    match (actual, wanted) {
        (Ok(None), Ok(None)) => true,
        (Err(_), Err(_)) => true,
        (Ok(Some((flow, packet))), Ok(Some(parsed))) => flow@ == parsed.flow && packet
            == parsed.packet && flow._padding@ == zero_bytes(2),
        _ => false,
    }
}

fn parse_ipv4(packet: &[u8], offset: usize) -> (r: Result<
    Option<(FlowKey, ParsedPacket)>,
    ShortPacket,
>)
    requires
        offset <= usize::MAX - 64,
    ensures
        shows(r, ipv4_parsed(packet@, offset as int)),
{
    let version_ihl: u8 = match load_u8(packet, offset) {
        Ok(value) => value,
        Err(error) => return Err(error),
    };
    assert(version_ihl & 0x0f == version_ihl % 16) by (bit_vector);
    assert(version_ihl >> 4 == version_ihl / 16) by (bit_vector);
    let header_len: usize = ((version_ihl & 0x0f) as usize) * 4;
    if version_ihl >> 4 != 4 || header_len < 20 {
        return Ok(None);
    }
    let total_len: usize = match load_u16(packet, offset + 2) {
        Ok(value) => value as usize,
        Err(error) => return Err(error),
    };
    if total_len < header_len || total_len > packet.len() || offset > packet.len() - total_len {
        return Ok(None);
    }
    // From here on the whole header lies inside the packet.
    let fragment: u16 = match load_u16(packet, offset + 6) {
        Ok(value) => value,
        Err(error) => return Err(error),
    };
    assert(fragment & 0x1fff == fragment % 8192) by (bit_vector);
    assert((fragment & 0x2000 != 0) == ((fragment / 8192) % 2 == 1)) by (bit_vector);
    let fragment_offset: u16 = fragment & 0x1fff;
    let more_fragments = fragment & 0x2000 != 0;
    let source_address = match load_address(packet, offset + 12, 4) {
        Ok(value) => value,
        Err(error) => return Err(error),
    };
    let destination_address = match load_address(packet, offset + 16, 4) {
        Ok(value) => value,
        Err(error) => return Err(error),
    };
    let protocol: u8 = match load_u8(packet, offset + 9) {
        Ok(value) => value,
        Err(error) => return Err(error),
    };
    if fragment_offset == 0 && (protocol == PROTOCOL_TCP || protocol == PROTOCOL_UDP) && total_len
        < header_len + 4 {
        return Ok(None);
    }
    let fragment_id: u32 = match load_u16(packet, offset + 4) {
        Ok(value) => value as u32,
        Err(error) => return Err(error),
    };
    let mut flow = FlowKey::default();
    flow.source_address = source_address;
    flow.destination_address = destination_address;
    flow.protocol = protocol;
    flow.address_family = ADDRESS_FAMILY_IPV4;
    Ok(
        Some(
            (
                flow,
                ParsedPacket {
                    transport_offset: offset + header_len,
                    non_initial_fragment: fragment_offset != 0,
                    fragmented: fragment_offset != 0 || more_fragments,
                    fragment_id,
                },
            ),
        ),
    )
}

fn parse_ipv6(packet: &[u8], offset: usize) -> (r: Result<
    Option<(FlowKey, ParsedPacket)>,
    ShortPacket,
>)
    requires
        offset <= usize::MAX - 64,
    ensures
        shows(r, ipv6_parsed(packet@, offset as int)),
{
    let version: u8 = match load_u8(packet, offset) {
        Ok(value) => value,
        Err(error) => return Err(error),
    };
    assert(version >> 4 == version / 16) by (bit_vector);
    if version >> 4 != 6 {
        return Ok(None);
    }
    let payload_len: usize = match load_u16(packet, offset + 4) {
        Ok(value) => value as usize,
        Err(error) => return Err(error),
    };
    if packet.len() < 40 || offset > packet.len() - 40 || payload_len > packet.len() - 40 - offset {
        return Ok(None);
    }
    let packet_end: usize = offset + 40 + payload_len;
    let mut next: u8 = match load_u8(packet, offset + 6) {
        Ok(value) => value,
        Err(error) => return Err(error),
    };
    let mut transport_offset: usize = offset + 40;
    let mut non_initial_fragment = false;
    let mut fragmented = false;
    let mut fragment_id: u32 = 0;
    let mut depth: usize = MAX_EXTENSION_HEADERS;
    let ghost start = Chain {
        next,
        offset: transport_offset as int,
        non_initial_fragment: false,
        fragmented: false,
        fragment_id: 0,
    };
    let ghost walked = chain_end(packet@, start, packet_end as int, MAX_EXTENSION_HEADERS as nat);
    while depth > 0 && (next == 0 || next == 43 || next == 60 || next == 44 || next == 51)
        invariant
            depth <= MAX_EXTENSION_HEADERS,
            transport_offset <= packet_end <= packet@.len(),
            offset + 40 <= packet_end,
            packet_end == offset + 40 + word16(packet@, offset + 4),
            readable(packet@, offset as int, 6),
            packet@[offset as int] / 16 == 6,
            walked == chain_end(
                packet@,
                Chain {
                    next: packet@[offset + 6],
                    offset: offset + 40,
                    non_initial_fragment: false,
                    fragmented: false,
                    fragment_id: 0,
                },
                packet_end as int,
                MAX_EXTENSION_HEADERS as nat,
            ),
            walked == chain_end(
                packet@,
                Chain {
                    next,
                    offset: transport_offset as int,
                    non_initial_fragment,
                    fragmented,
                    fragment_id: fragment_id as int,
                },
                packet_end as int,
                depth as nat,
            ),
        decreases depth,
    {
        let needed: usize = if next == 44 {
            8
        } else {
            2
        };
        if needed > packet_end - transport_offset {
            return Ok(None);
        }
        let following: u8 = match load_u8(packet, transport_offset) {
            Ok(value) => value,
            Err(error) => return Err(error),
        };
        if next == 44 {
            let fragment: u16 = match load_u16(packet, transport_offset + 2) {
                Ok(value) => value,
                Err(error) => return Err(error),
            };
            assert((fragment & 0xfff8 != 0) == (fragment >= 8)) by (bit_vector);
            assert((fragment & 1 != 0) == (fragment % 2 == 1)) by (bit_vector);
            non_initial_fragment = fragment & 0xfff8 != 0;
            fragmented = non_initial_fragment || fragment & 1 != 0;
            fragment_id =
            match load_u32(packet, transport_offset + 4) {
                Ok(value) => value,
                Err(error) => return Err(error),
            };
            transport_offset += 8;
        } else {
            let len: usize = match load_u8(packet, transport_offset + 1) {
                Ok(value) => value as usize,
                Err(error) => return Err(error),
            };
            let occupied: usize = if next == 51 {
                (len + 2) * 4
            } else {
                (len + 1) * 8
            };
            if occupied > packet_end - transport_offset {
                return Ok(None);
            }
            transport_offset += occupied;
        }
        next = following;
        depth -= 1;
    }
    if next == 0 || next == 43 || next == 44 || next == 51 || next == 60 {
        return Ok(None);
    }
    let source_address = match load_address(packet, offset + 8, 16) {
        Ok(value) => value,
        Err(error) => return Err(error),
    };
    let destination_address = match load_address(packet, offset + 24, 16) {
        Ok(value) => value,
        Err(error) => return Err(error),
    };
    if !non_initial_fragment && (next == PROTOCOL_TCP || next == PROTOCOL_UDP) && 4 > packet_end
        - transport_offset {
        return Ok(None);
    }
    let mut flow = FlowKey::default();
    flow.source_address = source_address;
    flow.destination_address = destination_address;
    flow.protocol = next;
    flow.address_family = ADDRESS_FAMILY_IPV6;
    Ok(Some((flow, ParsedPacket { transport_offset, non_initial_fragment, fragmented, fragment_id })))
}

/// Reads the five-tuple without ports, and what a fragment needs to be matched
/// to its first part. Extension chains are under the sender's control, so at
/// most six headers of one are followed.
pub fn parse_ip(packet: &[u8], ether_type: u16, offset: usize) -> (r: Result<
    Option<(FlowKey, ParsedPacket)>,
    ShortPacket,
>)
    requires
        offset <= usize::MAX - 64,
    ensures
        shows(r, ip_parsed(packet@, ether_type, offset as int)),
{
    if ether_type == ETHERTYPE_IPV4 {
        parse_ipv4(packet, offset)
    } else {
        parse_ipv6(packet, offset)
    }
}

/// The source and destination port in the first bytes of a TCP or UDP header.
pub open spec fn ports_at(bytes: Seq<u8>, at: int) -> Result<(u16, u16), ShortPacket> {
    if readable(bytes, at, 4) {
        Ok((word16(bytes, at) as u16, word16(bytes, at + 2) as u16))
    } else {
        Err(ShortPacket)
    }
}

/// Reads both ports of a TCP or UDP header.
pub fn transport_ports(packet: &[u8], offset: usize) -> (r: Result<(u16, u16), ShortPacket>)
    ensures
        r == ports_at(packet@, offset as int),
{
    if packet.len() < 4 || offset > packet.len() - 4 {
        return Err(ShortPacket);
    }
    let source: u16 = match load_u16(packet, offset) {
        Ok(value) => value,
        Err(error) => return Err(error),
    };
    let destination: u16 = match load_u16(packet, offset + 2) {
        Ok(value) => value,
        Err(error) => return Err(error),
    };
    Ok((source, destination))
}

/// A parsed packet that may have ports of its own has them inside the packet:
/// reading them cannot fail.
pub proof fn parsed_ports_are_readable(bytes: Seq<u8>, ether_type: u16, at: int)
    requires
        0 <= at,
        bytes.len() <= usize::MAX,
    ensures
        ip_parsed(bytes, ether_type, at) matches Ok(Some(parsed)) ==> has_ports(
            parsed.flow.protocol,
        ) && !parsed.packet.non_initial_fragment ==> ports_at(
            bytes,
            parsed.packet.transport_offset as int,
        ) is Ok,
{
    if ether_type != ETHERTYPE_IPV4 {
        let end = at + 40 + word16(bytes, at + 4);
        let start = Chain {
            next: bytes[at + 6],
            offset: at + 40,
            non_initial_fragment: false,
            fragmented: false,
            fragment_id: 0,
        };
        chain_moves_forward(bytes, start, end, MAX_EXTENSION_HEADERS as nat);
    }
}

proof fn chain_moves_forward(bytes: Seq<u8>, chain: Chain, end: int, depth: nat)
    ensures
        chain_end(bytes, chain, end, depth) matches Some(last) ==> last.offset >= chain.offset && (
        last == chain || last.offset <= end),
    decreases depth,
{
    if is_extension_header(chain.next) && depth > 0 && extension_fits(
        bytes,
        chain.next,
        chain.offset,
        end,
    ) {
        chain_moves_forward(bytes, past_extension(bytes, chain), end, (depth - 1) as nat);
    }
}

} // verus!
