//! IP addresses and networks.

use vstd::prelude::*;
use vstd::string::*;
use crate::common::zero_bytes;
use crate::text::{decimal, digits};

verus! {

/// An IPv4 or IPv6 address. An IPv4 address fills the leading four octets and
/// leaves the others zero.
#[derive(Clone, Copy, Debug, PartialEq, Eq)]
pub struct IpAddr {
    pub v4: bool,
    pub octets: [u8; 16],
}

/// An address with its octets as a sequence.
pub struct Address {
    pub v4: bool,
    pub octets: Seq<u8>,
}

impl View for IpAddr {
    type V = Address;

    open spec fn view(&self) -> Address {
        Address { v4: self.v4, octets: self.octets@ }
    }
}

impl Address {
    pub open spec fn wf(self) -> bool {
        &&& self.octets.len() == 16
        &&& self.v4 ==> self.octets.subrange(4, 16) == zero_bytes(12)
    }

    /// The number of address bits.
    pub open spec fn bits(self) -> u8 {
        if self.v4 {
            32
        } else {
            128
        }
    }
}

impl IpAddr {
    /// An IPv4 address.
    pub fn v4(a: u8, b: u8, c: u8, d: u8) -> (r: IpAddr)
        ensures
            r@.wf(),
            r@.v4,
            r@.octets == seq![a, b, c, d] + zero_bytes(12),
    {
        let octets: [u8; 16] = [a, b, c, d, 0, 0, 0, 0, 0, 0, 0, 0, 0, 0, 0, 0];
        assert(octets@ =~= seq![a, b, c, d] + zero_bytes(12));
        assert(octets@.subrange(4, 16) =~= zero_bytes(12));
        IpAddr { v4: true, octets }
    }

    /// An IPv6 address.
    pub fn v6(octets: [u8; 16]) -> (r: IpAddr)
        ensures
            r@.wf(),
            !r@.v4,
            r@.octets == octets@,
    {
        IpAddr { v4: false, octets }
    }
}

/// An address with the length of the prefix that names its network.
#[derive(Clone, Copy, Debug, PartialEq, Eq)]
pub struct IpNet {
    pub addr: IpAddr,
    pub prefix_len: u8,
}

/// A network with its octets as a sequence.
pub struct Network {
    pub v4: bool,
    pub octets: Seq<u8>,
    pub prefix_len: u8,
}

impl View for IpNet {
    type V = Network;

    open spec fn view(&self) -> Network {
        Network { v4: self.addr.v4, octets: self.addr.octets@, prefix_len: self.prefix_len }
    }
}

/// The step between bytes that agree in their leading `kept` bits.
pub open spec fn unit(kept: int) -> int {
    if kept <= 0 {
        256
    } else if kept == 1 {
        128
    } else if kept == 2 {
        64
    } else if kept == 3 {
        32
    } else if kept == 4 {
        16
    } else if kept == 5 {
        8
    } else if kept == 6 {
        4
    } else if kept == 7 {
        2
    } else {
        1
    }
}

/// A byte with everything behind its leading `kept` bits cleared.
pub open spec fn leading(byte: u8, kept: int) -> u8 {
    (byte - byte as int % unit(kept)) as u8
}

/// Octets with everything behind the prefix cleared.
pub open spec fn masked(octets: Seq<u8>, prefix_len: int) -> Seq<u8> {
    Seq::new(octets.len(), |i: int| leading(octets[i], prefix_len - 8 * i))
}

/// The mask of a prefix: its bits set, all others cleared.
pub open spec fn prefix_mask(len: nat, prefix_len: int) -> Seq<u8> {
    Seq::new(len, |i: int| (256 - unit(prefix_len - 8 * i)) as u8)
}

impl Network {
    pub open spec fn wf(self) -> bool {
        &&& self.address().wf()
        &&& self.prefix_len <= self.address().bits()
    }

    pub open spec fn address(self) -> Address {
        Address { v4: self.v4, octets: self.octets }
    }

    /// The network with the bits behind its prefix cleared.
    pub open spec fn truncated(self) -> Network {
        Network { octets: masked(self.octets, self.prefix_len as int), ..self }
    }

    /// Whether an address agrees with this network in family and prefix.
    pub open spec fn covers(self, address: Address) -> bool {
        &&& self.v4 == address.v4
        &&& masked(self.octets, self.prefix_len as int) == masked(
            address.octets,
            self.prefix_len as int,
        )
    }

    /// The order of networks: IPv4 first, then by address, then by prefix.
    pub open spec fn before(self, other: Network) -> bool {
        if self.v4 != other.v4 {
            self.v4
        } else if self.octets != other.octets {
            bytes_before(self.octets, other.octets)
        } else {
            self.prefix_len < other.prefix_len
        }
    }
}

/// Whether the first differing byte of two equally long sequences is smaller.
pub open spec fn bytes_before(left: Seq<u8>, right: Seq<u8>) -> bool {
    exists|i: int|
        0 <= i < left.len() && i < right.len() && left[i] < right[i] && left.take(i) == #[trigger] right.take(i)
}

fn unit_of(kept: usize) -> (r: u16)
    requires
        kept <= 8,
    ensures
        r == unit(kept as int),
{
    match kept {
        0 => 256,
        1 => 128,
        2 => 64,
        3 => 32,
        4 => 16,
        5 => 8,
        6 => 4,
        7 => 2,
        _ => 1,
    }
}

/// The bits of a prefix that fall into one byte.
fn kept_bits(prefix_len: u8, index: usize) -> (r: usize)
    requires
        index < 16,
    ensures
        r <= 8,
        unit(r as int) == unit(prefix_len - 8 * index),
{
    let prefix: usize = prefix_len as usize;
    if prefix <= 8 * index {
        0
    } else if prefix - 8 * index >= 8 {
        8
    } else {
        prefix - 8 * index
    }
}

/// Clears the bits behind a prefix.
pub fn mask_octets(octets: &[u8; 16], prefix_len: u8) -> (r: [u8; 16])
    ensures
        r@ == masked(octets@, prefix_len as int),
{
    let mut out: [u8; 16] = [0;16];
    let mut index: usize = 0;
    while index < 16
        invariant
            index <= 16,
            out@.len() == 16,
            forall|i: int|
                0 <= i < index ==> out@[i] == leading(#[trigger] octets@[i], prefix_len - 8 * i),
        decreases 16 - index,
    {
        let step: u16 = unit_of(kept_bits(prefix_len, index));
        let byte: u8 = octets[index];
        out[index] = byte - (byte as u16 % step) as u8;
        index += 1;
    }
    assert(out@ =~= masked(octets@, prefix_len as int));
    out
}

impl IpNet {
    /// A network, unless the prefix is longer than its address.
    pub fn new(addr: IpAddr, prefix_len: u8) -> (r: Option<IpNet>)
        ensures
            match r {
                Some(net) => net.addr == addr && net.prefix_len == prefix_len && prefix_len
                    <= addr@.bits(),
                None => prefix_len > addr@.bits(),
            },
    {
        let bits: u8 = if addr.v4 {
            32
        } else {
            128
        };
        if prefix_len > bits {
            None
        } else {
            Some(IpNet { addr, prefix_len })
        }
    }

    /// The network that holds one address alone.
    pub open spec fn host_of(addr: Address) -> Network {
        Network { v4: addr.v4, octets: addr.octets, prefix_len: addr.bits() }
    }

    /// The network that holds one address alone.
    pub fn host(addr: IpAddr) -> (r: IpNet)
        ensures
            r@ == IpNet::host_of(addr@),
            addr@.wf() ==> r@.wf(),
    {
        IpNet {
            addr,
            prefix_len: if addr.v4 {
                32
            } else {
                128
            },
        }
    }

    pub fn is_ipv4(&self) -> (r: bool)
        ensures
            r == self@.v4,
    {
        self.addr.v4
    }

    /// The address with the bits behind the prefix cleared.
    pub fn network(&self) -> (r: [u8; 16])
        ensures
            r@ == self@.truncated().octets,
    {
        mask_octets(&self.addr.octets, self.prefix_len)
    }

    /// The mask of the prefix.
    pub fn netmask(&self) -> (r: [u8; 16])
        ensures
            r@ == prefix_mask(16, self.prefix_len as int),
    {
        let mut out: [u8; 16] = [0;16];
        let mut index: usize = 0;
        while index < 16
            invariant
                index <= 16,
                out@.len() == 16,
                forall|i: int|
                    0 <= i < index ==> #[trigger] out@[i] == 256 - unit(self.prefix_len - 8 * i),
            decreases 16 - index,
        {
            let step: u16 = unit_of(kept_bits(self.prefix_len, index));
            out[index] = (256 - step) as u8;
            index += 1;
        }
        assert(out@ =~= prefix_mask(16, self.prefix_len as int));
        out
    }

    /// The network without its host bits.
    pub fn trunc(&self) -> (r: IpNet)
        ensures
            r@ == self@.truncated(),
    {
        IpNet {
            addr: IpAddr { v4: self.addr.v4, octets: self.network() },
            prefix_len: self.prefix_len,
        }
    }

    /// Whether an address lies in this network.
    pub fn contains(&self, addr: &IpAddr) -> (r: bool)
        ensures
            r == self@.covers(addr@),
    {
        if self.addr.v4 != addr.v4 {
            return false;
        }
        let mine = mask_octets(&self.addr.octets, self.prefix_len);
        let theirs = mask_octets(&addr.octets, self.prefix_len);
        same_octets(&mine, &theirs)
    }

    /// Whether two networks are written alike: same family, address and
    /// prefix.
    pub fn same(&self, other: &IpNet) -> (r: bool)
        ensures
            r == (self@ == other@),
    {
        self.addr.v4 == other.addr.v4 && self.prefix_len == other.prefix_len && same_octets(
            &self.addr.octets,
            &other.addr.octets,
        )
    }

    /// Orders networks: IPv4 first, then by address, then by prefix.
    pub fn comes_before(&self, other: &IpNet) -> (r: bool)
        ensures
            r == self@.before(other@),
    {
        if self.addr.v4 != other.addr.v4 {
            return self.addr.v4;
        }
        let mut index: usize = 0;
        while index < 16 && self.addr.octets[index] == other.addr.octets[index]
            invariant
                index <= 16,
                self.addr.octets@.take(index as int) == other.addr.octets@.take(index as int),
            decreases 16 - index,
        {
            assert(self.addr.octets@.take(index + 1) =~= self.addr.octets@.take(index as int).push(
                self.addr.octets@[index as int],
            ));
            assert(other.addr.octets@.take(index + 1) =~= other.addr.octets@.take(
                index as int,
            ).push(other.addr.octets@[index as int]));
            index += 1;
        }
        if index == 16 {
            assert(self.addr.octets@.take(16) =~= self.addr.octets@);
            assert(other.addr.octets@.take(16) =~= other.addr.octets@);
            return self.prefix_len < other.prefix_len;
        }
        let less = self.addr.octets[index] < other.addr.octets[index];
        proof {
            let l = self.addr.octets@;
            let r = other.addr.octets@;
            assert(l != r);
            if less {
                assert(l.take(index as int) == r.take(index as int));
                assert(bytes_before(l, r));
            } else {
                assert forall|i: int|
                    0 <= i < l.len() && i < r.len() && l[i] < r[i] implies l.take(i)
                    != #[trigger] r.take(i) by {
                    if i < index {
                        assert(l.take(index as int)[i] == r.take(index as int)[i]);
                    } else if i > index {
                        assert(l.take(i)[index as int] != r.take(i)[index as int]);
                    }
                }
            }
        }
        less
    }
}

/// Compares two addresses octet by octet.
pub fn same_octets(left: &[u8; 16], right: &[u8; 16]) -> (r: bool)
    ensures
        r == (left@ == right@),
{
    let mut index: usize = 0;
    while index < 16
        invariant
            index <= 16,
            forall|i: int| 0 <= i < index ==> left@[i] == right@[i],
        decreases 16 - index,
    {
        if left[index] != right[index] {
            return false;
        }
        index += 1;
    }
    assert(left@ =~= right@);
    true
}

/// The network that a text such as `10.0.0.0/8` or `2001:db8::/32` writes, as
/// `ipnet::IpNet` reads it.
pub uninterp spec fn network_literal(text: Seq<char>) -> Option<Network>;

/// Calls `<ipnet::IpNet as FromStr>::from_str`. The result is the network that
/// the text writes, host bits included, or nothing when it writes none; a
/// network that was read never has a prefix longer than its address.
#[verifier::external_body]
fn read_network(text: &str) -> (r: Option<IpNet>)
    ensures
        match r {
            Some(net) => network_literal(text@) == Some(net@) && net@.wf(),
            None => network_literal(text@) is None,
        },
{
    match text.parse::<ipnet::IpNet>() {
        Ok(ipnet::IpNet::V4(net)) => {
            let [a, b, c, d] = net.addr().octets();
            let octets = [a, b, c, d, 0, 0, 0, 0, 0, 0, 0, 0, 0, 0, 0, 0];
            Some(IpNet { addr: IpAddr { v4: true, octets }, prefix_len: net.prefix_len() })
        },
        Ok(ipnet::IpNet::V6(net)) => {
            let octets = net.addr().octets();
            Some(IpNet { addr: IpAddr { v4: false, octets }, prefix_len: net.prefix_len() })
        },
        Err(_) => None,
    }
}

/// The address that a text such as `192.0.2.1` or `2001:db8::1` writes.
pub uninterp spec fn address_literal(text: Seq<char>) -> Option<Address>;

/// Calls `<core::net::IpAddr as FromStr>::from_str`. The result is the address
/// that the text writes, or nothing when it writes none.
#[verifier::external_body]
fn read_address(text: &str) -> (r: Option<IpAddr>)
    ensures
        match r {
            Some(addr) => address_literal(text@) == Some(addr@) && addr@.wf(),
            None => address_literal(text@) is None,
        },
{
    match text.parse::<core::net::IpAddr>() {
        Ok(core::net::IpAddr::V4(addr)) => {
            let [a, b, c, d] = addr.octets();
            let octets = [a, b, c, d, 0, 0, 0, 0, 0, 0, 0, 0, 0, 0, 0, 0];
            Some(IpAddr { v4: true, octets })
        },
        Ok(core::net::IpAddr::V6(addr)) => Some(IpAddr { v4: false, octets: addr.octets() }),
        Err(_) => None,
    }
}

/// An address with a port. The flow information and the scope belong to IPv6.
#[derive(Clone, Copy, Debug, PartialEq, Eq)]
pub struct SocketAddr {
    pub ip: IpAddr,
    pub port: u16,
    pub flow_info: u32,
    pub scope_id: u32,
}

/// An address with a port as a value.
pub struct Socket {
    pub ip: Address,
    pub port: u16,
    pub flow_info: u32,
    pub scope_id: u32,
}

impl View for SocketAddr {
    type V = Socket;

    open spec fn view(&self) -> Socket {
        Socket {
            ip: self.ip@,
            port: self.port,
            flow_info: self.flow_info,
            scope_id: self.scope_id,
        }
    }
}

/// The address and port that a text such as `192.0.2.1:80` or
/// `[2001:db8::1]:80` writes, or the complaint about a text that writes none.
pub uninterp spec fn socket_literal(text: Seq<char>) -> Result<Socket, Seq<char>>;

/// Calls `<core::net::SocketAddr as FromStr>::from_str`. The result is the
/// address and port that the text writes, or the text of its error when it
/// writes none.
#[verifier::external_body]
fn read_socket(text: &str) -> (r: Result<SocketAddr, String>)
    ensures
        match (r, socket_literal(text@)) {
            (Ok(addr), Ok(wanted)) => addr@ == wanted && addr@.ip.wf(),
            (Err(message), Err(wanted)) => message@ == wanted,
            _ => false,
        },
{
    match text.parse::<core::net::SocketAddr>() {
        Ok(core::net::SocketAddr::V4(addr)) => {
            let mut octets = [0; 16];
            octets[..4].copy_from_slice(&addr.ip().octets());
            let ip = IpAddr { v4: true, octets };
            Ok(SocketAddr { ip, port: addr.port(), flow_info: 0, scope_id: 0 })
        },
        Ok(core::net::SocketAddr::V6(addr)) => {
            let ip = IpAddr { v4: false, octets: addr.ip().octets() };
            let (flow_info, scope_id) = (addr.flowinfo(), addr.scope_id());
            Ok(SocketAddr { ip, port: addr.port(), flow_info, scope_id })
        },
        Err(error) => Err(error.to_string()),
    }
}

impl SocketAddr {
    /// Reads an address with a port.
    pub fn parse(text: &str) -> (r: Result<SocketAddr, String>)
        ensures
            match (r, socket_literal(text@)) {
                (Ok(addr), Ok(wanted)) => addr@ == wanted && addr@.ip.wf(),
                (Err(message), Err(wanted)) => message@ == wanted,
                _ => false,
            },
    {
        read_socket(text)
    }
}

/// How `ipnet::Ipv6Net` writes an IPv6 network.
pub uninterp spec fn ipv6_network_text(octets: Seq<u8>, prefix_len: u8) -> Seq<char>;

/// Calls `<ipnet::Ipv6Net as Display>::fmt` on the network of these octets and
/// this prefix. The result is the text it writes.
#[verifier::external_body]
fn write_ipv6_network(octets: &[u8; 16], prefix_len: u8) -> (r: String)
    requires
        prefix_len <= 128,
    ensures
        r@ == ipv6_network_text(octets@, prefix_len),
{
    ipnet::Ipv6Net::new((*octets).into(), prefix_len).expect("a prefix of at most 128").to_string()
}

impl IpAddr {
    /// Reads an address.
    pub fn parse(text: &str) -> (r: Option<IpAddr>)
        ensures
            match r {
                Some(addr) => address_literal(text@) == Some(addr@) && addr@.wf(),
                None => address_literal(text@) is None,
            },
    {
        read_address(text)
    }
}

impl Network {
    /// A network whose prefix is one.
    pub open spec fn printable(self) -> bool {
        self.v4 || self.prefix_len <= 128
    }

    /// How a network is written.
    pub open spec fn text(self) -> Seq<char> {
        if self.v4 {
            digits(self.octets[0] as nat) + "."@ + digits(self.octets[1] as nat) + "."@ + digits(
                self.octets[2] as nat,
            ) + "."@ + digits(self.octets[3] as nat) + "/"@ + digits(self.prefix_len as nat)
        } else {
            ipv6_network_text(self.octets, self.prefix_len)
        }
    }
}

impl IpNet {
    /// Reads a network.
    pub fn parse(text: &str) -> (r: Option<IpNet>)
        ensures
            match r {
                Some(net) => network_literal(text@) == Some(net@) && net@.wf(),
                None => network_literal(text@) is None,
            },
    {
        read_network(text)
    }

    /// Writes a network.
    pub fn to_text(&self) -> (r: String)
        requires
            self@.printable(),
        ensures
            r@ == self@.text(),
    {
        if !self.addr.v4 {
            return write_ipv6_network(&self.addr.octets, self.prefix_len);
        }
        let mut text = decimal(self.addr.octets[0] as u64);
        text.append(".");
        text.append(decimal(self.addr.octets[1] as u64).as_str());
        text.append(".");
        text.append(decimal(self.addr.octets[2] as u64).as_str());
        text.append(".");
        text.append(decimal(self.addr.octets[3] as u64).as_str());
        text.append("/");
        text.append(decimal(self.prefix_len as u64).as_str());
        text
    }
}

} // verus!
