//! What seeded draws depend on: every part of a packet's flow, its place, its
//! rule and the kind of decision counts.

use vstd::prelude::*;
use crate::common::{
    address_hash, draw, mixed, packet_hash, rule_word, FaultRule, Flow, BURST_LOSS_DOMAIN,
    DUPLICATE_DOMAIN, JITTER_DOMAIN, REORDER_DOMAIN, TRANSITION_DOMAIN,
};

verus! {

/// Multiplying by a number that has an inverse loses nothing.
proof fn products_tell_factors(a: u64, b: u64, factor: u64, inverse: u64, k: int)
    requires
        factor * inverse == 1 + k * 0x1_0000_0000_0000_0000,
        a.wrapping_mul(factor) == b.wrapping_mul(factor),
    ensures
        a == b,
{
    let m = 0x1_0000_0000_0000_0000int;
    assert(a.wrapping_mul(factor) == (a * factor) % m);
    assert(b.wrapping_mul(factor) == (b * factor) % m);
    let d = a - b;
    let q = (a * factor) / m - (b * factor) / m;
    assert(a * factor == m * ((a * factor) / m) + (a * factor) % m) by {
        vstd::arithmetic::div_mod::lemma_fundamental_div_mod(a * factor, m);
    }
    assert(b * factor == m * ((b * factor) / m) + (b * factor) % m) by {
        vstd::arithmetic::div_mod::lemma_fundamental_div_mod(b * factor, m);
    }
    assert(d * factor == a * factor - b * factor) by (nonlinear_arith)
        requires
            d == a - b,
    ;
    assert(d * factor == q * m) by (nonlinear_arith)
        requires
            d * factor == a * factor - b * factor,
            a * factor - b * factor == m * ((a * factor) / m) - m * ((b * factor) / m),
            q == (a * factor) / m - (b * factor) / m,
    ;
    let whole = q * inverse - d * k;
    assert(d == whole * m) by (nonlinear_arith)
        requires
            d * factor == q * m,
            factor * inverse == 1 + k * m,
            whole == q * inverse - d * k,
    ;
    assert(whole == 0) by (nonlinear_arith)
        requires
            d == whole * m,
            -m < d < m,
            m > 0,
    ;
}

/// Scrambling loses nothing: different words stay different.
pub proof fn mixing_tells_words_apart(a: u64, b: u64)
    requires
        a != b,
    ensures
        mixed(a) != mixed(b),
{
    if mixed(a) == mixed(b) {
        let a1 = a ^ (a >> 30);
        let b1 = b ^ (b >> 30);
        let a2 = a1.wrapping_mul(0xbf58_476d_1ce4_e5b9);
        let b2 = b1.wrapping_mul(0xbf58_476d_1ce4_e5b9);
        let a3 = a2 ^ (a2 >> 27);
        let b3 = b2 ^ (b2 >> 27);
        let a4 = a3.wrapping_mul(0x94d0_49bb_1331_11eb);
        let b4 = b3.wrapping_mul(0x94d0_49bb_1331_11eb);
        assert(a4 ^ (a4 >> 31) == b4 ^ (b4 >> 31) ==> a4 == b4) by (bit_vector);
        products_tell_factors(
            a3,
            b3,
            0x94d0_49bb_1331_11eb,
            3573116690164977347,
            2077064247507883091,
        );
        assert(a2 ^ (a2 >> 27) == b2 ^ (b2 >> 27) ==> a2 == b2) by (bit_vector);
        products_tell_factors(
            a1,
            b1,
            0xbf58_476d_1ce4_e5b9,
            10871156337175269513,
            8125545580553827436,
        );
        assert(a ^ (a >> 30) == b ^ (b >> 30) ==> a == b) by (bit_vector);
    }
}

proof fn xor_tells_apart(a: u64, b: u64, c: u64)
    requires
        a != b,
    ensures
        a ^ c != b ^ c,
        c ^ a != c ^ b,
{
    assert(a ^ c == b ^ c ==> a == b) by (bit_vector);
    assert(c ^ a == c ^ b ==> a == b) by (bit_vector);
}

proof fn starts_count(source: Seq<u8>, destination: Seq<u8>, a: u64, b: u64, n: nat)
    requires
        a != b,
    ensures
        address_hash(source, destination, a, n) != address_hash(source, destination, b, n),
    decreases n,
{
    if n > 0 {
        starts_count(source, destination, a, b, (n - 1) as nat);
        let x = address_hash(source, destination, a, (n - 1) as nat);
        let y = address_hash(source, destination, b, (n - 1) as nat);
        let s = source[n - 1] as u64;
        let d = (destination[n - 1] as u64) << 1;
        xor_tells_apart(x, y, s);
        mixing_tells_words_apart(x ^ s, y ^ s);
        xor_tells_apart(mixed(x ^ s), mixed(y ^ s), d);
        mixing_tells_words_apart(mixed(x ^ s) ^ d, mixed(y ^ s) ^ d);
    }
}

/// Addresses that agree but for one byte.
pub open spec fn differ_at(a: Seq<u8>, b: Seq<u8>, at: int) -> bool {
    &&& a.len() == b.len() == 16
    &&& 0 <= at < 16
    &&& a[at] != b[at]
    &&& forall|i: int| 0 <= i < 16 && i != at ==> a[i] == b[i]
}

proof fn bytes_count(
    source: Seq<u8>,
    destination: Seq<u8>,
    source_b: Seq<u8>,
    destination_b: Seq<u8>,
    start: u64,
    at: int,
    n: nat,
)
    requires
        n <= 16,
        source == source_b && differ_at(destination, destination_b, at) || destination
            == destination_b && differ_at(source, source_b, at),
    ensures
        n <= at ==> address_hash(source, destination, start, n) == address_hash(
            source_b,
            destination_b,
            start,
            n,
        ),
        n > at ==> address_hash(source, destination, start, n) != address_hash(
            source_b,
            destination_b,
            start,
            n,
        ),
    decreases n,
{
    if n > 0 {
        let m = (n - 1) as nat;
        bytes_count(source, destination, source_b, destination_b, start, at, m);
        let x = address_hash(source, destination, start, m);
        let y = address_hash(source_b, destination_b, start, m);
        let s = source[m as int] as u64;
        let t = source_b[m as int] as u64;
        let d = (destination[m as int] as u64) << 1;
        let e = (destination_b[m as int] as u64) << 1;
        if m < at {
            assert(s == t && d == e);
        } else if m > at {
            assert(s == t && d == e);
            xor_tells_apart(x, y, s);
            mixing_tells_words_apart(x ^ s, y ^ s);
            xor_tells_apart(mixed(x ^ s), mixed(y ^ s), d);
            mixing_tells_words_apart(mixed(x ^ s) ^ d, mixed(y ^ s) ^ d);
        } else if source == source_b {
            let p = destination[m as int];
            let q = destination_b[m as int];
            assert((p as u64) << 1 == (q as u64) << 1 ==> p == q) by (bit_vector);
            xor_tells_apart(d, e, mixed(x ^ s));
            mixing_tells_words_apart(mixed(x ^ s) ^ d, mixed(x ^ s) ^ e);
        } else {
            xor_tells_apart(s, t, x);
            mixing_tells_words_apart(x ^ s, x ^ t);
            xor_tells_apart(mixed(x ^ s), mixed(x ^ t), d);
            mixing_tells_words_apart(mixed(x ^ s) ^ d, mixed(x ^ t) ^ d);
        }
    }
}

/// The packets of a flow draw differently: no two of them draw the same under
/// one rule for one kind of decision.
pub proof fn packets_draw_apart(flow: Flow, a: u64, b: u64, rule: FaultRule, domain: u64)
    requires
        a != b,
    ensures
        draw(flow, a, rule, domain) != draw(flow, b, rule, domain),
{
    let start = domain ^ rule_word(rule);
    let addresses = address_hash(flow.source, flow.destination, start, 16);
    let with_ports = addresses ^ (((flow.source_port as u64) << 48) | ((
    flow.destination_port as u64) << 32));
    let with_protocol = with_ports ^ ((flow.protocol as u64) << 24);
    xor_tells_apart(a, b, with_protocol);
    mixing_tells_words_apart(with_protocol ^ a, with_protocol ^ b);
}

/// Flows that differ in one port, in the protocol, or in one byte of one address
/// draw differently.
pub proof fn flows_draw_apart(a: Flow, b: Flow, packet_index: u64, rule: FaultRule, domain: u64, at: int)
    requires
        ({
            ||| b == (Flow { source_port: b.source_port, ..a }) && a.source_port != b.source_port
            ||| b == (Flow { destination_port: b.destination_port, ..a }) && a.destination_port
                != b.destination_port
            ||| b == (Flow { protocol: b.protocol, ..a }) && a.protocol != b.protocol
            ||| b == (Flow { source: b.source, ..a }) && differ_at(a.source, b.source, at)
            ||| b == (Flow { destination: b.destination, ..a }) && differ_at(
                a.destination,
                b.destination,
                at,
            )
        }),
    ensures
        draw(a, packet_index, rule, domain) != draw(b, packet_index, rule, domain),
{
    let start = domain ^ rule_word(rule);
    let x = address_hash(a.source, a.destination, start, 16);
    let y = address_hash(b.source, b.destination, start, 16);
    let (sa, sb, da, db) = (a.source_port, b.source_port, a.destination_port, b.destination_port);
    let (pa, pb) = (a.protocol, b.protocol);
    let p = ((sa as u64) << 48) | ((da as u64) << 32);
    let q = ((sb as u64) << 48) | ((db as u64) << 32);
    let u = (pa as u64) << 24;
    let v = (pb as u64) << 24;
    assert(p == q ==> sa == sb && da == db) by (bit_vector)
        requires
            p == ((sa as u64) << 48) | ((da as u64) << 32),
            q == ((sb as u64) << 48) | ((db as u64) << 32),
    ;
    assert(u == v ==> pa == pb) by (bit_vector)
        requires
            u == (pa as u64) << 24,
            v == (pb as u64) << 24,
    ;
    if a.source != b.source || a.destination != b.destination {
        bytes_count(a.source, a.destination, b.source, b.destination, start, at, 16);
        xor_tells_apart(x, y, p);
        xor_tells_apart(x ^ p, y ^ p, u);
        xor_tells_apart(x ^ p ^ u, y ^ p ^ u, packet_index);
    } else if p != q {
        xor_tells_apart(p, q, x);
        xor_tells_apart(x ^ p, x ^ q, u);
        xor_tells_apart(x ^ p ^ u, x ^ q ^ u, packet_index);
    } else {
        xor_tells_apart(u, v, x ^ p);
        xor_tells_apart(x ^ p ^ u, x ^ p ^ v, packet_index);
    }
    mixing_tells_words_apart(x ^ p ^ u ^ packet_index, y ^ q ^ v ^ packet_index);
}

/// Rules that differ in their seed or in their number draw differently, and so
/// does one rule for two kinds of decisions.
pub proof fn rules_and_kinds_draw_apart(
    flow: Flow,
    packet_index: u64,
    a: FaultRule,
    b: FaultRule,
    domain: u64,
    other: u64,
)
    ensures
        a.seed != b.seed || a.id != b.id ==> draw(flow, packet_index, a, domain) != draw(
            flow,
            packet_index,
            b,
            domain,
        ),
        domain != other ==> draw(flow, packet_index, a, domain) != draw(
            flow,
            packet_index,
            a,
            other,
        ),
{
    let (sa, sb, ia, ib) = (a.seed, b.seed, a.id, b.id);
    let p = (sa as u64) << 32 | ia as u64;
    let q = (sb as u64) << 32 | ib as u64;
    assert(p == q ==> sa == sb && ia == ib) by (bit_vector)
        requires
            p == (sa as u64) << 32 | ia as u64,
            q == (sb as u64) << 32 | ib as u64,
    ;
    if p != q {
        xor_tells_apart(p, q, domain);
        different_starts(flow, packet_index, domain ^ p, domain ^ q);
    }
    if domain != other {
        xor_tells_apart(domain, other, p);
        different_starts(flow, packet_index, domain ^ p, other ^ p);
    }
}

proof fn different_starts(flow: Flow, packet_index: u64, a: u64, b: u64)
    requires
        a != b,
    ensures
        packet_hash(flow, packet_index, a) != packet_hash(flow, packet_index, b),
{
    starts_count(flow.source, flow.destination, a, b, 16);
    let x = address_hash(flow.source, flow.destination, a, 16);
    let y = address_hash(flow.source, flow.destination, b, 16);
    let p = ((flow.source_port as u64) << 48) | ((flow.destination_port as u64) << 32);
    let u = (flow.protocol as u64) << 24;
    xor_tells_apart(x, y, p);
    xor_tells_apart(x ^ p, y ^ p, u);
    xor_tells_apart(x ^ p ^ u, y ^ p ^ u, packet_index);
    mixing_tells_words_apart(x ^ p ^ u ^ packet_index, y ^ p ^ u ^ packet_index);
}

/// The kinds of decisions that are drawn for a packet are told apart, so that
/// none of them follows another; that of seeded loss has no kind of its own.
pub proof fn kinds_of_decisions_differ()
    ensures
        REORDER_DOMAIN != DUPLICATE_DOMAIN,
        REORDER_DOMAIN != JITTER_DOMAIN,
        REORDER_DOMAIN != TRANSITION_DOMAIN,
        REORDER_DOMAIN != BURST_LOSS_DOMAIN,
        DUPLICATE_DOMAIN != JITTER_DOMAIN,
        DUPLICATE_DOMAIN != TRANSITION_DOMAIN,
        DUPLICATE_DOMAIN != BURST_LOSS_DOMAIN,
        JITTER_DOMAIN != TRANSITION_DOMAIN,
        JITTER_DOMAIN != BURST_LOSS_DOMAIN,
        TRANSITION_DOMAIN != BURST_LOSS_DOMAIN,
        REORDER_DOMAIN != 0,
        DUPLICATE_DOMAIN != 0,
        JITTER_DOMAIN != 0,
        TRANSITION_DOMAIN != 0,
        BURST_LOSS_DOMAIN != 0,
{
}

/// A draw starts from the kind of decision and from the rule, its seed above
/// its number. It takes in each byte of the source and twice each byte of the
/// destination in turn, and then, in one word with the packet's number, the
/// ports and the protocol, each in a place of its own.
pub proof fn draws_take_in_every_field(
    flow: Flow,
    packet_index: u64,
    rule: FaultRule,
    domain: u64,
    start: u64,
    n: nat,
)
    ensures
        rule_word(rule) == rule.seed * 0x1_0000_0000 + rule.id,
        address_hash(flow.source, flow.destination, start, 0) == start,
        address_hash(flow.source, flow.destination, start, n + 1) == mixed(
            mixed(
                address_hash(flow.source, flow.destination, start, n) ^ (flow.source[n as int]
                    as u64),
            ) ^ ((2 * flow.destination[n as int]) as u64),
        ),
        draw(flow, packet_index, rule, domain) == mixed(
            address_hash(flow.source, flow.destination, domain ^ rule_word(rule), 16) ^ ((
            flow.source_port * 0x1_0000_0000_0000 + flow.destination_port * 0x1_0000_0000) as u64)
                ^ ((flow.protocol * 0x100_0000) as u64) ^ packet_index,
        ),
{
    let seed = rule.seed;
    let id = rule.id;
    assert((seed as u64) << 32 | id as u64 == seed * 0x1_0000_0000 + id) by (bit_vector);
    let byte = flow.destination[n as int];
    assert((byte as u64) << 1 == 2 * byte) by (bit_vector);
    let from = flow.source_port;
    let to = flow.destination_port;
    let protocol = flow.protocol;
    assert(((from as u64) << 48) | ((to as u64) << 32) == from * 0x1_0000_0000_0000 + to
        * 0x1_0000_0000) by (bit_vector);
    assert((protocol as u64) << 24 == protocol * 0x100_0000) by (bit_vector);
}

} // verus!
