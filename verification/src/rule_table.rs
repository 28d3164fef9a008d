//! What packets find in a published rule table: the longest destination prefix
//! first, then the longest source prefix below it.

use vstd::prelude::*;
use crate::classifier::{
    be_bytes, chosen, destination_data, destination_lookup, source_data, source_lookup,
    source_namespace, Answers, Diagnostic, TableKey, TableLookup,
};
use crate::common::{
    zero_bytes, Flow, RuleNode, ADDRESS_FAMILY_IPV4, ADDRESS_FAMILY_IPV6, MAX_RULES,
    MAX_RULE_MAP_ENTRIES, RULE_NODE_DESTINATION, RULE_NODE_SOURCE,
};
use crate::net::{leading, masked, prefix_mask, unit, Address, IpNet, Network};
use crate::packet::Parsed;
use crate::protocol::{repeats_id, RuleSpec};
use crate::rule_store::{
    addressed, among, compiled, family_of, filed_under, group_index, group_index_finds,
    group_offset, grouped, grouping_error, groups_hold_rules, insertion_index, insertion_index_fits,
    is_destination, is_source, listed_at, lists, repeats_source, ruleset_error, separate,
    source_octets, source_prefix, well_filed, Generation, Group, TableEntry,
};

verus! {

/// Whether a table entry covers a key: the bits that the entry names agree.
pub open spec fn entry_covers(entry: TableKey, key: TableKey) -> bool {
    &&& entry.prefix_len <= key.prefix_len
    &&& masked(entry.data, entry.prefix_len as int) == masked(key.data, entry.prefix_len as int)
}

/// Whether a lookup of a key in a table gives this node: that of an entry
/// which covers the key with the longest prefix, or none where none covers it.
pub open spec fn looks_up(entries: Seq<TableEntry>, key: TableKey, node: Option<RuleNode>) -> bool {
    match node {
        None => forall|i: int|
            0 <= i < entries.len() ==> !entry_covers((#[trigger] entries[i]).key@, key),
        Some(found) => exists|i: int| #[trigger] is_longest(entries, key, i) && entries[i].node == found,
    }
}

/// Whether an entry covers a key with the longest prefix of all that do.
pub open spec fn is_longest(entries: Seq<TableEntry>, key: TableKey, i: int) -> bool {
    &&& 0 <= i < entries.len()
    &&& entry_covers(entries[i].key@, key)
    &&& forall|j: int|
        0 <= j < entries.len() && entry_covers((#[trigger] entries[j]).key@, key)
            ==> entries[j].key.prefix_len <= entries[i].key.prefix_len
}

/// The destination address of a flow.
pub open spec fn destination_of(flow: Flow) -> Address {
    Address { v4: flow.family == ADDRESS_FAMILY_IPV4, octets: flow.destination }
}

/// The source address of a flow.
pub open spec fn source_of(flow: Flow) -> Address {
    Address { v4: flow.family == ADDRESS_FAMILY_IPV4, octets: flow.source }
}

/// A flow as the classifier reads it off a packet.
pub open spec fn is_flow(flow: Flow) -> bool {
    &&& flow.family == ADDRESS_FAMILY_IPV4 || flow.family == ADDRESS_FAMILY_IPV6
    &&& flow.source.len() == 16
    &&& flow.destination.len() == 16
}

/// Whether the source filter of a rule covers an address.
pub open spec fn source_covers(spec: RuleSpec, address: Address) -> bool {
    match spec.source {
        Some(source) => source@.covers(address),
        None => spec.destination@.v4 == address.v4,
    }
}

proof fn masking_twice(octets: Seq<u8>, prefix_len: int)
    ensures
        masked(masked(octets, prefix_len), prefix_len) == masked(octets, prefix_len),
{
    assert forall|i: int| 0 <= i < octets.len() implies leading(
        leading(#[trigger] octets[i], prefix_len - 8 * i),
        prefix_len - 8 * i,
    ) == leading(octets[i], prefix_len - 8 * i) by {
        let b = octets[i];
        let u = unit(prefix_len - 8 * i);
        assert(u == 256 || u == 128 || u == 64 || u == 32 || u == 16 || u == 8 || u == 4 || u == 2
            || u == 1);
        assert((b - b as int % u) % u == 0);
    }
    assert(masked(masked(octets, prefix_len), prefix_len) =~= masked(octets, prefix_len));
}

proof fn whole_bytes_are_kept(byte: u8, kept: int)
    requires
        kept >= 8,
    ensures
        leading(byte, kept) == byte,
{
}

/// Destination entries agree on a prefix exactly when families and address
/// prefixes agree.
proof fn destination_prefixes(fa: u8, a: Seq<u8>, fb: u8, b: Seq<u8>, q: int)
    requires
        a.len() == 16,
        b.len() == 16,
        q >= 0,
    ensures
        masked(destination_data(fa, a), 8 + q) == masked(destination_data(fb, b), 8 + q) <==> fa
            == fb && masked(a, q) == masked(b, q),
{
    let da = destination_data(fa, a);
    let db = destination_data(fb, b);
    let ma = masked(da, 8 + q);
    let mb = masked(db, 8 + q);
    whole_bytes_are_kept(fa, 8 + q);
    whole_bytes_are_kept(fb, 8 + q);
    assert(ma[0] == fa && mb[0] == fb);
    assert forall|i: int| 0 <= i < 16 implies ma[i + 1] == masked(a, q)[i] && mb[i + 1] == masked(
        b,
        q,
    )[i] by {
        assert(da[i + 1] == a[i]);
        assert(db[i + 1] == b[i]);
    }
    assert forall|i: int| 17 <= i < 24 implies ma[i] == mb[i] by {
        assert(da[i] == 0 && db[i] == 0);
    }
    if ma == mb {
        assert forall|i: int| 0 <= i < 16 implies masked(a, q)[i] == masked(b, q)[i] by {
            assert(ma[i + 1] == mb[i + 1]);
        }
        assert(masked(a, q) =~= masked(b, q));
    }
    if fa == fb && masked(a, q) == masked(b, q) {
        assert forall|i: int| 0 <= i < 24 implies ma[i] == mb[i] by {
            if 1 <= i < 17 {
                assert(ma[(i - 1) + 1] == masked(a, q)[i - 1]);
            }
        }
        assert(ma =~= mb);
    }
}

#[verifier::spinoff_prover]
proof fn be_bytes_differ(m: u32, n: u32)
    requires
        be_bytes(m) == be_bytes(n),
    ensures
        m == n,
{
    let a = be_bytes(m);
    let b = be_bytes(n);
    assert(a[0] == b[0] && a[1] == b[1] && a[2] == b[2] && a[3] == b[3]);
    assert(m == (m / 0x100_0000) * 0x100_0000 + (m / 0x1_0000 % 256) * 0x1_0000 + (m / 256 % 256)
        * 256 + m % 256);
    assert(n == (n / 0x100_0000) * 0x100_0000 + (n / 0x1_0000 % 256) * 0x1_0000 + (n / 256 % 256)
        * 256 + n % 256);
}

/// Source entries agree on a prefix exactly when families, destinations and
/// address prefixes agree.
proof fn source_prefixes(fa: u8, ia: u32, a: Seq<u8>, fb: u8, ib: u32, b: Seq<u8>, q: int)
    requires
        a.len() == 16,
        b.len() == 16,
        q >= 0,
    ensures
        masked(source_data(fa, ia, a), 40 + q) == masked(source_data(fb, ib, b), 40 + q) <==> (
        source_namespace(fa) == source_namespace(fb) && ia == ib && masked(a, q) == masked(b, q)),
{
    let da = source_data(fa, ia, a);
    let db = source_data(fb, ib, b);
    let ma = masked(da, 40 + q);
    let mb = masked(db, 40 + q);
    assert forall|i: int| 0 <= i < 5 implies ma[i] == da[i] && mb[i] == db[i] by {
        whole_bytes_are_kept(da[i], 40 + q - 8 * i);
        whole_bytes_are_kept(db[i], 40 + q - 8 * i);
    }
    assert(ma[0] == source_namespace(fa) && mb[0] == source_namespace(fb));
    assert forall|i: int| 0 <= i < 4 implies ma[i + 1] == be_bytes(ia)[i] && mb[i + 1] == be_bytes(
        ib,
    )[i] by {
        assert(da[i + 1] == be_bytes(ia)[i]);
        assert(db[i + 1] == be_bytes(ib)[i]);
    }
    assert forall|i: int| 0 <= i < 16 implies ma[i + 5] == masked(a, q)[i] && mb[i + 5] == masked(
        b,
        q,
    )[i] by {
        assert(da[i + 5] == a[i]);
        assert(db[i + 5] == b[i]);
    }
    assert forall|i: int| 21 <= i < 24 implies ma[i] == mb[i] by {
        assert(da[i] == 0 && db[i] == 0);
    }
    if ma == mb {
        assert forall|i: int| 0 <= i < 4 implies be_bytes(ia)[i] == be_bytes(ib)[i] by {
            assert(ma[i + 1] == mb[i + 1]);
        }
        assert(be_bytes(ia) =~= be_bytes(ib));
        be_bytes_differ(ia, ib);
        assert forall|i: int| 0 <= i < 16 implies masked(a, q)[i] == masked(b, q)[i] by {
            assert(ma[i + 5] == mb[i + 5]);
        }
        assert(masked(a, q) =~= masked(b, q));
    }
    if source_namespace(fa) == source_namespace(fb) && ia == ib && masked(a, q) == masked(b, q) {
        assert forall|i: int| 0 <= i < 24 implies ma[i] == mb[i] by {
            if 1 <= i < 5 {
                assert(ma[(i - 1) + 1] == be_bytes(ia)[i - 1]);
            } else if 5 <= i < 21 {
                assert(ma[(i - 5) + 5] == masked(a, q)[i - 5]);
            }
        }
        assert(ma =~= mb);
    }
}

/// Destination and source entries never cover each other's keys.
proof fn namespaces_are_apart(fa: u8, a: Seq<u8>, fb: u8, id: u32, b: Seq<u8>, p: int)
    requires
        p >= 8,
        fa == ADDRESS_FAMILY_IPV4 || fa == ADDRESS_FAMILY_IPV6,
        a.len() == 16,
        b.len() == 16,
    ensures
        masked(destination_data(fa, a), p) != masked(source_data(fb, id, b), p),
{
    let ma = masked(destination_data(fa, a), p);
    let mb = masked(source_data(fb, id, b), p);
    whole_bytes_are_kept(fa, p);
    whole_bytes_are_kept(source_namespace(fb), p);
    assert(ma[0] == fa);
    assert(mb[0] == source_namespace(fb));
}

/// Which group an entry of a table belongs to.
proof fn entry_has_group(entries: Seq<TableEntry>, groups: Seq<Group>, n: nat, generation: u32, i: int) -> (
r: (int, int))
    requires
        n <= groups.len(),
        lists(entries, groups, n, generation),
        0 <= i < entries.len(),
    ensures
        0 <= r.0 < n,
        -1 <= r.1 < groups[r.0].members.len(),
        i == group_offset(groups, r.0 as nat) + 1 + r.1,
        r.1 == -1 ==> is_destination(entries[i], groups[r.0].network, r.0, generation),
        r.1 >= 0 ==> is_source(entries[i], groups[r.0].members[r.1], r.0, generation),
    decreases n,
{
    let g = (n - 1) as nat;
    let start = group_offset(groups, g);
    assert(listed_at(entries, groups, g as int, generation));
    if i >= start {
        let k = i - start - 1;
        if k >= 0 {
            assert(is_source(entries[i], groups[g as int].members[k], g as int, generation));
        }
        (g as int, k)
    } else {
        let shorter = entries.take(start as int);
        assert forall|h: int| 0 <= h < g implies #[trigger] listed_at(
            shorter,
            groups,
            h,
            generation,
        ) by {
            assert(listed_at(entries, groups, h, generation));
            offsets_grow(groups, (h + 1) as nat, g);
            let from = group_offset(groups, h as nat);
            assert forall|j: int| from < j <= from + groups[h].members.len() implies is_source(
                #[trigger] shorter[j],
                groups[h].members[j - from - 1],
                h,
                generation,
            ) by {
                assert(shorter[j] == entries[j]);
            }
        }
        entry_has_group(shorter, groups, g, generation, i)
    }
}

proof fn offsets_grow(groups: Seq<Group>, m: nat, n: nat)
    requires
        m <= n,
    ensures
        group_offset(groups, m) <= group_offset(groups, n),
    decreases n,
{
    if m < n {
        offsets_grow(groups, m, (n - 1) as nat);
    }
}

/// Whether a group's destination is the longest that covers an address.
pub open spec fn longest_group(groups: Seq<Group>, g: int, address: Address) -> bool {
    &&& 0 <= g < groups.len()
    &&& groups[g].network.covers(address)
    &&& forall|h: int|
        0 <= h < groups.len() && (#[trigger] groups[h]).network.covers(address)
            ==> groups[h].network.prefix_len <= groups[g].network.prefix_len
}

/// Whether a rule's source filter is the longest of its group that covers an
/// address.
pub open spec fn longest_member(group: Group, k: int, address: Address) -> bool {
    &&& 0 <= k < group.members.len()
    &&& source_covers(group.members[k], address)
    &&& forall|l: int|
        0 <= l < group.members.len() && source_covers(#[trigger] group.members[l], address)
            ==> source_prefix(group.members[l].source) <= source_prefix(group.members[k].source)
}

proof fn truncation_keeps_coverage(network: Network, address: Address)
    ensures
        network.truncated().covers(address) == network.covers(address),
        network.truncated().truncated() == network.truncated(),
{
    masking_twice(network.octets, network.prefix_len as int);
}

/// When an entry of the table covers a destination key.
proof fn destination_coverage(
    entries: Seq<TableEntry>,
    groups: Seq<Group>,
    generation: u32,
    flow: Flow,
    i: int,
) -> (r: (int, int))
    requires
        lists(entries, groups, groups.len(), generation),
        filed_and_addressed(groups),
        is_flow(flow),
        0 <= i < entries.len(),
    ensures
        0 <= r.0 < groups.len(),
        -1 <= r.1 < groups[r.0].members.len(),
        i == group_offset(groups, r.0 as nat) + 1 + r.1,
        entry_covers(entries[i].key@, destination_lookup(flow)) <==> r.1 == -1
            && groups[r.0].network.covers(destination_of(flow)),
        r.1 == -1 ==> is_destination(entries[i], groups[r.0].network, r.0, generation),
{
    let (g, k) = entry_has_group(entries, groups, groups.len(), generation, i);
    let group = groups[g];
    let key = destination_lookup(flow);
    if k == -1 {
        let q = group.network.prefix_len as int;
        destination_prefixes(
            family_of(group.network.v4),
            group.network.octets,
            flow.family,
            flow.destination,
            q,
        );
    } else {
        let spec = group.members[k];
        assert(addressed(spec));
        masking_keeps_length(spec.source);
        let q = source_prefix(spec.source) as int;
        namespaces_are_apart(
            flow.family,
            flow.destination,
            family_of(spec.destination@.v4),
            g as u32,
            source_octets(spec.source),
            40 + q,
        );
    }
    (g, k)
}

proof fn masking_keeps_length(source: Option<IpNet>)
    requires
        source matches Some(network) ==> network@.wf(),
    ensures
        source_octets(source).len() == 16,
{
}

/// Groups of rules whose addresses are addresses.
pub open spec fn filed_and_addressed(groups: Seq<Group>) -> bool {
    &&& well_filed(groups)
    &&& forall|g: int, k: int|
        0 <= g < groups.len() && 0 <= k < groups[g].members.len() ==> addressed(
            #[trigger] groups[g].members[k],
        )
    &&& forall|g: int| 0 <= g < groups.len() ==> (#[trigger] groups[g]).network.wf()
}

/// When an entry of the table covers a source key.
proof fn source_coverage(
    entries: Seq<TableEntry>,
    groups: Seq<Group>,
    generation: u32,
    flow: Flow,
    id: u32,
    i: int,
) -> (r: (int, int))
    requires
        lists(entries, groups, groups.len(), generation),
        filed_and_addressed(groups),
        matched_families(groups),
        groups.len() <= MAX_RULES,
        is_flow(flow),
        0 <= i < entries.len(),
    ensures
        0 <= r.0 < groups.len(),
        -1 <= r.1 < groups[r.0].members.len(),
        i == group_offset(groups, r.0 as nat) + 1 + r.1,
        entry_covers(entries[i].key@, source_lookup(flow, id)) <==> r.1 >= 0 && r.0 == id
            && source_covers(groups[r.0].members[r.1], source_of(flow)),
        r.1 >= 0 ==> is_source(entries[i], groups[r.0].members[r.1], r.0, generation),
{
    let (g, k) = entry_has_group(entries, groups, groups.len(), generation, i);
    let group = groups[g];
    if k == -1 {
        namespaces_are_apart(
            family_of(group.network.v4),
            group.network.octets,
            flow.family,
            id,
            flow.source,
            8 + group.network.prefix_len,
        );
    } else {
        let spec = group.members[k];
        assert(addressed(spec));
        masking_keeps_length(spec.source);
        let q = source_prefix(spec.source) as int;
        source_prefixes(
            family_of(spec.destination@.v4),
            g as u32,
            source_octets(spec.source),
            flow.family,
            id,
            flow.source,
            q,
        );
        match spec.source {
            Some(source) => {
                truncation_keeps_coverage(source@, source_of(flow));
                masking_twice(source@.octets, q);
            },
            None => {
                assert forall|j: int| 0 <= j < 16 implies masked(zero_bytes(16), 0)[j] == masked(
                    flow.source,
                    0,
                )[j] by {
                    assert(unit(0 - 8 * j) == 256);
                    assert(flow.source[j] as int % 256 == flow.source[j]);
                }
                assert(masked(zero_bytes(16), 0) =~= masked(flow.source, 0));
            },
        }
    }
    (g, k)
}

/// Rules whose source filter has the family of their destination.
pub open spec fn matched_families(groups: Seq<Group>) -> bool {
    forall|g: int, k: int|
        0 <= g < groups.len() && 0 <= k < groups[g].members.len() ==> (
        #[trigger] groups[g].members[k].source matches Some(source) ==> source@.v4
            == groups[g].members[k].destination@.v4)
}

/// The rules of a group differ in their sources.
pub open spec fn distinct_sources(groups: Seq<Group>) -> bool {
    forall|g: int, k: int, l: int|
        0 <= g < groups.len() && 0 <= k < l < groups[g].members.len() ==> (
        #[trigger] groups[g].members[k]).source_bits() != (
        #[trigger] groups[g].members[l]).source_bits()
}

proof fn grouping_error_reaches(specs: Seq<RuleSpec>, from: int, at: int)
    requires
        0 <= from <= at < specs.len(),
        grouping_error(specs, from) is None,
    ensures
        specs[at].error() is None,
        !repeats_id(specs, at),
        !repeats_source(specs, at),
    decreases at - from,
{
    if from < at {
        grouping_error_reaches(specs, from + 1, at);
    }
}

proof fn groups_differ_in_sources(specs: Seq<RuleSpec>, n: nat)
    requires
        n <= specs.len(),
        grouping_error(specs, 0) is None,
    ensures
        distinct_sources(grouped(specs, n)),
    decreases n,
{
    if n > 0 {
        let m = (n - 1) as nat;
        groups_differ_in_sources(specs, m);
        groups_hold_rules(specs, m);
        grouping_error_reaches(specs, 0, n - 1);
        let before = grouped(specs, m);
        let after = grouped(specs, n);
        let spec = specs[n - 1];
        let network = filed_under(spec);
        group_index_finds(before, network, 0);
        insertion_index_fits(before, network, 0);
        assert forall|g: int, k: int, l: int|
            0 <= g < after.len() && 0 <= k < l < after[g].members.len() implies (
        #[trigger] after[g].members[k]).source_bits() != (
        #[trigger] after[g].members[l]).source_bits() by {
            match group_index(before, network, 0) {
                Some(at) => {
                    if g == at && l == before[at].members.len() {
                        let older = before[at].members[k];
                        assert(after[g].members[k] == older);
                        assert(among(specs, m as int, older));
                        let j = choose|j: int| 0 <= j < m && #[trigger] specs[j] == older;
                        assert(filed_under(specs[j]) == filed_under(specs[n - 1]));
                        assert(specs[j].source_bits() != spec.source_bits());
                    } else {
                        assert(after[g].members[k] == before[g].members[k]);
                        assert(after[g].members[l] == before[g].members[l]);
                    }
                },
                None => {
                    let at = insertion_index(before, network, 0);
                    if g < at {
                        assert(after[g] == before[g]);
                    } else if g > at {
                        assert(after[g] == before[g - 1]);
                    }
                },
            }
        }
    }
}

proof fn ruleset_groups_are_sound(specs: Seq<RuleSpec>)
    requires
        ruleset_error(specs) is None,
        forall|i: int| 0 <= i < specs.len() ==> addressed(#[trigger] specs[i]),
    ensures
        filed_and_addressed(grouped(specs, specs.len())),
        matched_families(grouped(specs, specs.len())),
        separate(grouped(specs, specs.len())),
        distinct_sources(grouped(specs, specs.len())),
        0 < grouped(specs, specs.len()).len() <= specs.len() <= MAX_RULES,
{
    let n = specs.len();
    let groups = grouped(specs, n);
    groups_hold_rules(specs, n);
    groups_differ_in_sources(specs, n);
    assert forall|g: int, k: int|
        0 <= g < groups.len() && 0 <= k < groups[g].members.len() implies addressed(
        #[trigger] groups[g].members[k],
    ) && (groups[g].members[k].source matches Some(source) ==> source@.v4
        == groups[g].members[k].destination@.v4) by {
        assert(among(specs, n as int, groups[g].members[k]));
        let j = choose|j: int| 0 <= j < n && #[trigger] specs[j] == groups[g].members[k];
        grouping_error_reaches(specs, 0, j);
    }
    assert forall|g: int| 0 <= g < groups.len() implies (#[trigger] groups[g]).network.wf() by {
        let spec = groups[g].members[0];
        assert(addressed(spec));
        assert(filed_under(spec) == groups[g].network);
        truncation_keeps_wf(spec.destination@);
    }
    assert(crate::rule_store::held(groups, specs[0]));
}

proof fn truncation_keeps_wf(network: Network)
    requires
        network.wf(),
    ensures
        network.truncated().wf(),
{
    let t = network.truncated();
    if network.v4 {
        assert forall|i: int| 4 <= i < 16 implies t.octets[i] == 0 by {
            assert(network.octets.subrange(4, 16)[i - 4] == network.octets[i]);
        }
        assert(t.octets.subrange(4, 16) =~= zero_bytes(12));
    }
}

/// A destination lookup in a published table gives the destination with the
/// longest prefix that covers the packet, and nothing only where no rule's
/// destination covers it.
pub proof fn destination_lookup_is_longest(
    specs: Seq<RuleSpec>,
    generation: Generation,
    number: u32,
    flow: Flow,
    node: Option<RuleNode>,
)
    requires
        ruleset_error(specs) is None,
        forall|i: int| 0 <= i < specs.len() ==> addressed(#[trigger] specs[i]),
        generation.of(specs, number),
        is_flow(flow),
        looks_up(generation.entries@, destination_lookup(flow), node),
    ensures
        match node {
            None => forall|g: int|
                0 <= g < grouped(specs, specs.len()).len() ==> !(#[trigger] grouped(
                    specs,
                    specs.len(),
                )[g]).network.covers(destination_of(flow)),
            Some(found) => {
                &&& found.kind == RULE_NODE_DESTINATION
                &&& found.generation == number
                &&& longest_group(
                    grouped(specs, specs.len()),
                    found.destination_id as int,
                    destination_of(flow),
                )
            },
        },
{
    let groups = grouped(specs, specs.len());
    let entries = generation.entries@;
    let key = destination_lookup(flow);
    ruleset_groups_are_sound(specs);
    assert forall|g: int|
        0 <= g < groups.len() && (#[trigger] groups[g]).network.covers(
            destination_of(flow),
        ) implies entry_covers(entries[group_offset(groups, g as nat) as int].key@, key) && 0
        <= group_offset(groups, g as nat) < entries.len()
        && entries[group_offset(groups, g as nat) as int].key.prefix_len == 8
        + groups[g].network.prefix_len by {
        assert(listed_at(entries, groups, g, number));
        let at = group_offset(groups, g as nat) as int;
        let (h, k) = destination_coverage(entries, groups, number, flow, at);
        offsets_are_exact(groups, g as nat, h as nat, k);
    }
    match node {
        None => {},
        Some(found) => {
            let i = choose|i: int| #[trigger]
                is_longest(entries, key, i) && entries[i].node == found;
            let (g, k) = destination_coverage(entries, groups, number, flow, i);
            assert(longest_group(groups, g, destination_of(flow))) by {
                assert forall|h: int|
                    0 <= h < groups.len() && (#[trigger] groups[h]).network.covers(
                        destination_of(flow),
                    ) implies groups[h].network.prefix_len <= groups[g].network.prefix_len by {
                    let at = group_offset(groups, h as nat) as int;
                    assert(entries[at].key.prefix_len <= entries[i].key.prefix_len);
                }
            }
        },
    }
}

/// A place in the table determines its group.
proof fn offsets_are_exact(groups: Seq<Group>, g: nat, h: nat, k: int)
    requires
        g < groups.len(),
        h < groups.len(),
        -1 <= k < groups[h as int].members.len(),
        group_offset(groups, g) == group_offset(groups, h) + 1 + k,
    ensures
        g == h,
        k == -1,
{
    if h < g {
        offsets_grow(groups, h + 1, g);
    } else if g < h {
        offsets_grow(groups, g + 1, h);
    }
}

proof fn inner_offsets_are_exact(groups: Seq<Group>, g: nat, l: int, h: nat, k: int)
    requires
        g < groups.len(),
        h < groups.len(),
        -1 <= l < groups[g as int].members.len(),
        -1 <= k < groups[h as int].members.len(),
        group_offset(groups, g) + l == group_offset(groups, h) + k,
    ensures
        g == h,
        l == k,
{
    if h < g {
        offsets_grow(groups, h + 1, g);
    } else if g < h {
        offsets_grow(groups, g + 1, h);
    }
}

/// A source lookup below a destination gives the rule with the longest source
/// prefix that covers the packet among the rules of that destination, and
/// nothing only where none of them covers it. What it gives is always a valid
/// node for the packet.
pub proof fn source_lookup_is_longest(
    specs: Seq<RuleSpec>,
    generation: Generation,
    number: u32,
    flow: Flow,
    destination_id: u32,
    node: Option<RuleNode>,
)
    requires
        ruleset_error(specs) is None,
        forall|i: int| 0 <= i < specs.len() ==> addressed(#[trigger] specs[i]),
        generation.of(specs, number),
        is_flow(flow),
        destination_id < grouped(specs, specs.len()).len(),
        grouped(specs, specs.len())[destination_id as int].network.v4 == source_of(flow).v4,
        looks_up(generation.entries@, source_lookup(flow, destination_id), node),
    ensures
        match node {
            None => forall|k: int|
                0 <= k < grouped(specs, specs.len())[destination_id as int].members.len()
                    ==> !source_covers(
                    #[trigger] grouped(specs, specs.len())[destination_id as int].members[k],
                    source_of(flow),
                ),
            Some(found) => {
                &&& found.kind == RULE_NODE_SOURCE
                &&& found.destination_id == destination_id
                &&& found.generation == number
                &&& found.rule.address_family == flow.family
                &&& exists|k: int| #[trigger]
                    longest_member(
                        grouped(specs, specs.len())[destination_id as int],
                        k,
                        source_of(flow),
                    ) && compiled(
                        found.rule,
                        grouped(specs, specs.len())[destination_id as int].members[k],
                    )
            },
        },
{
    let groups = grouped(specs, specs.len());
    let entries = generation.entries@;
    let key = source_lookup(flow, destination_id);
    let d = destination_id as int;
    ruleset_groups_are_sound(specs);
    assert(listed_at(entries, groups, d, number));
    let start = group_offset(groups, d as nat);
    assert forall|k: int|
        0 <= k < groups[d].members.len() && source_covers(
            #[trigger] groups[d].members[k],
            source_of(flow),
        ) implies entry_covers(entries[start + 1 + k].key@, key) && entries[start + 1
        + k].key.prefix_len == 40 + source_prefix(groups[d].members[k].source) by {
        let at = start + 1 + k;
        let (h, l) = source_coverage(entries, groups, number, flow, destination_id, at);
        inner_offsets_are_exact(groups, d as nat, k, h as nat, l);
    }
    match node {
        None => {},
        Some(found) => {
            let i = choose|i: int| #[trigger]
                is_longest(entries, key, i) && entries[i].node == found;
            let (g, k) = source_coverage(entries, groups, number, flow, destination_id, i);
            assert(longest_member(groups[d], k, source_of(flow))) by {
                assert forall|l: int|
                    0 <= l < groups[d].members.len() && source_covers(
                        #[trigger] groups[d].members[l],
                        source_of(flow),
                    ) implies source_prefix(groups[d].members[l].source) <= source_prefix(
                    groups[d].members[k].source,
                ) by {
                    assert(entries[start + 1 + l].key.prefix_len <= entries[i].key.prefix_len);
                }
            }
            assert(filed_under(groups[d].members[k]) == groups[d].network);
        },
    }
}

/// The entries of a published table have keys of their own and fit its
/// capacity, so that none overwrites or crowds out another.
pub proof fn published_entries_stay_apart(
    specs: Seq<RuleSpec>,
    generation: Generation,
    number: u32,
    i: int,
    j: int,
)
    requires
        ruleset_error(specs) is None,
        forall|k: int| 0 <= k < specs.len() ==> addressed(#[trigger] specs[k]),
        generation.of(specs, number),
        0 <= i < j < generation.entries@.len(),
    ensures
        generation.entries@.len() <= MAX_RULE_MAP_ENTRIES,
        generation.entries@[i].key@ != generation.entries@[j].key@,
{
    let groups = grouped(specs, specs.len());
    let entries = generation.entries@;
    ruleset_groups_are_sound(specs);
    groups_hold_rules(specs, specs.len());
    let (g, k) = entry_has_group(entries, groups, groups.len(), number, i);
    let (h, l) = entry_has_group(entries, groups, groups.len(), number, j);
    let a = entries[i].key@;
    let b = entries[j].key@;
    if a == b {
        if k == -1 && l == -1 {
            let m = groups[g].network;
            let n = groups[h].network;
            assert(a.data == destination_data(family_of(m.v4), m.octets));
            assert(b.data == destination_data(family_of(n.v4), n.octets));
            assert(a.data[0] == family_of(m.v4) && b.data[0] == family_of(n.v4));
            assert forall|x: int| 0 <= x < 16 implies m.octets[x] == n.octets[x] by {
                assert(a.data[x + 1] == m.octets[x]);
                assert(b.data[x + 1] == n.octets[x]);
            }
            assert(m.octets =~= n.octets);
            assert(m == n);
            assert(g == h);
        } else if k >= 0 && l >= 0 {
            let m = groups[g].members[k];
            let n = groups[h].members[l];
            assert(addressed(m) && addressed(n));
            masking_keeps_length(m.source);
            masking_keeps_length(n.source);
            assert forall|x: int| 0 <= x < 4 implies #[trigger] be_bytes(g as u32)[x] == be_bytes(
                h as u32,
            )[x] by {
                assert(a.data[x + 1] == be_bytes(g as u32)[x]);
                assert(b.data[x + 1] == be_bytes(h as u32)[x]);
            }
            assert(be_bytes(g as u32) =~= be_bytes(h as u32));
            be_bytes_differ(g as u32, h as u32);
            assert(g == h);
            assert forall|x: int| 0 <= x < 16 implies source_octets(m.source)[x] == source_octets(
                n.source,
            )[x] by {
                assert(a.data[x + 5] == source_octets(m.source)[x]);
                assert(b.data[x + 5] == source_octets(n.source)[x]);
            }
            assert(source_octets(m.source) =~= source_octets(n.source));
            assert(prefix_mask(16, 0) =~= zero_bytes(16));
            assert(m.source_bits() == n.source_bits());
            assert(false);
        } else if k == -1 {
            let m = groups[g].network;
            let n = groups[h].members[l];
            assert(addressed(n));
            assert(a.data[0] == family_of(m.v4));
            assert(b.data[0] == source_namespace(family_of(n.destination@.v4)));
        } else {
            let m = groups[g].members[k];
            assert(addressed(m));
            assert(a.data[0] == source_namespace(family_of(m.destination@.v4)));
            assert(b.data[0] == family_of(groups[h].network.v4));
        }
    }
}

/// Whether the answers to a packet's lookups are those of a published table.
pub open spec fn answers_from(entries: Seq<TableEntry>, flow: Flow, answers: Answers) -> bool {
    &&& answers.destination matches TableLookup::Found(node) ==> looks_up(
        entries,
        destination_lookup(flow),
        Some(node),
    ) && looks_up(entries, source_lookup(flow, node.destination_id), answers.source)
    &&& answers.destination is Miss ==> looks_up(entries, destination_lookup(flow), None)
}

/// Whether a rule of a ruleset has the longest destination prefix that covers a
/// flow, and the longest source prefix of all rules for that destination.
pub open spec fn governs(specs: Seq<RuleSpec>, spec: RuleSpec, flow: Flow) -> bool {
    &&& specs.contains(spec)
    &&& spec.destination@.covers(destination_of(flow))
    &&& source_covers(spec, source_of(flow))
    &&& forall|other: RuleSpec|
        #[trigger] specs.contains(other) && other.destination@.covers(destination_of(flow))
            ==> other.destination@.prefix_len <= spec.destination@.prefix_len
    &&& forall|other: RuleSpec|
        #[trigger] specs.contains(other) && filed_under(other) == filed_under(spec)
            && source_covers(other, source_of(flow)) ==> source_prefix(other.source)
            <= source_prefix(spec.source)
}

/// Whether no rule of a ruleset is for the destination of a flow.
pub open spec fn reaches_none(specs: Seq<RuleSpec>, flow: Flow) -> bool {
    forall|spec: RuleSpec| #[trigger]
        specs.contains(spec) ==> !spec.destination@.covers(destination_of(flow))
}

/// Where a rule stands among the groups of its ruleset.
proof fn rule_has_group(specs: Seq<RuleSpec>, spec: RuleSpec) -> (r: (int, int))
    requires
        specs.contains(spec),
    ensures
        0 <= r.0 < grouped(specs, specs.len()).len(),
        0 <= r.1 < grouped(specs, specs.len())[r.0].members.len(),
        grouped(specs, specs.len())[r.0].members[r.1] == spec,
        grouped(specs, specs.len())[r.0].network == filed_under(spec),
{
    let groups = grouped(specs, specs.len());
    groups_hold_rules(specs, specs.len());
    let j = choose|j: int| 0 <= j < specs.len() && specs[j] == spec;
    assert(crate::rule_store::held(groups, specs[j]));
    choose|g: int, k: int|
        0 <= g < groups.len() && 0 <= k < groups[g].members.len() && #[trigger] groups[g].members[k]
            == spec
}

/// A rule of a group is a rule of the ruleset.
proof fn group_rule_is_listed(specs: Seq<RuleSpec>, g: int, k: int)
    requires
        0 <= g < grouped(specs, specs.len()).len(),
        0 <= k < grouped(specs, specs.len())[g].members.len(),
    ensures
        specs.contains(grouped(specs, specs.len())[g].members[k]),
        filed_under(grouped(specs, specs.len())[g].members[k]) == grouped(
            specs,
            specs.len(),
        )[g].network,
{
    groups_hold_rules(specs, specs.len());
    assert(among(specs, specs.len() as int, grouped(specs, specs.len())[g].members[k]));
}

/// The group that a governing rule stands in is the longest one.
proof fn governing_group(specs: Seq<RuleSpec>, spec: RuleSpec, flow: Flow, g: int) -> (k: int)
    requires
        governs(specs, spec, flow),
        longest_group(grouped(specs, specs.len()), g, destination_of(flow)),
    ensures
        0 <= k < grouped(specs, specs.len())[g].members.len(),
        grouped(specs, specs.len())[g].members[k] == spec,
{
    let groups = grouped(specs, specs.len());
    groups_hold_rules(specs, specs.len());
    let (h, k) = rule_has_group(specs, spec);
    let first = groups[g].members[0];
    group_rule_is_listed(specs, g, 0);
    truncation_keeps_coverage(first.destination@, destination_of(flow));
    truncation_keeps_coverage(spec.destination@, destination_of(flow));
    assert(groups[h].network.covers(destination_of(flow)));
    assert(first.destination@.prefix_len == groups[g].network.prefix_len);
    assert(filed_under(first) == filed_under(spec));
    k
}

/// The longest rule of the longest group governs.
proof fn longest_rule_governs(specs: Seq<RuleSpec>, flow: Flow, g: int, k: int)
    requires
        longest_group(grouped(specs, specs.len()), g, destination_of(flow)),
        longest_member(grouped(specs, specs.len())[g], k, source_of(flow)),
    ensures
        governs(specs, grouped(specs, specs.len())[g].members[k], flow),
{
    let groups = grouped(specs, specs.len());
    let spec = groups[g].members[k];
    groups_hold_rules(specs, specs.len());
    group_rule_is_listed(specs, g, k);
    truncation_keeps_coverage(spec.destination@, destination_of(flow));
    assert forall|other: RuleSpec|
        #[trigger] specs.contains(other) && other.destination@.covers(
            destination_of(flow),
        ) implies other.destination@.prefix_len <= spec.destination@.prefix_len by {
        let (h, l) = rule_has_group(specs, other);
        truncation_keeps_coverage(other.destination@, destination_of(flow));
        assert(groups[h].network.covers(destination_of(flow)));
    }
    assert forall|other: RuleSpec|
        #[trigger] specs.contains(other) && filed_under(other) == filed_under(spec)
            && source_covers(other, source_of(flow)) implies source_prefix(other.source)
        <= source_prefix(spec.source) by {
        let (h, l) = rule_has_group(specs, other);
        assert(groups[h].network == groups[g].network);
        assert(h == g);
        assert(source_covers(groups[g].members[l], source_of(flow)));
    }
}

/// What the lookups of a packet say of the ruleset.
proof fn lookups_find_the_governing_rule(
    specs: Seq<RuleSpec>,
    generation: Generation,
    number: u32,
    flow: Flow,
    answers: Answers,
)
    requires
        ruleset_error(specs) is None,
        forall|i: int| 0 <= i < specs.len() ==> addressed(#[trigger] specs[i]),
        generation.of(specs, number),
        number != 0,
        is_flow(flow),
        answers_from(generation.entries@, flow, answers),
    ensures
        answers.destination is Miss ==> reaches_none(specs, flow),
        answers.destination matches TableLookup::Found(node) ==> {
            &&& node.kind == RULE_NODE_DESTINATION
            &&& !reaches_none(specs, flow)
            &&& match answers.source {
                None => forall|spec: RuleSpec| !#[trigger] governs(specs, spec, flow),
                Some(found) => {
                    &&& found.kind == RULE_NODE_SOURCE
                    &&& found.destination_id == node.destination_id
                    &&& found.generation != 0
                    &&& found.rule.address_family == flow.family
                    &&& found.rule.id < MAX_RULES
                    &&& exists|spec: RuleSpec| #[trigger]
                        governs(specs, spec, flow) && compiled(found.rule, spec)
                },
            }
        },
{
    let groups = grouped(specs, specs.len());
    match answers.destination {
        TableLookup::Found(node) => {
            destination_lookup_is_longest(specs, generation, number, flow, Some(node));
            let g = node.destination_id as int;
            groups_hold_rules(specs, specs.len());
            group_rule_is_listed(specs, g, 0);
            truncation_keeps_coverage(groups[g].members[0].destination@, destination_of(flow));
            assert(specs.contains(groups[g].members[0]));
            source_lookup_is_longest(
                specs,
                generation,
                number,
                flow,
                node.destination_id,
                answers.source,
            );
            match answers.source {
                Some(found) => {
                    let k = choose|k: int| #[trigger]
                        longest_member(groups[g], k, source_of(flow)) && compiled(
                            found.rule,
                            groups[g].members[k],
                        );
                    longest_rule_governs(specs, flow, g, k);
                    let spec = groups[g].members[k];
                    assert(governs(specs, spec, flow));
                    let j = choose|j: int| 0 <= j < specs.len() && specs[j] == spec;
                    grouping_error_reaches(specs, 0, j);
                },
                None => {
                    assert forall|spec: RuleSpec| !#[trigger] governs(specs, spec, flow) by {
                        if governs(specs, spec, flow) {
                            let k = governing_group(specs, spec, flow, g);
                            assert(source_covers(groups[g].members[k], source_of(flow)));
                        }
                    }
                },
            }
        },
        TableLookup::Miss => {
            destination_lookup_is_longest(specs, generation, number, flow, None);
            assert forall|spec: RuleSpec| #[trigger] specs.contains(spec) implies
                !spec.destination@.covers(destination_of(flow)) by {
                let (g, k) = rule_has_group(specs, spec);
                truncation_keeps_coverage(spec.destination@, destination_of(flow));
                assert(!groups[g].network.covers(destination_of(flow)));
            }
        },
        TableLookup::NoTable => {},
    }
}

/// A packet that is looked up in a published table is handled by the rule with
/// the longest source prefix below the longest destination prefix, and by no
/// other: a rule with a shorter prefix never steps in. A miss is reported only
/// where the ruleset holds no such rule, and the table never leads to an
/// invalid one.
pub proof fn packets_meet_the_longest_rule(
    specs: Seq<RuleSpec>,
    generation: Generation,
    number: u32,
    bytes: Seq<u8>,
    parsed: Parsed,
    answers: Answers,
)
    requires
        ruleset_error(specs) is None,
        forall|i: int| 0 <= i < specs.len() ==> addressed(#[trigger] specs[i]),
        generation.of(specs, number),
        number != 0,
        is_flow(parsed.flow),
        answers_from(generation.entries@, parsed.flow, answers),
    ensures
        match chosen(bytes, parsed, answers) {
            Err(reason) => {
                &&& reason != Diagnostic::InvalidRule
                &&& reason == Diagnostic::DestinationMiss ==> reaches_none(specs, parsed.flow)
                &&& reason == Diagnostic::SourceMiss ==> forall|spec: RuleSpec|
                    !#[trigger] governs(specs, spec, parsed.flow)
            },
            Ok((flow, rule)) => exists|spec: RuleSpec| #[trigger]
                governs(specs, spec, parsed.flow) && compiled(rule, spec),
        },
{
    lookups_find_the_governing_rule(specs, generation, number, parsed.flow, answers);
}

/// No two rules of a ruleset govern the same flow.
pub proof fn one_rule_governs(specs: Seq<RuleSpec>, flow: Flow, left: RuleSpec, right: RuleSpec)
    requires
        ruleset_error(specs) is None,
        forall|i: int| 0 <= i < specs.len() ==> addressed(#[trigger] specs[i]),
        governs(specs, left, flow),
        governs(specs, right, flow),
    ensures
        left == right,
{
    assert(filed_under(left) == filed_under(right));
    assert(source_prefix(left.source) == source_prefix(right.source));
    let i = choose|i: int| 0 <= i < specs.len() && specs[i] == left;
    let j = choose|j: int| 0 <= j < specs.len() && specs[j] == right;
    assert(addressed(specs[i]) && addressed(specs[j]));
    source_bits_of_nothing(left);
    source_bits_of_nothing(right);
    assert(left.source_bits() == right.source_bits());
    if i < j {
        grouping_error_reaches(specs, 0, j);
    } else if j < i {
        grouping_error_reaches(specs, 0, i);
    }
}

proof fn source_bits_of_nothing(spec: RuleSpec)
    requires
        addressed(spec),
    ensures
        source_prefix(spec.source) == 0 ==> spec.source_bits() == (zero_bytes(16), zero_bytes(16)),
{
    if source_prefix(spec.source) == 0 {
        assert(prefix_mask(16, 0) =~= zero_bytes(16));
        if let Some(source) = spec.source {
            assert forall|i: int| 0 <= i < 16 implies #[trigger] masked(source@.octets, 0)[i]
                == 0 by {
                assert(unit(0 - 8 * i) == 256);
            }
            assert(masked(source@.octets, 0) =~= zero_bytes(16));
        }
    }
}

/// Whether two rulesets hold the same rules, in whatever order.
pub open spec fn hold_the_same(specs: Seq<RuleSpec>, others: Seq<RuleSpec>) -> bool {
    forall|spec: RuleSpec|
        #![trigger specs.contains(spec)]
        #![trigger others.contains(spec)]
        specs.contains(spec) <==> others.contains(spec)
}

proof fn same_rules_govern(
    specs: Seq<RuleSpec>,
    others: Seq<RuleSpec>,
    spec: RuleSpec,
    flow: Flow,
)
    requires
        hold_the_same(specs, others),
    ensures
        governs(specs, spec, flow) == governs(others, spec, flow),
{
    if governs(specs, spec, flow) {
        assert(governs(others, spec, flow));
    }
    if governs(others, spec, flow) {
        assert(governs(specs, spec, flow));
    }
}

/// The order in which rules are written does not matter: two published tables
/// of the same rules handle every packet alike, under whatever generation.
pub proof fn order_of_rules_is_irrelevant(
    specs: Seq<RuleSpec>,
    generation: Generation,
    number: u32,
    answers: Answers,
    others: Seq<RuleSpec>,
    other_generation: Generation,
    other_number: u32,
    other_answers: Answers,
    bytes: Seq<u8>,
    parsed: Parsed,
)
    requires
        hold_the_same(specs, others),
        ruleset_error(specs) is None,
        forall|i: int| 0 <= i < specs.len() ==> addressed(#[trigger] specs[i]),
        generation.of(specs, number),
        number != 0,
        ruleset_error(others) is None,
        forall|i: int| 0 <= i < others.len() ==> addressed(#[trigger] others[i]),
        other_generation.of(others, other_number),
        other_number != 0,
        is_flow(parsed.flow),
        answers_from(generation.entries@, parsed.flow, answers),
        answers_from(other_generation.entries@, parsed.flow, other_answers),
        !(answers.destination is NoTable),
        !(other_answers.destination is NoTable),
        answers.fragment == other_answers.fragment,
        answers.fragment_ns == other_answers.fragment_ns,
    ensures
        match (chosen(bytes, parsed, answers), chosen(bytes, parsed, other_answers)) {
            (Ok((flow, rule)), Ok((other_flow, other_rule))) => flow == other_flow && exists|
                spec: RuleSpec,
            | #[trigger]
                specs.contains(spec) && compiled(rule, spec) && compiled(other_rule, spec),
            (Err(reason), Err(other_reason)) => reason == other_reason,
            _ => false,
        },
{
    let flow = parsed.flow;
    lookups_find_the_governing_rule(specs, generation, number, flow, answers);
    lookups_find_the_governing_rule(others, other_generation, other_number, flow, other_answers);
    assert forall|spec: RuleSpec|
        #![trigger governs(specs, spec, flow)]
        #![trigger governs(others, spec, flow)]
        governs(specs, spec, flow) == governs(others, spec, flow) by {
        same_rules_govern(specs, others, spec, flow);
    }
    assert(reaches_none(specs, flow) == reaches_none(others, flow));
    if let (Some(found), Some(other)) = (answers.source, other_answers.source) {
        if answers.destination is Found && other_answers.destination is Found {
            let left = choose|spec: RuleSpec| #[trigger]
                governs(specs, spec, flow) && compiled(found.rule, spec);
            let right = choose|spec: RuleSpec| #[trigger]
                governs(others, spec, flow) && compiled(other.rule, spec);
            one_rule_governs(specs, flow, left, right);
            assert(specs.contains(left));
        }
    }
}

} // verus!
