//! Turning a ruleset into one generation of the classifier's rule table.

use vstd::prelude::*;
use vstd::string::*;
use crate::classifier::{
    destination_bytes, destination_data, source_bytes, source_data, RuleKey, TableKey,
};
use crate::common::{
    zero_bytes, FaultRule, PaceKey, RuleNode, ADDRESS_FAMILY_IPV4, ADDRESS_FAMILY_IPV6, MAX_RULES,
    RULE_NODE_DESTINATION, RULE_NODE_SOURCE,
};
use crate::control::ControlCommand;
use crate::net::{IpNet, Network};
use crate::protocol::{has_earlier_id, repeats_id, RuleSpec};
use crate::text::{decimal, digits};

verus! {

/// One entry of the rule table.
#[derive(Clone, Copy, Debug)]
pub struct TableEntry {
    pub key: RuleKey,
    pub node: RuleNode,
}

/// The rules of one destination, in the order they came.
pub struct Group {
    pub network: Network,
    pub members: Seq<RuleSpec>,
}

/// The addresses of a rule are addresses.
pub open spec fn addressed(spec: RuleSpec) -> bool {
    &&& spec.destination@.wf()
    &&& spec.source matches Some(source) ==> source@.wf()
}

/// The destination that a rule is filed under.
pub open spec fn filed_under(spec: RuleSpec) -> Network {
    spec.destination@.truncated()
}

/// Whether an earlier rule has the same destination and the same source.
pub open spec fn repeats_source(specs: Seq<RuleSpec>, at: int) -> bool {
    exists|j: int|
        0 <= j < at && filed_under(#[trigger] specs[j]) == filed_under(specs[at])
            && specs[j].source_bits() == specs[at].source_bits()
}

/// How an optional network is written in messages.
pub open spec fn source_text(source: Option<IpNet>) -> Seq<char> {
    match source {
        Some(network) => "Some("@ + network@.text() + ")"@,
        None => "None"@,
    }
}

/// The first thing that keeps the rules from `from` on out of a table.
pub open spec fn grouping_error(specs: Seq<RuleSpec>, from: int) -> Option<Seq<char>>
    decreases specs.len() - from,
{
    if from >= specs.len() {
        None
    } else if specs[from].error() is Some {
        specs[from].error()
    } else if repeats_id(specs, from) {
        Some("duplicate rule id: "@ + digits(specs[from].id as nat))
    } else if repeats_source(specs, from) {
        Some(
            "duplicate source prefix "@ + source_text(specs[from].source) + " for destination "@
                + specs[from].destination@.text(),
        )
    } else {
        grouping_error(specs, from + 1)
    }
}

/// Why a ruleset cannot become a table.
pub open spec fn ruleset_error(specs: Seq<RuleSpec>) -> Option<Seq<char>> {
    if specs.len() == 0 {
        Some("a scenario must contain at least one rule"@)
    } else if specs.len() > MAX_RULES {
        Some("a scenario may contain at most "@ + digits(MAX_RULES as nat) + " rules"@)
    } else {
        grouping_error(specs, 0)
    }
}

/// The place of a destination among the groups from `from` on, if it has one.
pub open spec fn group_index(groups: Seq<Group>, network: Network, from: int) -> Option<int>
    decreases groups.len() - from,
{
    if from >= groups.len() {
        None
    } else if groups[from].network == network {
        Some(from)
    } else {
        group_index(groups, network, from + 1)
    }
}

/// The place before the first group that comes after a destination.
pub open spec fn insertion_index(groups: Seq<Group>, network: Network, from: int) -> int
    decreases groups.len() - from,
{
    if from >= groups.len() || network.before(groups[from].network) {
        from
    } else {
        insertion_index(groups, network, from + 1)
    }
}

/// The groups after one more rule: it joins the group of its destination, or
/// opens one in the order of networks.
pub open spec fn placed(groups: Seq<Group>, spec: RuleSpec) -> Seq<Group> {
    let network = filed_under(spec);
    match group_index(groups, network, 0) {
        Some(at) => groups.update(
            at,
            Group { network, members: groups[at].members.push(spec) },
        ),
        None => groups.insert(
            insertion_index(groups, network, 0),
            Group { network, members: seq![spec] },
        ),
    }
}

/// The groups of the first `n` rules.
pub open spec fn grouped(specs: Seq<RuleSpec>, n: nat) -> Seq<Group>
    decreases n,
{
    if n == 0 {
        Seq::empty()
    } else {
        placed(grouped(specs, (n - 1) as nat), specs[n - 1])
    }
}

/// Where the entries of a group begin in the table.
pub open spec fn group_offset(groups: Seq<Group>, g: nat) -> nat
    decreases g,
{
    if g == 0 {
        0
    } else {
        group_offset(groups, (g - 1) as nat) + 1 + groups[g - 1].members.len()
    }
}

pub open spec fn family_of(v4: bool) -> u8 {
    if v4 {
        ADDRESS_FAMILY_IPV4
    } else {
        ADDRESS_FAMILY_IPV6
    }
}

/// Whether a classifier rule says what a rule of the ruleset says.
pub open spec fn compiled(rule: FaultRule, spec: RuleSpec) -> bool {
    &&& rule.id == spec.id && rule.seed == spec.seed
    &&& rule.drop_permyriad == spec.drop_permyriad
    &&& (rule.source_network@, rule.source_mask@) == spec.source_bits()
    &&& rule.ge_enter_permyriad == spec.ge_enter_permyriad
    &&& rule.ge_recover_permyriad == spec.ge_recover_permyriad
    &&& rule.ge_good_loss_permyriad == spec.ge_good_loss_permyriad
    &&& rule.ge_bad_loss_permyriad == spec.ge_bad_loss_permyriad
    &&& rule.ge_idle_reset_secs == spec.ge_idle_reset_secs
    &&& rule.duplicate_permyriad == spec.duplicate_permyriad
    &&& rule.reorder_permyriad == spec.reorder_permyriad
    &&& rule.delay_ns == spec.delay_ns && rule.jitter_ns == spec.jitter_ns
    &&& rule.bandwidth_bps == spec.bandwidth_bps
    &&& rule.protocol == spec.protocol && rule.loss_algorithm == spec.loss_algorithm
    &&& rule.destination_port == spec.destination_port
    &&& rule.source_prefix_len == source_prefix(spec.source)
    &&& rule.address_family == family_of(spec.destination@.v4)
    &&& rule._rule_padding@ == zero_bytes(2)
}

/// The prefix of a source filter; none covers everything.
pub open spec fn source_prefix(source: Option<IpNet>) -> u8 {
    match source {
        Some(network) => network.prefix_len,
        None => 0,
    }
}

/// The octets of a source filter without host bits.
pub open spec fn source_octets(source: Option<IpNet>) -> Seq<u8> {
    match source {
        Some(network) => network@.truncated().octets,
        None => zero_bytes(16),
    }
}

/// The key of a destination entry.
pub open spec fn destination_entry_key(network: Network) -> TableKey {
    TableKey {
        prefix_len: (8 + network.prefix_len) as u32,
        data: destination_data(family_of(network.v4), network.octets),
    }
}

/// The key of a source entry below a destination.
pub open spec fn source_entry_key(v4: bool, source: Option<IpNet>, id: u32) -> TableKey {
    TableKey {
        prefix_len: (40 + source_prefix(source)) as u32,
        data: source_data(family_of(v4), id, source_octets(source)),
    }
}

/// Whether an entry stands for a destination.
pub open spec fn is_destination(
    entry: TableEntry,
    network: Network,
    id: int,
    generation: u32,
) -> bool {
    &&& entry.key@ == destination_entry_key(network)
    &&& entry.node.kind == RULE_NODE_DESTINATION
    &&& entry.node.destination_id == id
    &&& entry.node.generation == generation
    &&& entry.node._padding == 0
    &&& entry.node.rule.zeroed()
}

/// Whether an entry stands for a rule below a destination.
pub open spec fn is_source(entry: TableEntry, spec: RuleSpec, id: int, generation: u32) -> bool {
    &&& entry.key@ == source_entry_key(spec.destination@.v4, spec.source, id as u32)
    &&& entry.node.kind == RULE_NODE_SOURCE
    &&& entry.node.destination_id == id
    &&& entry.node.generation == generation
    &&& entry.node._padding == 0
    &&& compiled(entry.node.rule, spec)
}

/// Whether the entries are those of the first `n` groups: each destination,
/// followed by its rules.
pub open spec fn lists(
    entries: Seq<TableEntry>,
    groups: Seq<Group>,
    n: nat,
    generation: u32,
) -> bool {
    &&& entries.len() == group_offset(groups, n)
    &&& forall|g: int| 0 <= g < n ==> #[trigger] listed_at(entries, groups, g, generation)
}

/// Whether a group stands where the groups before it end.
pub open spec fn listed_at(
    entries: Seq<TableEntry>,
    groups: Seq<Group>,
    g: int,
    generation: u32,
) -> bool {
    group_listed(entries, groups[g], group_offset(groups, g as nat), g, generation)
}

/// Whether one group stands at an offset.
pub open spec fn group_listed(
    entries: Seq<TableEntry>,
    group: Group,
    offset: nat,
    id: int,
    generation: u32,
) -> bool {
    &&& offset + 1 + group.members.len() <= entries.len()
    &&& is_destination(entries[offset as int], group.network, id, generation)
    &&& forall|i: int|
        offset < i <= offset + group.members.len() ==> is_source(
            #[trigger] entries[i],
            group.members[i - offset - 1],
            id,
            generation,
        )
}

/// A generation that is ready to be published: the pacing clocks it starts
/// with, the entries of its table and the rules it activates.
#[derive(Clone, Debug)]
pub struct Generation {
    pub number: u32,
    pub rule_ids: Vec<u32>,
    pub pace_keys: Vec<PaceKey>,
    pub entries: Vec<TableEntry>,
}

/// Numbers in ascending order, none twice.
pub open spec fn ascending(ids: Seq<u32>) -> bool {
    forall|i: int, j: int| 0 <= i < j < ids.len() ==> ids[i] < ids[j]
}

/// Whether one of the first `n` rules has a number.
pub open spec fn names_id(specs: Seq<RuleSpec>, n: int, id: u32) -> bool {
    exists|j: int| 0 <= j < n && #[trigger] specs[j].id == id
}

/// Whether a list holds the numbers of the first `n` rules and no others.
pub open spec fn numbers_of(ids: Seq<u32>, specs: Seq<RuleSpec>, n: int) -> bool {
    forall|id: u32| #[trigger] ids.contains(id) <==> names_id(specs, n, id)
}

impl Generation {
    /// Whether this is the given generation of a ruleset.
    pub open spec fn of(self, specs: Seq<RuleSpec>, number: u32) -> bool {
        let groups = grouped(specs, specs.len());
        &&& self.number == number
        &&& ascending(self.rule_ids@)
        &&& numbers_of(self.rule_ids@, specs, specs.len() as int)
        &&& self.pace_keys@ == Seq::new(
            self.rule_ids@.len(),
            |i: int| PaceKey { rule_id: self.rule_ids@[i], generation: number },
        )
        &&& lists(self.entries@, groups, groups.len(), number)
    }
}

struct Bucket {
    network: IpNet,
    members: Vec<RuleSpec>,
}

spec fn shown(buckets: Seq<Bucket>) -> Seq<Group> {
    Seq::new(
        buckets.len(),
        |i: int| Group { network: buckets[i].network@, members: buckets[i].members@ },
    )
}

/// The number of the next generation: one further, never zero.
pub open spec fn following(generation: u32) -> u32 {
    if generation == u32::MAX {
        1
    } else {
        (generation + 1) as u32
    }
}

/// Compiles a rule for the classifier.
pub fn fault_rule_from_spec(spec: &RuleSpec) -> (r: FaultRule)
    ensures
        compiled(r, *spec),
{
    let (source_network, source_mask) = spec.source_network_and_mask();
    let padding: [u8; 2] = [0;2];
    assert(padding@ =~= zero_bytes(2));
    FaultRule {
        id: spec.id,
        seed: spec.seed,
        drop_permyriad: spec.drop_permyriad,
        source_network,
        source_mask,
        ge_enter_permyriad: spec.ge_enter_permyriad,
        ge_recover_permyriad: spec.ge_recover_permyriad,
        ge_good_loss_permyriad: spec.ge_good_loss_permyriad,
        ge_bad_loss_permyriad: spec.ge_bad_loss_permyriad,
        ge_idle_reset_secs: spec.ge_idle_reset_secs,
        duplicate_permyriad: spec.duplicate_permyriad,
        reorder_permyriad: spec.reorder_permyriad,
        delay_ns: spec.delay_ns,
        jitter_ns: spec.jitter_ns,
        bandwidth_bps: spec.bandwidth_bps,
        protocol: spec.protocol,
        loss_algorithm: spec.loss_algorithm,
        destination_port: spec.destination_port,
        source_prefix_len: match spec.source {
            Some(source) => source.prefix_len,
            None => 0,
        },
        address_family: if spec.destination.is_ipv4() {
            ADDRESS_FAMILY_IPV4
        } else {
            ADDRESS_FAMILY_IPV6
        },
        _rule_padding: padding,
    }
}

/// The key of a source entry: its namespace and destination, and as many
/// address bits as the source filter names.
pub fn source_key(destination_id: u32, destination: &IpNet, source: &Option<IpNet>) -> (r: RuleKey)
    ensures
        r@ == source_entry_key(destination@.v4, *source, destination_id),
{
    let family: u8 = if destination.is_ipv4() {
        ADDRESS_FAMILY_IPV4
    } else {
        ADDRESS_FAMILY_IPV6
    };
    let (octets, prefix_len) = match source {
        Some(network) => (network.network(), network.prefix_len),
        None => {
            let zeros: [u8; 16] = [0;16];
            assert(zeros@ =~= zero_bytes(16));
            (zeros, 0u8)
        },
    };
    RuleKey {
        prefix_len: 40 + prefix_len as u32,
        data: source_bytes(family, destination_id, &octets),
    }
}

/// The key of a destination entry: its address bits as far as its prefix
/// reaches.
pub fn destination_key(network: &IpNet) -> (r: RuleKey)
    ensures
        r@ == destination_entry_key(network@.truncated()),
{
    filed_key(&network.trunc())
}

/// The key of a destination without bits behind its prefix.
fn filed_key(network: &IpNet) -> (r: RuleKey)
    ensures
        r@ == destination_entry_key(network@),
{
    let family: u8 = if network.is_ipv4() {
        ADDRESS_FAMILY_IPV4
    } else {
        ADDRESS_FAMILY_IPV6
    };
    RuleKey {
        prefix_len: 8 + network.prefix_len as u32,
        data: destination_bytes(family, &network.addr.octets),
    }
}

fn write_source(source: &Option<IpNet>) -> (r: String)
    requires
        source matches Some(network) ==> network@.wf(),
    ensures
        r@ == source_text(*source),
{
    match source {
        Some(network) => {
            let mut text = "Some(".to_owned();
            text.append(network.to_text().as_str());
            text.append(")");
            text
        },
        None => "None".to_owned(),
    }
}

fn same_source(left: &RuleSpec, right: &RuleSpec) -> (r: bool)
    ensures
        r == (left.source_bits() == right.source_bits()),
{
    let (left_network, left_mask) = left.source_network_and_mask();
    let (right_network, right_mask) = right.source_network_and_mask();
    crate::net::same_octets(&left_network, &right_network) && crate::net::same_octets(
        &left_mask,
        &right_mask,
    )
}

/// Whether an earlier rule has the same destination and the same source.
fn has_earlier_source(specs: &Vec<RuleSpec>, at: usize) -> (r: bool)
    requires
        at < specs@.len(),
    ensures
        r == repeats_source(specs@, at as int),
{
    let network = specs[at].destination.trunc();
    let mut index: usize = 0;
    while index < at
        invariant
            index <= at < specs@.len(),
            network@ == filed_under(specs@[at as int]),
            forall|j: int|
                0 <= j < index ==> !(filed_under(#[trigger] specs@[j]) == filed_under(
                    specs@[at as int],
                ) && specs@[j].source_bits() == specs@[at as int].source_bits()),
        decreases at - index,
    {
        if specs[index].destination.trunc().same(&network) && same_source(
            &specs[index],
            &specs[at],
        ) {
            return true;
        }
        index += 1;
    }
    false
}

fn place(buckets: &mut Vec<Bucket>, spec: RuleSpec)
    ensures
        shown(final(buckets)@) == placed(shown(old(buckets)@), spec),
{
    let network = spec.destination.trunc();
    let ghost groups = shown(buckets@);
    let mut at: usize = 0;
    while at < buckets.len() && !buckets[at].network.same(&network)
        invariant
            at <= buckets@.len(),
            shown(buckets@) == groups,
            *buckets == *old(buckets),
            network@ == filed_under(spec),
            group_index(groups, network@, 0) == group_index(groups, network@, at as int),
        decreases buckets@.len() - at,
    {
        at += 1;
    }
    if at < buckets.len() {
        buckets[at].members.push(spec);
        assert(shown(buckets@) =~= placed(groups, spec));
        return;
    }
    let mut slot: usize = 0;
    while slot < buckets.len() && !network.comes_before(&buckets[slot].network)
        invariant
            slot <= buckets@.len(),
            shown(buckets@) == groups,
            *buckets == *old(buckets),
            network@ == filed_under(spec),
            insertion_index(groups, network@, 0) == insertion_index(groups, network@, slot as int),
        decreases buckets@.len() - slot,
    {
        slot += 1;
    }
    let mut members: Vec<RuleSpec> = Vec::new();
    members.push(spec);
    assert(members@ =~= seq![spec]);
    buckets.insert(slot, Bucket { network, members });
    assert(shown(buckets@) =~= placed(groups, spec));
}

fn insert_number(ids: &mut Vec<u32>, id: u32)
    requires
        ascending(old(ids)@),
        !old(ids)@.contains(id),
    ensures
        ascending(final(ids)@),
        forall|x: u32| #[trigger] final(ids)@.contains(x) <==> old(ids)@.contains(x) || x == id,
{
    let mut at: usize = 0;
    while at < ids.len() && ids[at] < id
        invariant
            at <= ids@.len(),
            *ids == *old(ids),
            forall|i: int| 0 <= i < at ==> ids@[i] < id,
        decreases ids@.len() - at,
    {
        at += 1;
    }
    let ghost before = ids@;
    ids.insert(at, id);
    proof {
        let after = ids@;
        assert forall|i: int, j: int| 0 <= i < j < after.len() implies after[i] < after[j] by {
            let oi = if i < at {
                i
            } else {
                i - 1
            };
            let oj = if j < at {
                j
            } else {
                j - 1
            };
            if j == at {
                assert(before[i] < id);
            } else if i == at {
                assert(before.contains(before[oj]));
                assert(before[at as int] <= before[oj]);
            } else {
                assert(after[i] == before[oi] && after[j] == before[oj]);
            }
        }
        assert forall|x: u32| #[trigger] after.contains(x) <==> before.contains(x) || x == id by {
            if before.contains(x) {
                let k = choose|k: int| 0 <= k < before.len() && before[k] == x;
                assert(after[if k < at {
                    k
                } else {
                    k + 1
                }] == x);
            }
            if x == id {
                assert(after[at as int] == id);
            }
            if after.contains(x) {
                let k = choose|k: int| 0 <= k < after.len() && after[k] == x;
                if k < at {
                    assert(before[k] == x);
                } else if k > at {
                    assert(before[k - 1] == x);
                }
            }
        }
    }
}

fn group_rules(specs: &Vec<RuleSpec>) -> (r: Result<(Vec<u32>, Vec<Bucket>), String>)
    requires
        forall|i: int| 0 <= i < specs@.len() ==> addressed(#[trigger] specs@[i]),
    ensures
        match (r, ruleset_error(specs@)) {
            (Ok((ids, buckets)), None) => {
                &&& ascending(ids@)
                &&& numbers_of(ids@, specs@, specs@.len() as int)
                &&& shown(buckets@) == grouped(specs@, specs@.len())
            },
            (Err(message), Some(wanted)) => message@ == wanted,
            _ => false,
        },
{
    if specs.len() == 0 {
        return Err("a scenario must contain at least one rule".to_owned());
    }
    if specs.len() > MAX_RULES as usize {
        let mut message = "a scenario may contain at most ".to_owned();
        message.append(decimal(MAX_RULES as u64).as_str());
        message.append(" rules");
        return Err(message);
    }
    let mut ids: Vec<u32> = Vec::new();
    let mut buckets: Vec<Bucket> = Vec::new();
    assert(shown(buckets@) =~= Seq::<Group>::empty());
    let mut at: usize = 0;
    while at < specs.len()
        invariant
            at <= specs@.len(),
            0 < specs@.len() <= MAX_RULES,
            forall|i: int| 0 <= i < specs@.len() ==> addressed(#[trigger] specs@[i]),
            grouping_error(specs@, 0) == grouping_error(specs@, at as int),
            ascending(ids@),
            numbers_of(ids@, specs@, at as int),
            shown(buckets@) == grouped(specs@, at as nat),
        decreases specs@.len() - at,
    {
        match specs[at].validate() {
            Ok(_) => {},
            Err(message) => return Err(message),
        }
        if has_earlier_id(specs, at) {
            let mut message = "duplicate rule id: ".to_owned();
            message.append(decimal(specs[at].id as u64).as_str());
            return Err(message);
        }
        if has_earlier_source(specs, at) {
            let mut message = "duplicate source prefix ".to_owned();
            message.append(write_source(&specs[at].source).as_str());
            message.append(" for destination ");
            message.append(specs[at].destination.to_text().as_str());
            return Err(message);
        }
        let ghost before = ids@;
        assert(!before.contains(specs@[at as int].id)) by {
            assert(names_id(specs@, at as int, specs@[at as int].id) == repeats_id(
                specs@,
                at as int,
            ));
        }
        insert_number(&mut ids, specs[at].id);
        proof {
            assert forall|id: u32| #[trigger] ids@.contains(id) <==> names_id(
                specs@,
                at + 1,
                id,
            ) by {
                if before.contains(id) {
                    let j = choose|j: int| 0 <= j < at && #[trigger] specs@[j].id == id;
                    assert(specs@[j].id == id);
                }
                if id == specs@[at as int].id {
                    assert(specs@[at as int].id == id);
                }
                if names_id(specs@, at + 1, id) && id != specs@[at as int].id {
                    let j = choose|j: int| 0 <= j < at + 1 && #[trigger] specs@[j].id == id;
                    assert(0 <= j < at && specs@[j].id == id);
                }
            }
        }
        place(&mut buckets, specs[at]);
        at += 1;
    }
    Ok((ids, buckets))
}

/// What a control command asks of the rule table.
#[derive(Clone, Debug)]
pub enum Applied {
    /// Reset these clocks, fill a fresh table with these entries and swap it
    /// in with one update, so that packets see one complete generation.
    Publish(Generation),
    /// Stop the session.
    Stop,
}

/// The generation in force.
pub struct RuleStore {
    active_rule_ids: Vec<u32>,
    generation: u32,
}

impl RuleStore {
    /// The numbers of the rules in force.
    pub closed spec fn active(&self) -> Seq<u32> {
        self.active_rule_ids@
    }

    /// The number of the generation in force; zero before the first one.
    pub closed spec fn current(&self) -> u32 {
        self.generation
    }

    pub fn new() -> (r: RuleStore)
        ensures
            r.active() == Seq::<u32>::empty(),
            r.current() == 0,
    {
        RuleStore { active_rule_ids: Vec::new(), generation: 0 }
    }

    /// The numbers of the rules in force, in ascending order.
    pub fn active_rule_ids(&self) -> (r: &Vec<u32>)
        ensures
            r@ == self.active(),
    {
        &self.active_rule_ids
    }

    /// Takes one control command. Nothing changes until the generation that
    /// comes back was published.
    pub fn apply(&self, command: &ControlCommand) -> (r: Result<Applied, String>)
        requires
            command matches ControlCommand::ReplaceRules(specs) ==> forall|i: int|
                0 <= i < specs@.len() ==> addressed(#[trigger] specs@[i]),
        ensures
            match command {
                ControlCommand::Stop => r matches Ok(Applied::Stop),
                ControlCommand::ReplaceRules(specs) => match (r, ruleset_error(specs@)) {
                    (Ok(Applied::Publish(generation)), None) => generation.of(
                        specs@,
                        following(self.current()),
                    ),
                    (Err(message), Some(wanted)) => message@ == wanted,
                    _ => false,
                },
            },
    {
        match command {
            ControlCommand::Stop => Ok(Applied::Stop),
            ControlCommand::ReplaceRules(specs) => match self.replace(specs) {
                Ok(generation) => Ok(Applied::Publish(generation)),
                Err(message) => Err(message),
            },
        }
    }

    /// Builds the next generation of a ruleset, detached from the one in
    /// force.
    pub fn replace(&self, specs: &Vec<RuleSpec>) -> (r: Result<Generation, String>)
        requires
            forall|i: int| 0 <= i < specs@.len() ==> addressed(#[trigger] specs@[i]),
        ensures
            match (r, ruleset_error(specs@)) {
                (Ok(generation), None) => generation.of(specs@, following(self.current())),
                (Err(message), Some(wanted)) => message@ == wanted,
                _ => false,
            },
    {
        let (rule_ids, buckets) = match group_rules(specs) {
            Ok(value) => value,
            Err(message) => return Err(message),
        };
        let number: u32 = if self.generation == u32::MAX {
            1
        } else {
            self.generation + 1
        };
        let pace_keys = starting_clocks(&rule_ids, number);
        assert(well_filed(shown(buckets@)) && buckets@.len() <= MAX_RULES) by {
            groups_hold_rules(specs@, specs@.len());
            assert(shown(buckets@).len() == buckets@.len());
        }
        let entries = list_entries(&buckets, number);
        Ok(Generation { number, rule_ids, pace_keys, entries })
    }

    /// Records that a generation was published.
    pub fn published(&mut self, generation: Generation)
        ensures
            final(self).active() == generation.rule_ids@,
            final(self).current() == generation.number,
    {
        self.generation = generation.number;
        self.active_rule_ids = generation.rule_ids;
    }
}

/// The pacing clocks of a generation, one for each rule.
fn starting_clocks(rule_ids: &Vec<u32>, number: u32) -> (r: Vec<PaceKey>)
    ensures
        r@ == Seq::new(
            rule_ids@.len(),
            |i: int| PaceKey { rule_id: rule_ids@[i], generation: number },
        ),
{
    let mut pace_keys: Vec<PaceKey> = Vec::new();
    let mut index: usize = 0;
    while index < rule_ids.len()
        invariant
            index <= rule_ids@.len(),
            pace_keys@ == Seq::new(
                index as nat,
                |i: int| PaceKey { rule_id: rule_ids@[i], generation: number },
            ),
        decreases rule_ids@.len() - index,
    {
        pace_keys.push(PaceKey { rule_id: rule_ids[index], generation: number });
        index += 1;
    }
    pace_keys
}

fn list_group(entries: &mut Vec<TableEntry>, bucket: &Bucket, id: u32, number: u32)
    requires
        forall|k: int|
            0 <= k < bucket.members@.len() ==> filed_under(#[trigger] bucket.members@[k])
                == bucket.network@,
    ensures
        final(entries)@.len() == old(entries)@.len() + 1 + bucket.members@.len(),
        old(entries)@.is_prefix_of(final(entries)@),
        group_listed(
            final(entries)@,
            Group { network: bucket.network@, members: bucket.members@ },
            old(entries)@.len(),
            id as int,
            number,
        ),
{
    let ghost offset = entries@.len();
    entries.push(
        TableEntry {
            key: filed_key(&bucket.network),
            node: RuleNode {
                kind: RULE_NODE_DESTINATION,
                destination_id: id,
                generation: number,
                _padding: 0,
                rule: FaultRule::default(),
            },
        },
    );
    let mut k: usize = 0;
    while k < bucket.members.len()
        invariant
            k <= bucket.members@.len(),
            forall|l: int|
                0 <= l < bucket.members@.len() ==> filed_under(#[trigger] bucket.members@[l])
                    == bucket.network@,
            offset == old(entries)@.len(),
            entries@.len() == offset + 1 + k,
            forall|i: int| 0 <= i < offset ==> entries@[i] == old(entries)@[i],
            is_destination(entries@[offset as int], bucket.network@, id as int, number),
            forall|i: int|
                offset < i <= offset + k ==> is_source(
                    #[trigger] entries@[i],
                    bucket.members@[i - offset - 1],
                    id as int,
                    number,
                ),
        decreases bucket.members@.len() - k,
    {
        let spec = bucket.members[k];
        assert(filed_under(bucket.members@[k as int]) == bucket.network@);
        entries.push(
            TableEntry {
                key: source_key(id, &bucket.network, &spec.source),
                node: RuleNode {
                    kind: RULE_NODE_SOURCE,
                    destination_id: id,
                    generation: number,
                    _padding: 0,
                    rule: fault_rule_from_spec(&spec),
                },
            },
        );
        k += 1;
    }
    assert(old(entries)@ =~= entries@.take(offset as int));
}

/// Appending to a table leaves the groups before it where they are.
proof fn listing_survives(
    before: Seq<TableEntry>,
    after: Seq<TableEntry>,
    groups: Seq<Group>,
    g: nat,
    generation: u32,
)
    requires
        g < groups.len(),
        lists(before, groups, g, generation),
        before.is_prefix_of(after),
        after.len() == before.len() + 1 + groups[g as int].members.len(),
        group_listed(after, groups[g as int], before.len(), g as int, generation),
    ensures
        lists(after, groups, g + 1, generation),
{
    assert forall|h: int| 0 <= h < g + 1 implies #[trigger] listed_at(
        after,
        groups,
        h,
        generation,
    ) by {
        if h < g {
            let start = group_offset(groups, h as nat);
            assert(listed_at(before, groups, h, generation));
            assert(after[start as int] == before[start as int]);
            assert forall|i: int| start < i <= start + groups[h].members.len() implies is_source(
                #[trigger] after[i],
                groups[h].members[i - start - 1],
                h,
                generation,
            ) by {
                assert(after[i] == before[i]);
            }
        }
    }
}

fn list_entries(buckets: &Vec<Bucket>, number: u32) -> (r: Vec<TableEntry>)
    requires
        buckets@.len() <= MAX_RULES,
        well_filed(shown(buckets@)),
    ensures
        lists(r@, shown(buckets@), shown(buckets@).len(), number),
{
    let ghost groups = shown(buckets@);
    let mut entries: Vec<TableEntry> = Vec::new();
    let mut g: usize = 0;
    while g < buckets.len()
        invariant
            g <= buckets@.len() <= MAX_RULES,
            groups == shown(buckets@),
            well_filed(groups),
            lists(entries@, groups, g as nat, number),
        decreases buckets@.len() - g,
    {
        let ghost before = entries@;
        let bucket = &buckets[g];
        assert(groups[g as int].members == bucket.members@);
        assert forall|k: int| 0 <= k < bucket.members@.len() implies filed_under(
            #[trigger] bucket.members@[k],
        ) == bucket.network@ by {
            assert(filed_under(groups[g as int].members[k]) == groups[g as int].network);
        }
        list_group(&mut entries, bucket, g as u32, number);
        proof {
            listing_survives(before, entries@, groups, g as nat, number);
        }
        g += 1;
    }
    entries
}

/// Every group has rules, all of them filed under its destination.
pub open spec fn well_filed(groups: Seq<Group>) -> bool {
    &&& forall|g: int| 0 <= g < groups.len() ==> (#[trigger] groups[g]).members.len() > 0
    &&& forall|g: int, k: int|
        0 <= g < groups.len() && 0 <= k < groups[g].members.len() ==> filed_under(
            #[trigger] groups[g].members[k],
        ) == groups[g].network
}

/// No destination has two groups.
pub open spec fn separate(groups: Seq<Group>) -> bool {
    forall|g: int, h: int|
        0 <= g < h < groups.len() ==> (#[trigger] groups[g]).network != (
        #[trigger] groups[h]).network
}

/// Every rule of a group is one of the first `n` rules.
pub open spec fn drawn_from(groups: Seq<Group>, specs: Seq<RuleSpec>, n: int) -> bool {
    forall|g: int, k: int|
        0 <= g < groups.len() && 0 <= k < groups[g].members.len() ==> among(
            specs,
            n,
            #[trigger] groups[g].members[k],
        )
}

/// Whether a rule is one of the first `n`.
pub open spec fn among(specs: Seq<RuleSpec>, n: int, spec: RuleSpec) -> bool {
    exists|j: int| 0 <= j < n && #[trigger] specs[j] == spec
}

/// Whether some group holds a rule.
pub open spec fn held(groups: Seq<Group>, spec: RuleSpec) -> bool {
    exists|g: int, k: int|
        0 <= g < groups.len() && 0 <= k < groups[g].members.len()
            && #[trigger] groups[g].members[k] == spec
}

pub proof fn group_index_finds(groups: Seq<Group>, network: Network, from: int)
    requires
        0 <= from <= groups.len(),
    ensures
        match group_index(groups, network, from) {
            Some(at) => from <= at < groups.len() && groups[at].network == network,
            None => forall|i: int|
                from <= i < groups.len() ==> (#[trigger] groups[i]).network != network,
        },
    decreases groups.len() - from,
{
    if from < groups.len() && groups[from].network != network {
        group_index_finds(groups, network, from + 1);
    }
}

pub proof fn insertion_index_fits(groups: Seq<Group>, network: Network, from: int)
    requires
        0 <= from <= groups.len(),
    ensures
        from <= insertion_index(groups, network, from) <= groups.len(),
    decreases groups.len() - from,
{
    if from < groups.len() && !network.before(groups[from].network) {
        insertion_index_fits(groups, network, from + 1);
    }
}

/// The table offset behind the groups that follow a changed one.
proof fn offset_after_update(groups: Seq<Group>, at: int, spec: RuleSpec, n: nat)
    requires
        0 <= at < groups.len(),
        n <= groups.len(),
    ensures
        group_offset(
            groups.update(
                at,
                Group { network: groups[at].network, members: groups[at].members.push(spec) },
            ),
            n,
        ) == group_offset(groups, n) + (if n > at {
            1nat
        } else {
            0
        }),
    decreases n,
{
    if n > 0 {
        offset_after_update(groups, at, spec, (n - 1) as nat);
    }
}

proof fn offset_after_insert(groups: Seq<Group>, at: int, group: Group, n: nat)
    requires
        0 <= at <= groups.len(),
        n <= groups.len() + 1,
    ensures
        group_offset(groups.insert(at, group), n) == (if n <= at {
            group_offset(groups, n)
        } else {
            group_offset(groups, (n - 1) as nat) + 1 + group.members.len()
        }),
    decreases n,
{
    if n > 0 {
        offset_after_insert(groups, at, group, (n - 1) as nat);
        if n <= at {
            assert(groups.insert(at, group)[n - 1] == groups[n - 1]);
        } else if n == at + 1 {
            assert(groups.insert(at, group)[n - 1] == group);
        } else {
            assert(groups.insert(at, group)[n - 1] == groups[n - 2]);
        }
    }
}

/// What grouping keeps: groups are separate, hold exactly the rules that were
/// placed, each under its destination, and leave room in the table.
pub proof fn groups_hold_rules(specs: Seq<RuleSpec>, n: nat)
    requires
        n <= specs.len(),
    ensures
        well_filed(grouped(specs, n)),
        separate(grouped(specs, n)),
        drawn_from(grouped(specs, n), specs, n as int),
        forall|j: int| 0 <= j < n ==> held(grouped(specs, n), #[trigger] specs[j]),
        grouped(specs, n).len() <= n,
        group_offset(grouped(specs, n), grouped(specs, n).len()) == grouped(specs, n).len() + n,
    decreases n,
{
    if n > 0 {
        let m = (n - 1) as nat;
        groups_hold_rules(specs, m);
        let old_groups = grouped(specs, m);
        let spec = specs[n - 1];
        let network = filed_under(spec);
        let groups = grouped(specs, n);
        group_index_finds(old_groups, network, 0);
        insertion_index_fits(old_groups, network, 0);
        match group_index(old_groups, network, 0) {
            Some(at) => {
                let grown = Group { network, members: old_groups[at].members.push(spec) };
                assert(groups == old_groups.update(at, grown));
                offset_after_update(old_groups, at, spec, old_groups.len());
                assert(groups[at].members[old_groups[at].members.len() as int] == spec);
                assert forall|g: int, k: int|
                    0 <= g < groups.len() && 0 <= k < groups[g].members.len() implies filed_under(
                    #[trigger] groups[g].members[k],
                ) == groups[g].network && among(specs, n as int, groups[g].members[k]) by {
                    if g == at && k == old_groups[at].members.len() {
                        assert(specs[n - 1] == groups[g].members[k]);
                    } else {
                        assert(groups[g].members[k] == old_groups[g].members[k]);
                        assert(among(specs, m as int, old_groups[g].members[k]));
                        let j = choose|j: int|
                            0 <= j < m && #[trigger] specs[j] == old_groups[g].members[k];
                        assert(specs[j] == groups[g].members[k]);
                    }
                }
                assert forall|j: int| 0 <= j < n implies held(groups, #[trigger] specs[j]) by {
                    if j < m {
                        assert(held(old_groups, specs[j]));
                        let (g, k) = choose|g: int, k: int|
                            0 <= g < old_groups.len() && 0 <= k < old_groups[g].members.len()
                                && #[trigger] old_groups[g].members[k] == specs[j];
                        assert(groups[g].members[k] == specs[j]);
                    } else {
                        assert(groups[at].members[old_groups[at].members.len() as int] == specs[j]);
                    }
                }
            },
            None => {
                let at = insertion_index(old_groups, network, 0);
                let fresh = Group { network, members: seq![spec] };
                assert(groups == old_groups.insert(at, fresh));
                offset_after_insert(old_groups, at, fresh, groups.len());
                assert forall|g: int| 0 <= g < groups.len() implies (#[trigger] groups[g]
                    == if g < at {
                    old_groups[g]
                } else if g == at {
                    fresh
                } else {
                    old_groups[g - 1]
                }) by {}
                assert forall|g: int, k: int|
                    0 <= g < groups.len() && 0 <= k < groups[g].members.len() implies filed_under(
                    #[trigger] groups[g].members[k],
                ) == groups[g].network && among(specs, n as int, groups[g].members[k]) by {
                    if g == at {
                        assert(specs[n - 1] == groups[g].members[k]);
                    } else {
                        let og = if g < at {
                            g
                        } else {
                            g - 1
                        };
                        assert(groups[g] == old_groups[og]);
                        assert(among(specs, m as int, old_groups[og].members[k]));
                        let j = choose|j: int|
                            0 <= j < m && #[trigger] specs[j] == old_groups[og].members[k];
                        assert(specs[j] == groups[g].members[k]);
                    }
                }
                assert forall|g: int, h: int| 0 <= g < h < groups.len() implies (
                #[trigger] groups[g]).network != (#[trigger] groups[h]).network by {
                    let og = if g < at {
                        g
                    } else {
                        g - 1
                    };
                    let oh = if h < at {
                        h
                    } else {
                        h - 1
                    };
                    if g == at {
                        assert(old_groups[oh].network != network);
                    } else if h == at {
                        assert(old_groups[og].network != network);
                    } else {
                        assert(old_groups[og].network != old_groups[oh].network);
                    }
                }
                assert forall|j: int| 0 <= j < n implies held(groups, #[trigger] specs[j]) by {
                    if j < m {
                        assert(held(old_groups, specs[j]));
                        let (g, k) = choose|g: int, k: int|
                            0 <= g < old_groups.len() && 0 <= k < old_groups[g].members.len()
                                && #[trigger] old_groups[g].members[k] == specs[j];
                        let ng = if g < at {
                            g
                        } else {
                            g + 1
                        };
                        assert(groups[ng].members[k] == specs[j]);
                    } else {
                        assert(groups[at].members[0] == specs[j]);
                    }
                }
            },
        }
    }
}

/// A new generation never shares its number with the one in force, so that its
/// clocks and flows start afresh, and never has the number that stands for none.
pub proof fn generations_start_afresh(generation: u32, rule_id: u32)
    ensures
        following(generation) != generation,
        following(generation) != 0,
        ((PaceKey { rule_id, generation: following(generation) }) != (PaceKey {
            rule_id,
            generation,
        })),
{
}

} // verus!
