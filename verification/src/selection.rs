//! From the relations of an experiment to concrete, numbered rules, and which
//! of them win where they overlap.

use vstd::prelude::*;
use vstd::string::*;
use crate::common::MAX_RULES;
use crate::experiment_spec::{
    Authored, CommunicationSelector, NetworkProtocol, ResolutionStrategy,
};
use crate::net::{
    address_literal, bytes_before, network_literal, Address, IpAddr, IpNet, Network,
};
use crate::protocol::optional_network;
use crate::text::{decimal, digits, optional_text, texts};
use crate::words::{add_text, ascending, with_text, with_text_keeps_order};
use crate::workload_spec::copy_optional_text;

verus! {

/// Turns host names into addresses.
pub trait DestinationResolver {
    fn resolve(&self, hostname: &str) -> Result<Vec<IpAddr>, String>;
}

/// A destination with its addresses settled.
#[derive(Clone, Debug, PartialEq, Eq)]
pub struct ResolvedDestination {
    pub selector: String,
    pub networks: Vec<IpNet>,
    pub protocol: NetworkProtocol,
    pub port: Option<u16>,
    pub resolution: ResolutionStrategy,
}

/// One concrete rule of a relation.
#[derive(Clone, Debug, PartialEq, Eq)]
pub struct ResolvedRuleBinding {
    pub rule_id: u32,
    pub source: Option<IpNet>,
    pub destination: IpNet,
    pub protocol: NetworkProtocol,
    pub port: Option<u16>,
    /// Packets are matched to the longest destination first, then to the
    /// longest source below it. Protocol and port do not break ties.
    pub precedence: String,
}

/// A relation with its rules.
#[derive(Clone, Debug, PartialEq, Eq)]
pub struct ResolvedSelector {
    pub name: String,
    pub source_selector: Option<String>,
    pub source_networks: Vec<IpNet>,
    pub destination: ResolvedDestination,
    /// Through these a counted rule can be traced back to its relation.
    pub rules: Vec<ResolvedRuleBinding>,
}

/// Networks as values.
pub open spec fn networks_of(list: Seq<IpNet>) -> Seq<Network> {
    list.map_values(|network: IpNet| network@)
}

/// Addresses as values.
pub open spec fn addresses_of(list: Seq<IpAddr>) -> Seq<Address> {
    list.map_values(|address: IpAddr| address@)
}

/// A settled destination as a value.
pub struct Endpoint {
    pub selector: Seq<char>,
    pub networks: Seq<Network>,
    pub protocol: NetworkProtocol,
    pub port: Option<u16>,
    pub resolution: ResolutionStrategy,
}

impl View for ResolvedDestination {
    type V = Endpoint;

    open spec fn view(&self) -> Endpoint {
        Endpoint {
            selector: self.selector@,
            networks: networks_of(self.networks@),
            protocol: self.protocol,
            port: self.port,
            resolution: self.resolution,
        }
    }
}

/// A concrete rule as a value.
pub struct Binding {
    pub rule_id: u32,
    pub source: Option<Network>,
    pub destination: Network,
    pub protocol: NetworkProtocol,
    pub port: Option<u16>,
    pub precedence: Seq<char>,
}

impl View for ResolvedRuleBinding {
    type V = Binding;

    open spec fn view(&self) -> Binding {
        Binding {
            rule_id: self.rule_id,
            source: optional_network(self.source),
            destination: self.destination@,
            protocol: self.protocol,
            port: self.port,
            precedence: self.precedence@,
        }
    }
}

pub open spec fn bindings_of(list: Seq<ResolvedRuleBinding>) -> Seq<Binding> {
    list.map_values(|binding: ResolvedRuleBinding| binding@)
}

/// A relation with its rules as a value.
pub struct Relation {
    pub name: Seq<char>,
    pub source_selector: Option<Seq<char>>,
    pub source_networks: Seq<Network>,
    pub destination: Endpoint,
    pub rules: Seq<Binding>,
}

impl View for ResolvedSelector {
    type V = Relation;

    open spec fn view(&self) -> Relation {
        Relation {
            name: self.name@,
            source_selector: optional_text(self.source_selector),
            source_networks: networks_of(self.source_networks@),
            destination: self.destination@,
            rules: bindings_of(self.rules@),
        }
    }
}

pub open spec fn relations_of(list: Seq<ResolvedSelector>) -> Seq<Relation> {
    list.map_values(|selector: ResolvedSelector| selector@)
}

/// What a resolver answered, as a value.
pub type Answer = Result<Seq<Address>, Seq<char>>;

pub open spec fn answer_of(answer: Result<Vec<IpAddr>, String>) -> Answer {
    match answer {
        Ok(addresses) => Ok(addresses_of(addresses@)),
        Err(message) => Err(message@),
    }
}

/// The network that a text names without a resolver: a network, or the one
/// address that it writes.
pub open spec fn literal(text: Seq<char>) -> Option<Network> {
    match network_literal(text) {
        Some(network) => Some(network),
        None => match address_literal(text) {
            Some(address) => Some(IpNet::host_of(address)),
            None => None,
        },
    }
}

/// The place of a network in an ordered list: that of its equal, or the one it
/// would take.
pub open spec fn slot(list: Seq<Network>, network: Network, from: int) -> int
    decreases list.len() - from,
{
    if from >= list.len() || list[from] == network || network.before(list[from]) {
        from
    } else {
        slot(list, network, from + 1)
    }
}

/// An ordered list with a network in it.
pub open spec fn with_network(list: Seq<Network>, network: Network) -> Seq<Network> {
    let at = slot(list, network, 0);
    if at < list.len() && list[at] == network {
        list
    } else {
        list.insert(at, network)
    }
}

/// The hosts of the first `n` addresses, ordered and each once.
pub open spec fn snapshot(addresses: Seq<Address>, n: nat) -> Seq<Network>
    decreases n,
{
    if n == 0 {
        Seq::empty()
    } else {
        with_network(snapshot(addresses, (n - 1) as nat), IpNet::host_of(addresses[n - 1]))
    }
}

/// The networks that a text stands for, given what a resolver answered. A text
/// that writes a network or an address needs no resolver.
pub open spec fn resolution(text: Seq<char>, answer: Answer) -> Result<Seq<Network>, Seq<char>> {
    match literal(text) {
        Some(network) => Ok(seq![network]),
        None => match answer {
            Err(error) => Err(error),
            Ok(addresses) => if addresses.len() == 0 {
                Err("destination "@ + text + " resolved to no addresses"@)
            } else {
                Ok(snapshot(addresses, addresses.len()))
            },
        },
    }
}

/// Whether every network of a list can be written.
pub open spec fn all_printable(list: Seq<IpNet>) -> bool {
    forall|i: int| 0 <= i < list.len() ==> (#[trigger] list[i])@.printable()
}

fn read_literal(text: &str) -> (r: Option<IpNet>)
    ensures
        match (r, literal(text@)) {
            (Some(network), Some(wanted)) => network@ == wanted && network@.printable(),
            (None, None) => true,
            _ => false,
        },
{
    if let Some(network) = IpNet::parse(text) {
        return Some(network);
    }
    match IpAddr::parse(text) {
        Some(address) => Some(IpNet::host(address)),
        None => None,
    }
}

/// Whether a text is a host name, so that a resolver has to be asked.
pub fn needs_resolver(text: &str) -> (r: bool)
    ensures
        r == (literal(text@) is None),
{
    read_literal(text).is_none()
}

fn add_network(list: &mut Vec<IpNet>, network: IpNet)
    requires
        all_printable(old(list)@),
        network@.printable(),
    ensures
        networks_of(final(list)@) == with_network(networks_of(old(list)@), network@),
        all_printable(final(list)@),
        final(list)@.len() > 0,
{
    let ghost before = networks_of(list@);
    let mut at: usize = 0;
    while at < list.len() && !list[at].same(&network) && !network.comes_before(&list[at])
        invariant
            at <= list@.len(),
            *list == *old(list),
            before == networks_of(list@),
            slot(before, network@, 0) == slot(before, network@, at as int),
        decreases list@.len() - at,
    {
        assert(before[at as int] == list@[at as int]@);
        at += 1;
    }
    if at < list.len() {
        assert(before[at as int] == list@[at as int]@);
        if list[at].same(&network) {
            return;
        }
    }
    list.insert(at, network);
    assert(networks_of(list@) =~= before.insert(at as int, network@));
}

/// The networks that a text stands for, given what a resolver answered.
pub fn resolve_selector(selector: &str, answer: &Result<Vec<IpAddr>, String>) -> (r: Result<
    Vec<IpNet>,
    String,
>)
    ensures
        match (r, resolution(selector@, answer_of(*answer))) {
            (Ok(networks), Ok(wanted)) => networks_of(networks@) == wanted && all_printable(
                networks@,
            ),
            (Err(message), Err(wanted)) => message@ == wanted,
            _ => false,
        },
{
    if let Some(network) = read_literal(selector) {
        let mut networks: Vec<IpNet> = Vec::new();
        networks.push(network);
        assert(networks_of(networks@) =~= seq![network@]);
        return Ok(networks);
    }
    let addresses = match answer {
        Ok(addresses) => addresses,
        Err(message) => return Err(message.clone()),
    };
    if addresses.len() == 0 {
        let mut message = "destination ".to_owned();
        message.append(selector);
        message.append(" resolved to no addresses");
        return Err(message);
    }
    let mut networks: Vec<IpNet> = Vec::new();
    assert(networks_of(networks@) =~= Seq::<Network>::empty());
    let mut index: usize = 0;
    while index < addresses.len()
        invariant
            index <= addresses@.len(),
            networks_of(networks@) == snapshot(addresses_of(addresses@), index as nat),
            all_printable(networks@),
        decreases addresses@.len() - index,
    {
        assert(addresses_of(addresses@)[index as int] == addresses@[index as int]@);
        add_network(&mut networks, IpNet::host(addresses[index]));
        index += 1;
    }
    Ok(networks)
}

/// The networks of one family among the first `n`.
pub open spec fn of_family(networks: Seq<Network>, v4: bool, n: nat) -> Seq<Network>
    decreases n,
{
    if n == 0 {
        Seq::empty()
    } else {
        let before = of_family(networks, v4, (n - 1) as nat);
        if networks[n - 1].v4 == v4 {
            before.push(networks[n - 1])
        } else {
            before
        }
    }
}

/// The sources that go with a destination: every source where the relation
/// names none, else those of the destination's family.
pub open spec fn sources_for(
    named: bool,
    sources: Seq<Network>,
    destination: Network,
) -> Seq<Option<Network>> {
    if !named {
        seq![None]
    } else {
        of_family(sources, destination.v4, sources.len()).map_values(
            |source: Network| Some(source),
        )
    }
}

/// A source and a destination.
pub type Pair = (Option<Network>, Network);

/// The pairs of the first `n` destinations with their sources.
pub open spec fn pairs_for(
    named: bool,
    sources: Seq<Network>,
    destinations: Seq<Network>,
    n: nat,
) -> Seq<Pair>
    decreases n,
{
    if n == 0 {
        Seq::empty()
    } else {
        let destination = destinations[n - 1];
        pairs_for(named, sources, destinations, (n - 1) as nat) + sources_for(
            named,
            sources,
            destination,
        ).map_values(|source: Option<Network>| (source, destination))
    }
}

/// A relation with its addresses settled, before its rules are numbered.
pub struct Settled {
    pub authored: Authored,
    pub source_networks: Seq<Network>,
    pub destination_networks: Seq<Network>,
    pub pairs: Seq<Pair>,
}

/// A relation with its addresses settled, or why they cannot be: the
/// destination is looked at first, then the source.
pub open spec fn settlement(
    authored: Authored,
    destination_answer: Answer,
    source_answer: Answer,
) -> Result<Settled, Seq<char>> {
    match resolution(authored.destination.selector, destination_answer) {
        Err(error) => Err(error),
        Ok(destinations) => {
            let sources = match authored.source {
                None => Ok(Seq::<Network>::empty()),
                Some(text) => resolution(text, source_answer),
            };
            match sources {
                Err(error) => Err(error),
                Ok(sources) => {
                    let pairs = pairs_for(
                        authored.source is Some,
                        sources,
                        destinations,
                        destinations.len(),
                    );
                    if pairs.len() == 0 {
                        Err(
                            "selector "@ + authored.name
                                + " has no source and destination addresses in the same family"@,
                        )
                    } else {
                        Ok(
                            Settled {
                                authored,
                                source_networks: sources,
                                destination_networks: destinations,
                                pairs,
                            },
                        )
                    }
                },
            }
        },
    }
}

/// A relation with its addresses settled.
#[derive(Clone, Debug)]
pub struct ResolvedSelectorInput {
    pub authored: CommunicationSelector,
    pub source_networks: Vec<IpNet>,
    pub destination_networks: Vec<IpNet>,
    pub bindings: Vec<(Option<IpNet>, IpNet)>,
}

/// Pairs of networks as values.
pub open spec fn pair_values(list: Seq<(Option<IpNet>, IpNet)>) -> Seq<Pair> {
    list.map_values(|pair: (Option<IpNet>, IpNet)| (optional_network(pair.0), pair.1@))
}

impl View for ResolvedSelectorInput {
    type V = Settled;

    open spec fn view(&self) -> Settled {
        Settled {
            authored: self.authored@,
            source_networks: networks_of(self.source_networks@),
            destination_networks: networks_of(self.destination_networks@),
            pairs: pair_values(self.bindings@),
        }
    }
}

/// Whether every pair can be written.
pub open spec fn pairs_printable(list: Seq<(Option<IpNet>, IpNet)>) -> bool {
    forall|i: int|
        0 <= i < list.len() ==> (#[trigger] list[i]).1@.printable() && (
        list[i].0 matches Some(source) ==> source@.printable())
}

fn compatible_sources(named: bool, sources: &Vec<IpNet>, destination: &IpNet) -> (r: Vec<
    Option<IpNet>,
>)
    requires
        all_printable(sources@),
    ensures
        r@.map_values(|source: Option<IpNet>| optional_network(source)) == sources_for(
            named,
            networks_of(sources@),
            destination@,
        ),
        forall|i: int|
            0 <= i < r@.len() ==> (#[trigger] r@[i] matches Some(source) ==> source@.printable()),
{
    let mut out: Vec<Option<IpNet>> = Vec::new();
    if !named {
        out.push(None);
        assert(out@.map_values(|source: Option<IpNet>| optional_network(source)) =~= seq![None]);
        return out;
    }
    let ghost values = networks_of(sources@);
    let mut index: usize = 0;
    while index < sources.len()
        invariant
            index <= sources@.len(),
            values == networks_of(sources@),
            all_printable(sources@),
            out@.len() == of_family(values, destination@.v4, index as nat).len(),
            forall|i: int|
                0 <= i < out@.len() ==> optional_network(#[trigger] out@[i]) == Some(
                    of_family(values, destination@.v4, index as nat)[i],
                ),
            forall|i: int|
                0 <= i < out@.len() ==> (#[trigger] out@[i] matches Some(source)
                    ==> source@.printable()),
        decreases sources@.len() - index,
    {
        assert(values[index as int] == sources@[index as int]@);
        if sources[index].is_ipv4() == destination.is_ipv4() {
            out.push(Some(sources[index]));
        }
        index += 1;
    }
    assert(out@.map_values(|source: Option<IpNet>| optional_network(source)) =~= sources_for(
        true,
        values,
        destination@,
    ));
    out
}

fn pair_networks(named: bool, sources: &Vec<IpNet>, destinations: &Vec<IpNet>) -> (r: Vec<
    (Option<IpNet>, IpNet),
>)
    requires
        all_printable(sources@),
        all_printable(destinations@),
    ensures
        pair_values(r@) == pairs_for(
            named,
            networks_of(sources@),
            networks_of(destinations@),
            destinations@.len(),
        ),
        pairs_printable(r@),
{
    let mut out: Vec<(Option<IpNet>, IpNet)> = Vec::new();
    let ghost from = networks_of(sources@);
    let ghost to = networks_of(destinations@);
    assert(pair_values(out@) =~= Seq::<Pair>::empty());
    let mut index: usize = 0;
    while index < destinations.len()
        invariant
            index <= destinations@.len(),
            from == networks_of(sources@),
            to == networks_of(destinations@),
            all_printable(sources@),
            all_printable(destinations@),
            pair_values(out@) == pairs_for(named, from, to, index as nat),
            pairs_printable(out@),
        decreases destinations@.len() - index,
    {
        let destination = destinations[index];
        assert(to[index as int] == destination@);
        assert(destinations@[index as int]@.printable());
        let fitting = compatible_sources(named, sources, &destination);
        let ghost before = pair_values(out@);
        let ghost wanted = sources_for(named, from, destination@);
        let mut k: usize = 0;
        while k < fitting.len()
            invariant
                k <= fitting@.len(),
                destination@.printable(),
                fitting@.map_values(|source: Option<IpNet>| optional_network(source)) == wanted,
                forall|i: int|
                    0 <= i < fitting@.len() ==> (#[trigger] fitting@[i] matches Some(source)
                        ==> source@.printable()),
                pair_values(out@) == before + wanted.take(k as int).map_values(
                    |source: Option<Network>| (source, destination@),
                ),
                pairs_printable(out@),
            decreases fitting@.len() - k,
        {
            assert(wanted[k as int] == optional_network(fitting@[k as int]));
            let ghost reached = out@;
            out.push((fitting[k], destination));
            assert(pair_values(out@) =~= pair_values(reached).push(
                (wanted[k as int], destination@),
            ));
            assert(wanted.take(k + 1) =~= wanted.take(k as int).push(wanted[k as int]));
            assert(before + wanted.take(k + 1).map_values(
                |source: Option<Network>| (source, destination@),
            ) =~= (before + wanted.take(k as int).map_values(
                |source: Option<Network>| (source, destination@),
            )).push((wanted[k as int], destination@)));
            k += 1;
        }
        assert(wanted.len() == fitting@.len());
        assert(wanted.take(wanted.len() as int) =~= wanted);
        index += 1;
    }
    out
}

/// Settles the addresses of a relation, given what a resolver answered for its
/// destination and its source.
pub fn resolve_selector_input(
    selector: &CommunicationSelector,
    destination_answer: &Result<Vec<IpAddr>, String>,
    source_answer: &Result<Vec<IpAddr>, String>,
) -> (r: Result<ResolvedSelectorInput, String>)
    ensures
        match (
            r,
            settlement(selector@, answer_of(*destination_answer), answer_of(*source_answer)),
        ) {
            (Ok(input), Ok(wanted)) => input@ == wanted && pairs_printable(input.bindings@),
            (Err(message), Err(wanted)) => message@ == wanted,
            _ => false,
        },
{
    let destination_networks = match resolve_selector(
        selector.destination.selector.as_str(),
        destination_answer,
    ) {
        Ok(networks) => networks,
        Err(message) => return Err(message),
    };
    let source_networks = match &selector.source {
        Some(source) => match resolve_selector(source.as_str(), source_answer) {
            Ok(networks) => networks,
            Err(message) => return Err(message),
        },
        None => Vec::new(),
    };
    assert(selector.source is None ==> networks_of(source_networks@) =~= Seq::<Network>::empty());
    let bindings = pair_networks(
        selector.source.is_some(),
        &source_networks,
        &destination_networks,
    );
    if bindings.len() == 0 {
        assert(pair_values(bindings@).len() == 0);
        let mut message = "selector ".to_owned();
        message.append(selector.name.as_str());
        message.append(" has no source and destination addresses in the same family");
        return Err(message);
    }
    assert(pair_values(bindings@).len() > 0);
    Ok(
        ResolvedSelectorInput {
            authored: selector.copy(),
            source_networks,
            destination_networks,
            bindings,
        },
    )
}

/// The prefix of an optional source; none covers everything.
pub open spec fn source_prefix_of(source: Option<Network>) -> u8 {
    match source {
        Some(network) => network.prefix_len,
        None => 0,
    }
}

/// How the precedence of a rule is explained.
pub open spec fn precedence_text(pair: Pair) -> Seq<char> {
    "destination /"@ + digits(pair.1.prefix_len as nat) + " then source /"@ + digits(
        source_prefix_of(pair.0) as nat,
    ) + "; protocol and port filter the selected rule"@
}

/// The rule of a pair.
pub open spec fn binding_for(authored: Authored, pair: Pair, rule_id: nat) -> Binding {
    Binding {
        rule_id: rule_id as u32,
        source: pair.0,
        destination: pair.1,
        protocol: authored.destination.protocol,
        port: authored.destination.port,
        precedence: precedence_text(pair),
    }
}

/// A relation with its rules numbered from `first` on.
pub open spec fn numbered(settled: Settled, first: nat) -> Relation {
    Relation {
        name: settled.authored.name,
        source_selector: settled.authored.source,
        source_networks: settled.source_networks,
        destination: Endpoint {
            selector: settled.authored.destination.selector,
            networks: settled.destination_networks,
            protocol: settled.authored.destination.protocol,
            port: settled.authored.destination.port,
            resolution: settled.authored.destination.resolution,
        },
        rules: Seq::new(
            settled.pairs.len(),
            |k: int| binding_for(settled.authored, settled.pairs[k], (first + k) as nat),
        ),
    }
}

/// How many rules the first `n` relations have.
pub open spec fn rules_before(settled: Seq<Settled>, n: nat) -> nat
    decreases n,
{
    if n == 0 {
        0
    } else {
        rules_before(settled, (n - 1) as nat) + settled[n - 1].pairs.len()
    }
}

/// The relations with their rules numbered without gaps, in their order.
pub open spec fn all_numbered(settled: Seq<Settled>) -> Seq<Relation> {
    Seq::new(
        settled.len(),
        |i: int| numbered(settled[i], rules_before(settled, i as nat)),
    )
}

pub open spec fn settled_of(inputs: Seq<ResolvedSelectorInput>) -> Seq<Settled> {
    inputs.map_values(|input: ResolvedSelectorInput| input@)
}

fn write_precedence(source: &Option<IpNet>, destination: &IpNet) -> (r: String)
    ensures
        r@ == precedence_text((optional_network(*source), destination@)),
{
    let source_len: u8 = match source {
        Some(network) => network.prefix_len,
        None => 0,
    };
    let mut text = "destination /".to_owned();
    text.append(decimal(destination.prefix_len as u64).as_str());
    text.append(" then source /");
    text.append(decimal(source_len as u64).as_str());
    text.append("; protocol and port filter the selected rule");
    text
}

/// Whether every rule of a relation can be written.
pub open spec fn rules_printable(rules: Seq<ResolvedRuleBinding>) -> bool {
    forall|i: int|
        0 <= i < rules.len() ==> (#[trigger] rules[i]).destination@.printable() && (
        rules[i].source matches Some(source) ==> source@.printable())
}

impl ResolvedSelectorInput {
    fn into_resolved(&self, first_rule_id: u32) -> (r: ResolvedSelector)
        requires
            first_rule_id + self.bindings@.len() <= u32::MAX,
            pairs_printable(self.bindings@),
        ensures
            r@ == numbered(self@, first_rule_id as nat),
            rules_printable(r.rules@),
    {
        let mut rules: Vec<ResolvedRuleBinding> = Vec::new();
        let mut offset: usize = 0;
        while offset < self.bindings.len()
            invariant
                offset <= self.bindings@.len(),
                first_rule_id + self.bindings@.len() <= u32::MAX,
                pairs_printable(self.bindings@),
                rules@.len() == offset,
                rules_printable(rules@),
                forall|k: int|
                    0 <= k < offset ==> (#[trigger] rules@[k])@ == binding_for(
                        self.authored@,
                        self@.pairs[k],
                        (first_rule_id + k) as nat,
                    ),
            decreases self.bindings@.len() - offset,
        {
            let (source, destination) = self.bindings[offset];
            assert(self@.pairs[offset as int] == (optional_network(source), destination@));
            rules.push(
                ResolvedRuleBinding {
                    rule_id: first_rule_id + offset as u32,
                    source,
                    destination,
                    protocol: self.authored.destination.protocol,
                    port: self.authored.destination.port,
                    precedence: write_precedence(&source, &destination),
                },
            );
            offset += 1;
        }
        assert(bindings_of(rules@) =~= numbered(self@, first_rule_id as nat).rules);
        ResolvedSelector {
            name: self.authored.name.clone(),
            source_selector: copy_optional_text(&self.authored.source),
            source_networks: copy_networks(&self.source_networks),
            destination: ResolvedDestination {
                selector: self.authored.destination.selector.clone(),
                networks: copy_networks(&self.destination_networks),
                protocol: self.authored.destination.protocol,
                port: self.authored.destination.port,
                resolution: self.authored.destination.resolution,
            },
            rules,
        }
    }
}

/// Copies networks.
pub fn copy_networks(list: &Vec<IpNet>) -> (r: Vec<IpNet>)
    ensures
        r@ == list@,
{
    let mut out: Vec<IpNet> = Vec::new();
    let mut index: usize = 0;
    while index < list.len()
        invariant
            index <= list@.len(),
            out@ == list@.take(index as int),
        decreases list@.len() - index,
    {
        out.push(list[index]);
        assert(out@ =~= list@.take(index + 1));
        index += 1;
    }
    assert(list@.take(list@.len() as int) =~= list@);
    out
}

/// Whether every rule of every relation can be written.
pub open spec fn selectors_printable(selectors: Seq<ResolvedSelector>) -> bool {
    forall|i: int| 0 <= i < selectors.len() ==> rules_printable((#[trigger] selectors[i]).rules@)
}

proof fn rules_before_grows(settled: Seq<Settled>, m: nat, n: nat)
    requires
        m <= n,
    ensures
        rules_before(settled, m) <= rules_before(settled, n),
    decreases n,
{
    if m < n {
        rules_before_grows(settled, m, (n - 1) as nat);
    }
}

/// Numbers the rules of settled relations.
pub fn compile_selectors(inputs: &Vec<ResolvedSelectorInput>) -> (r: Result<
    Vec<ResolvedSelector>,
    String,
>)
    requires
        forall|i: int| 0 <= i < inputs@.len() ==> pairs_printable((#[trigger] inputs@[i]).bindings@),
    ensures
        match r {
            Ok(selectors) => {
                &&& rules_before(settled_of(inputs@), inputs@.len()) <= u32::MAX
                &&& relations_of(selectors@) == all_numbered(settled_of(inputs@))
                &&& selectors_printable(selectors@)
            },
            Err(message) => {
                &&& rules_before(settled_of(inputs@), inputs@.len()) > u32::MAX
                &&& message@ == "experiment produces too many rules"@
            },
        },
{
    let ghost settled = settled_of(inputs@);
    let mut selectors: Vec<ResolvedSelector> = Vec::new();
    let mut next_rule_id: u32 = 0;
    let mut index: usize = 0;
    while index < inputs.len()
        invariant
            index <= inputs@.len(),
            settled == settled_of(inputs@),
            forall|i: int|
                0 <= i < inputs@.len() ==> pairs_printable((#[trigger] inputs@[i]).bindings@),
            selectors@.len() == index,
            selectors_printable(selectors@),
            next_rule_id == rules_before(settled, index as nat),
            forall|i: int|
                0 <= i < index ==> (#[trigger] selectors@[i])@ == numbered(
                    settled[i],
                    rules_before(settled, i as nat),
                ),
        decreases inputs@.len() - index,
    {
        assert(settled[index as int] == inputs@[index as int]@);
        assert(settled[index as int].pairs.len() == inputs@[index as int].bindings@.len());
        proof {
            rules_before_grows(settled, (index + 1) as nat, inputs@.len());
        }
        if inputs[index].bindings.len() > (u32::MAX - next_rule_id) as usize {
            return Err("experiment produces too many rules".to_owned());
        }
        selectors.push(inputs[index].into_resolved(next_rule_id));
        next_rule_id = next_rule_id + inputs[index].bindings.len() as u32;
        index += 1;
    }
    assert(relations_of(selectors@) =~= all_numbered(settled));
    Ok(selectors)
}

/// A rule and the name of its relation.
pub type Named = (Seq<char>, Binding);

/// The rules of the first `n` relations, in their order, with the names of
/// their relations.
pub open spec fn named_rules(relations: Seq<Relation>, n: nat) -> Seq<Named>
    decreases n,
{
    if n == 0 {
        Seq::empty()
    } else {
        let relation = relations[n - 1];
        named_rules(relations, (n - 1) as nat) + relation.rules.map_values(
            |binding: Binding| (relation.name, binding),
        )
    }
}

/// A rule and the name of its relation.
#[derive(Clone, Debug)]
pub struct NamedBinding {
    pub name: String,
    pub source: Option<IpNet>,
    pub destination: IpNet,
}

/// Whether a list shows the names and networks of named rules.
pub open spec fn shows_named(list: Seq<NamedBinding>, rules: Seq<Named>) -> bool {
    &&& list.len() == rules.len()
    &&& forall|i: int|
        0 <= i < list.len() ==> (#[trigger] list[i]).name@ == rules[i].0 && optional_network(
            list[i].source,
        ) == rules[i].1.source && list[i].destination@ == rules[i].1.destination
            && list[i].destination@.printable() && (list[i].source matches Some(source)
            ==> source@.printable())
}

fn list_named(selectors: &Vec<ResolvedSelector>) -> (r: Vec<NamedBinding>)
    requires
        selectors_printable(selectors@),
    ensures
        shows_named(r@, named_rules(relations_of(selectors@), selectors@.len())),
{
    let ghost relations = relations_of(selectors@);
    let mut out: Vec<NamedBinding> = Vec::new();
    let mut index: usize = 0;
    while index < selectors.len()
        invariant
            index <= selectors@.len(),
            relations == relations_of(selectors@),
            selectors_printable(selectors@),
            shows_named(out@, named_rules(relations, index as nat)),
        decreases selectors@.len() - index,
    {
        let selector = &selectors[index];
        let ghost before = named_rules(relations, index as nat);
        let ghost relation = relations[index as int];
        assert(relation == selector@);
        let ghost added = relation.rules.map_values(|binding: Binding| (relation.name, binding));
        assert(rules_printable(selectors@[index as int].rules@));
        let mut k: usize = 0;
        while k < selector.rules.len()
            invariant
                k <= selector.rules@.len(),
                relation == selector@,
                rules_printable(selector.rules@),
                added == relation.rules.map_values(|binding: Binding| (relation.name, binding)),
                shows_named(out@, before + added.take(k as int)),
            decreases selector.rules@.len() - k,
        {
            assert(relation.rules[k as int] == selector.rules@[k as int]@);
            out.push(
                NamedBinding {
                    name: selector.name.clone(),
                    source: selector.rules[k].source,
                    destination: selector.rules[k].destination,
                },
            );
            assert(before + added.take(k + 1) =~= (before + added.take(k as int)).push(
                added[k as int],
            ));
            k += 1;
        }
        assert(added.take(added.len() as int) =~= added);
        assert(added.len() == selector.rules@.len());
        index += 1;
    }
    out
}

/// Whether two networks have the same prefix, whatever bits stand behind it.
pub open spec fn same_prefix(left: Network, right: Network) -> bool {
    left.truncated() == right.truncated()
}

/// Whether two sources cover the same packets: both name none, both name
/// networks of one prefix, or one names none and the other a network of no
/// bits.
pub open spec fn same_source_key(left: Option<Network>, right: Option<Network>) -> bool {
    match (left, right) {
        (None, None) => true,
        (Some(a), Some(b)) => same_prefix(a, b),
        (None, Some(network)) => network.prefix_len == 0,
        (Some(network), None) => network.prefix_len == 0,
    }
}

/// Whether two networks have an address in common.
pub open spec fn overlap(left: Network, right: Network) -> bool {
    left.v4 == right.v4 && (left.covers(right.address()) || right.covers(left.address()))
}

/// Whether two sources have an address in common.
pub open spec fn sources_meet(left: Option<Network>, right: Option<Network>) -> bool {
    match (left, right) {
        (Some(a), Some(b)) => overlap(a, b),
        _ => true,
    }
}

fn prefixes_match(left: &IpNet, right: &IpNet) -> (r: bool)
    ensures
        r == same_prefix(left@, right@),
{
    left.trunc().same(&right.trunc())
}

fn source_keys_match(left: &Option<IpNet>, right: &Option<IpNet>) -> (r: bool)
    ensures
        r == same_source_key(optional_network(*left), optional_network(*right)),
{
    match (left, right) {
        (None, None) => true,
        (Some(a), Some(b)) => prefixes_match(a, b),
        (None, Some(network)) => network.prefix_len == 0,
        (Some(network), None) => network.prefix_len == 0,
    }
}

fn networks_overlap(left: &IpNet, right: &IpNet) -> (r: bool)
    ensures
        r == overlap(left@, right@),
{
    left.is_ipv4() == right.is_ipv4() && (left.contains(&right.addr) || right.contains(&left.addr))
}

fn sources_overlap(left: &Option<IpNet>, right: &Option<IpNet>) -> (r: bool)
    ensures
        r == sources_meet(optional_network(*left), optional_network(*right)),
{
    match (left, right) {
        (Some(a), Some(b)) => networks_overlap(a, b),
        _ => true,
    }
}

/// Whether two rules would take the same place in the rule table.
pub open spec fn collide(left: Binding, right: Binding) -> bool {
    same_prefix(left.destination, right.destination) && same_source_key(left.source, right.source)
}

/// The complaint about the first pair of rules that would take the same place,
/// from the pair (`left`, `right`) on; later rules are held against all before
/// them.
pub open spec fn collision_error(rules: Seq<Named>, right: int, left: int) -> Option<Seq<char>>
    decreases rules.len() - right, right - left,
{
    if right >= rules.len() {
        None
    } else if left >= right {
        collision_error(rules, right + 1, 0)
    } else if collide(rules[left].1, rules[right].1) {
        Some(
            "selectors "@ + rules[left].0 + " and "@ + rules[right].0
                + " resolve to the same destination/source prefix; protocol and port do not participate in dataplane precedence"@,
        )
    } else {
        collision_error(rules, right, left + 1)
    }
}

/// How a source is called in explanations.
pub open spec fn source_name(source: Option<Network>) -> Seq<char> {
    match source {
        Some(network) => network.text(),
        None => "catch-all"@,
    }
}

/// What is to be said about two rules that overlap: the longer destination
/// wins before sources are looked at; under one destination prefix the longer
/// source wins. Of equally long ones the later is named.
pub open spec fn note(left: Named, right: Named) -> Option<Seq<char>> {
    if !overlap(left.1.destination, right.1.destination) {
        None
    } else if !same_prefix(left.1.destination, right.1.destination) {
        let winner = if left.1.destination.prefix_len > right.1.destination.prefix_len {
            left
        } else {
            right
        };
        Some(
            "selector "@ + winner.0 + " destination "@ + winner.1.destination.text()
                + " wins inside its prefix before source selection; a protocol/port miss does not fall back to the less-specific destination"@,
        )
    } else if !sources_meet(left.1.source, right.1.source) {
        None
    } else {
        let winner = if source_prefix_of(left.1.source) > source_prefix_of(right.1.source) {
            left
        } else {
            right
        };
        Some(
            "selector "@ + winner.0 + " source "@ + source_name(winner.1.source)
                + " wins for destination "@ + winner.1.destination.text()
                + "; a protocol/port miss does not fall back to the less-specific source"@,
        )
    }
}

/// The notes on all pairs from (`left`, `right`) on, ordered and each once.
pub open spec fn notes_from(
    rules: Seq<Named>,
    right: int,
    left: int,
    notes: Seq<Seq<char>>,
) -> Seq<Seq<char>>
    decreases rules.len() - right, right - left,
{
    if right >= rules.len() {
        notes
    } else if left >= right {
        notes_from(rules, right + 1, 0, notes)
    } else {
        notes_from(
            rules,
            right,
            left + 1,
            match note(rules[left], rules[right]) {
                Some(text) => with_text(notes, text),
                None => notes,
            },
        )
    }
}

/// What is to be said about the rules of the relations, or why they cannot be
/// in force together.
pub open spec fn selection_notes(relations: Seq<Relation>) -> Result<Seq<Seq<char>>, Seq<char>> {
    let rules = named_rules(relations, relations.len());
    if rules.len() > MAX_RULES {
        Err("experiment produces more than "@ + digits(MAX_RULES as nat) + " concrete rules"@)
    } else {
        match collision_error(rules, 0, 0) {
            Some(error) => Err(error),
            None => Ok(notes_from(rules, 0, 0, Seq::empty())),
        }
    }
}

fn write_note(left: &NamedBinding, right: &NamedBinding, Ghost(a): Ghost<Named>, Ghost(b): Ghost<
    Named,
>) -> (r: Option<String>)
    requires
        shows_named(seq![*left, *right], seq![a, b]),
    ensures
        match (r, note(a, b)) {
            (Some(text), Some(wanted)) => text@ == wanted,
            (None, None) => true,
            _ => false,
        },
{
    assert(seq![*left, *right][0] == *left && seq![*left, *right][1] == *right);
    assert(seq![a, b][0] == a && seq![a, b][1] == b);
    if !networks_overlap(&left.destination, &right.destination) {
        return None;
    }
    if !prefixes_match(&left.destination, &right.destination) {
        let winner = if left.destination.prefix_len > right.destination.prefix_len {
            left
        } else {
            right
        };
        let mut text = "selector ".to_owned();
        text.append(winner.name.as_str());
        text.append(" destination ");
        text.append(winner.destination.to_text().as_str());
        text.append(
            " wins inside its prefix before source selection; a protocol/port miss does not fall back to the less-specific destination",
        );
        return Some(text);
    }
    if !sources_overlap(&left.source, &right.source) {
        return None;
    }
    let left_len: u8 = match &left.source {
        Some(network) => network.prefix_len,
        None => 0,
    };
    let right_len: u8 = match &right.source {
        Some(network) => network.prefix_len,
        None => 0,
    };
    let winner = if left_len > right_len {
        left
    } else {
        right
    };
    let mut text = "selector ".to_owned();
    text.append(winner.name.as_str());
    text.append(" source ");
    match &winner.source {
        Some(network) => {
            text.append(network.to_text().as_str());
        },
        None => {
            text.append("catch-all");
        },
    }
    text.append(" wins for destination ");
    text.append(winner.destination.to_text().as_str());
    text.append("; a protocol/port miss does not fall back to the less-specific source");
    Some(text)
}

/// Rejects rules that would take the same place in the rule table, and
/// explains which of overlapping rules win.
pub fn validate_resolved_bindings(selectors: &Vec<ResolvedSelector>) -> (r: Result<
    Vec<String>,
    String,
>)
    requires
        selectors_printable(selectors@),
    ensures
        match (r, selection_notes(relations_of(selectors@))) {
            (Ok(notes), Ok(wanted)) => texts(notes@) == wanted,
            (Err(message), Err(wanted)) => message@ == wanted,
            _ => false,
        },
{
    let bindings = list_named(selectors);
    let ghost rules = named_rules(relations_of(selectors@), selectors@.len());
    if bindings.len() > MAX_RULES as usize {
        let mut message = "experiment produces more than ".to_owned();
        message.append(decimal(MAX_RULES as u64).as_str());
        message.append(" concrete rules");
        return Err(message);
    }
    match find_collision(&bindings, Ghost(rules)) {
        Some(message) => return Err(message),
        None => {},
    }
    Ok(collect_notes(&bindings, Ghost(rules)))
}

fn find_collision(bindings: &Vec<NamedBinding>, Ghost(rules): Ghost<Seq<Named>>) -> (r: Option<
    String,
>)
    requires
        shows_named(bindings@, rules),
    ensures
        match (r, collision_error(rules, 0, 0)) {
            (Some(message), Some(wanted)) => message@ == wanted,
            (None, None) => true,
            _ => false,
        },
{
    let mut right: usize = 0;
    while right < bindings.len()
        invariant
            right <= bindings@.len(),
            shows_named(bindings@, rules),
            collision_error(rules, 0, 0) == collision_error(rules, right as int, 0),
        decreases bindings@.len() - right,
    {
        let mut left: usize = 0;
        while left < right
            invariant
                left <= right < bindings@.len(),
                shows_named(bindings@, rules),
                collision_error(rules, 0, 0) == collision_error(rules, right as int, left as int),
            decreases right - left,
        {
            assert(bindings@[left as int].name@ == rules[left as int].0);
            assert(bindings@[right as int].name@ == rules[right as int].0);
            if prefixes_match(
                &bindings[left].destination,
                &bindings[right].destination,
            ) && source_keys_match(
                &bindings[left].source,
                &bindings[right].source,
            ) {
                let mut message = "selectors ".to_owned();
                message.append(bindings[left].name.as_str());
                message.append(" and ");
                message.append(bindings[right].name.as_str());
                message.append(
                    " resolve to the same destination/source prefix; protocol and port do not participate in dataplane precedence",
                );
                return Some(message);
            }
            left += 1;
        }
        right += 1;
    }
    None
}

fn collect_notes(bindings: &Vec<NamedBinding>, Ghost(rules): Ghost<Seq<Named>>) -> (r: Vec<String>)
    requires
        shows_named(bindings@, rules),
    ensures
        texts(r@) == notes_from(rules, 0, 0, Seq::empty()),
{
    let mut notes: Vec<String> = Vec::new();
    assert(texts(notes@) =~= Seq::<Seq<char>>::empty());
    let mut right: usize = 0;
    while right < bindings.len()
        invariant
            right <= bindings@.len(),
            shows_named(bindings@, rules),
            notes_from(rules, 0, 0, Seq::empty()) == notes_from(
                rules,
                right as int,
                0,
                texts(notes@),
            ),
        decreases bindings@.len() - right,
    {
        let mut left: usize = 0;
        while left < right
            invariant
                left <= right < bindings@.len(),
                shows_named(bindings@, rules),
                notes_from(rules, 0, 0, Seq::empty()) == notes_from(
                    rules,
                    right as int,
                    left as int,
                    texts(notes@),
                ),
            decreases right - left,
        {
            let ghost a = rules[left as int];
            let ghost b = rules[right as int];
            assert(shows_named(
                seq![bindings@[left as int], bindings@[right as int]],
                seq![a, b],
            )) by {
                assert(bindings@[left as int].name@ == rules[left as int].0);
                assert(bindings@[right as int].name@ == rules[right as int].0);
            }
            if let Some(text) = write_note(&bindings[left], &bindings[right], Ghost(a), Ghost(b)) {
                add_text(&mut notes, text);
            }
            left += 1;
        }
        right += 1;
    }
    notes
}

// ---------------------------------------------------------------------------
// Laws
// ---------------------------------------------------------------------------
/// The first place from `from` on where two sequences differ.
spec fn first_difference(left: Seq<u8>, right: Seq<u8>, from: int) -> int
    decreases left.len() - from,
{
    if from >= left.len() || left[from] != right[from] {
        from
    } else {
        first_difference(left, right, from + 1)
    }
}

proof fn difference_is_first(left: Seq<u8>, right: Seq<u8>, from: int)
    requires
        left.len() == right.len(),
        0 <= from <= left.len(),
        left.take(from) == right.take(from),
    ensures
        from <= first_difference(left, right, from) <= left.len(),
        left.take(first_difference(left, right, from)) == right.take(
            first_difference(left, right, from),
        ),
        first_difference(left, right, from) < left.len() ==> left[first_difference(
            left,
            right,
            from,
        )] != right[first_difference(left, right, from)],
    decreases left.len() - from,
{
    if from < left.len() && left[from] == right[from] {
        assert(left.take(from + 1) =~= left.take(from).push(left[from]));
        assert(right.take(from + 1) =~= right.take(from).push(right[from]));
        difference_is_first(left, right, from + 1);
    }
}

proof fn bytes_are_ordered(left: Seq<u8>, right: Seq<u8>)
    requires
        left.len() == right.len(),
    ensures
        left == right ==> !bytes_before(left, right),
        left != right ==> (bytes_before(left, right) <==> !bytes_before(right, left)),
{
    assert(left.take(0) =~= right.take(0));
    difference_is_first(left, right, 0);
    let at = first_difference(left, right, 0);
    if left == right {
        if bytes_before(left, right) {
            let i = choose|i: int|
                0 <= i < left.len() && i < right.len() && left[i] < right[i] && left.take(i)
                    == #[trigger] right.take(i);
        }
    } else {
        if at == left.len() {
            assert(left.take(at) =~= left);
            assert(right.take(at) =~= right);
        }
        if left[at] < right[at] {
            assert(left.take(at) == right.take(at));
            assert(bytes_before(left, right));
            if bytes_before(right, left) {
                let i = choose|i: int|
                    0 <= i < right.len() && i < left.len() && right[i] < left[i] && right.take(i)
                        == #[trigger] left.take(i);
                if i < at {
                    assert(left.take(at)[i] == right.take(at)[i]);
                } else if at < i {
                    assert(left.take(i)[at] == right.take(i)[at]);
                }
            }
        } else {
            assert(right.take(at) == left.take(at));
            assert(bytes_before(right, left));
            if bytes_before(left, right) {
                let i = choose|i: int|
                    0 <= i < left.len() && i < right.len() && left[i] < right[i] && left.take(i)
                        == #[trigger] right.take(i);
                if i < at {
                    assert(left.take(at)[i] == right.take(at)[i]);
                } else if at < i {
                    assert(left.take(i)[at] == right.take(i)[at]);
                }
            }
        }
    }
}

proof fn bytes_are_transitive(a: Seq<u8>, b: Seq<u8>, c: Seq<u8>)
    requires
        a.len() == b.len() == c.len(),
        bytes_before(a, b),
        bytes_before(b, c),
    ensures
        bytes_before(a, c),
{
    let i = choose|i: int|
        0 <= i < a.len() && i < b.len() && a[i] < b[i] && a.take(i) == #[trigger] b.take(i);
    let j = choose|j: int|
        0 <= j < b.len() && j < c.len() && b[j] < c[j] && b.take(j) == #[trigger] c.take(j);
    let k = if i < j {
        i
    } else {
        j
    };
    assert(a.take(k) =~= a.take(i).take(k));
    assert(b.take(k) =~= b.take(i).take(k));
    assert(b.take(k) =~= b.take(j).take(k));
    assert(c.take(k) =~= c.take(j).take(k));
    assert(a.take(k) == c.take(k));
    if i < j {
        assert(b.take(j)[i] == c.take(j)[i]);
    } else if j < i {
        assert(a.take(i)[j] == b.take(i)[j]);
    }
    assert(a[k] < c[k]);
}

/// Networks are ordered totally: of two different ones exactly one comes
/// first.
pub proof fn networks_are_ordered(left: Network, right: Network)
    requires
        left.octets.len() == right.octets.len(),
    ensures
        left == right ==> !left.before(right),
        left != right ==> (left.before(right) <==> !right.before(left)),
{
    bytes_are_ordered(left.octets, right.octets);
}

/// Of three networks that stand in order, the first stands before the last.
pub proof fn order_is_transitive(a: Network, b: Network, c: Network)
    requires
        a.octets.len() == b.octets.len() == c.octets.len(),
        a.before(b),
        b.before(c),
    ensures
        a.before(c),
{
    if a.v4 == b.v4 && b.v4 == c.v4 {
        bytes_are_ordered(a.octets, c.octets);
        if a.octets != b.octets && b.octets != c.octets {
            bytes_are_transitive(a.octets, b.octets, c.octets);
            bytes_are_ordered(a.octets, a.octets);
        }
    }
}

proof fn slot_fits(list: Seq<Network>, network: Network, from: int)
    requires
        0 <= from <= list.len(),
    ensures
        from <= slot(list, network, from) <= list.len(),
        forall|i: int|
            from <= i < slot(list, network, from) ==> (#[trigger] list[i]) != network
                && !network.before(list[i]),
        slot(list, network, from) < list.len() ==> list[slot(list, network, from)] == network
            || network.before(list[slot(list, network, from)]),
    decreases list.len() - from,
{
    if from < list.len() && list[from] != network && !network.before(list[from]) {
        slot_fits(list, network, from + 1);
    }
}

/// Whether networks are in their order, none of them twice.
pub open spec fn networks_ascend(list: Seq<Network>) -> bool {
    forall|i: int, j: int|
        0 <= i < j < list.len() ==> (#[trigger] list[i]).before(#[trigger] list[j])
}

/// Whether a network is in a list.
pub open spec fn lists_network(list: Seq<Network>, network: Network) -> bool {
    exists|i: int| 0 <= i < list.len() && #[trigger] list[i] == network
}

proof fn with_network_keeps_order(list: Seq<Network>, network: Network)
    requires
        networks_ascend(list),
        network.octets.len() == 16,
        forall|i: int| 0 <= i < list.len() ==> (#[trigger] list[i]).octets.len() == 16,
    ensures
        networks_ascend(with_network(list, network)),
        forall|i: int|
            0 <= i < with_network(list, network).len() ==> (#[trigger] with_network(
                list,
                network,
            )[i]).octets.len() == 16,
        forall|other: Network|
            #[trigger] lists_network(with_network(list, network), other) <==> lists_network(
                list,
                other,
            ) || other == network,
{
    let at = slot(list, network, 0);
    slot_fits(list, network, 0);
    let grown = with_network(list, network);
    if at < list.len() && list[at] == network {
        assert(grown == list);
        assert(lists_network(list, network));
    } else {
        assert forall|i: int, j: int| 0 <= i < j < grown.len() implies (
        #[trigger] grown[i]).before(#[trigger] grown[j]) by {
            if i < at && j == at {
                networks_are_ordered(list[i], network);
            } else if i == at && j > at {
                if j - 1 > at {
                    order_is_transitive(network, list[at], list[j - 1]);
                }
            } else {
                let a = if i < at {
                    i
                } else {
                    i - 1
                };
                let b = if j < at {
                    j
                } else {
                    j - 1
                };
                assert(grown[i] == list[a] && grown[j] == list[b]);
            }
        }
        assert(grown[at] == network);
        assert forall|other: Network| #[trigger] lists_network(grown, other) <==> lists_network(
            list,
            other,
        ) || other == network by {
            if lists_network(list, other) {
                let i = choose|i: int| 0 <= i < list.len() && #[trigger] list[i] == other;
                if i < at {
                    assert(grown[i] == other);
                } else {
                    assert(grown[i + 1] == other);
                }
            }
            if lists_network(grown, other) {
                let i = choose|i: int| 0 <= i < grown.len() && #[trigger] grown[i] == other;
                if i < at {
                    assert(list[i] == other);
                } else if i > at {
                    assert(list[i - 1] == other);
                }
            }
        }
        assert forall|i: int| 0 <= i < grown.len() implies (
        #[trigger] grown[i]).octets.len() == 16 by {
            if i < at {
                assert(grown[i] == list[i]);
            } else if i > at {
                assert(grown[i] == list[i - 1]);
            }
        }
    }
}

/// Every address that a resolver gave is among the networks of a destination,
/// once, and there is no other.
pub proof fn snapshots_list_each_host_once(addresses: Seq<Address>, n: nat)
    requires
        n <= addresses.len(),
        forall|i: int| 0 <= i < addresses.len() ==> (#[trigger] addresses[i]).octets.len() == 16,
    ensures
        networks_ascend(snapshot(addresses, n)),
        forall|i: int|
            0 <= i < n ==> lists_network(
                snapshot(addresses, n),
                IpNet::host_of(#[trigger] addresses[i]),
            ),
        forall|network: Network|
            #[trigger] lists_network(snapshot(addresses, n), network) ==> exists|i: int|
                0 <= i < n && IpNet::host_of(#[trigger] addresses[i]) == network,
        forall|i: int|
            0 <= i < snapshot(addresses, n).len() ==> (#[trigger] snapshot(
                addresses,
                n,
            )[i]).octets.len() == 16,
    decreases n,
{
    if n > 0 {
        let m = (n - 1) as nat;
        snapshots_list_each_host_once(addresses, m);
        let before = snapshot(addresses, m);
        let host = IpNet::host_of(addresses[m as int]);
        with_network_keeps_order(before, host);
        assert forall|i: int| 0 <= i < n implies lists_network(
            snapshot(addresses, n),
            IpNet::host_of(#[trigger] addresses[i]),
        ) by {
            if i < m {
                assert(lists_network(before, IpNet::host_of(addresses[i])));
            }
            assert(lists_network(with_network(before, host), IpNet::host_of(addresses[i])));
        }
        assert forall|network: Network|
            #[trigger] lists_network(snapshot(addresses, n), network) implies exists|i: int|
            0 <= i < n && IpNet::host_of(#[trigger] addresses[i]) == network by {
            if network == host {
                assert(IpNet::host_of(addresses[m as int]) == network);
            } else {
                assert(lists_network(before, network));
                let i = choose|i: int|
                    0 <= i < m && IpNet::host_of(#[trigger] addresses[i]) == network;
                assert(IpNet::host_of(addresses[i]) == network);
            }
        }
    }
}

proof fn notes_ascend(rules: Seq<Named>, right: int, left: int, notes: Seq<Seq<char>>)
    requires
        ascending(notes),
    ensures
        ascending(notes_from(rules, right, left, notes)),
    decreases rules.len() - right, right - left,
{
    if right < rules.len() {
        if left >= right {
            notes_ascend(rules, right + 1, 0, notes);
        } else {
            match note(rules[left], rules[right]) {
                Some(text) => {
                    with_text_keeps_order(notes, text);
                    notes_ascend(rules, right, left + 1, with_text(notes, text));
                },
                None => {
                    notes_ascend(rules, right, left + 1, notes);
                },
            }
        }
    }
}

/// The notes on a plan are in order, and none is there twice.
pub proof fn selection_notes_ascend(relations: Seq<Relation>)
    requires
        selection_notes(relations) is Ok,
    ensures
        ascending(selection_notes(relations)->Ok_0),
{
    notes_ascend(named_rules(relations, relations.len()), 0, 0, Seq::empty());
}

proof fn no_collision_from(rules: Seq<Named>, right: int, left: int, a: int, b: int)
    requires
        collision_error(rules, right, left) is None,
        0 <= left,
        0 <= a < b < rules.len(),
        right < b || (right == b && left <= a),
        left <= right,
        0 <= right,
    ensures
        !collide(rules[a].1, rules[b].1),
    decreases rules.len() - right, right - left,
{
    if left >= right {
        no_collision_from(rules, right + 1, 0, a, b);
    } else if !(right == b && left == a) {
        no_collision_from(rules, right, left + 1, a, b);
    }
}

/// No two rules of a plan would take the same place in the rule table, however
/// their protocols and ports differ.
pub proof fn planned_rules_stay_apart(relations: Seq<Relation>, a: int, b: int)
    requires
        selection_notes(relations) is Ok,
        0 <= a < b < named_rules(relations, relations.len()).len(),
    ensures
        !collide(
            named_rules(relations, relations.len())[a].1,
            named_rules(relations, relations.len())[b].1,
        ),
{
    no_collision_from(named_rules(relations, relations.len()), 0, 0, a, b);
}

} // verus!
