//! Whether rules, timelines and relations are equal.

use vstd::prelude::*;
use vstd::string::*;
use crate::net::IpNet;
use crate::protocol::{
    changes_of, optional_network, rules_of, RuleSpec, Timeline, TimelineEvent,
};
use crate::selection::{
    bindings_of, networks_of, relations_of, ResolvedDestination, ResolvedRuleBinding,
    ResolvedSelector,
};
use crate::text::same_text;
use crate::workload_spec::same_optional_text;

verus! {

/// Whether two optional networks are equal.
pub fn same_networks(left: &Option<IpNet>, right: &Option<IpNet>) -> (r: bool)
    ensures
        r == (optional_network(*left) == optional_network(*right)),
{
    match (left, right) {
        (Some(a), Some(b)) => a.same(b),
        (None, None) => true,
        _ => false,
    }
}

/// Whether two rules are equal.
pub fn same_rule(left: &RuleSpec, right: &RuleSpec) -> (r: bool)
    ensures
        r == (left@ == right@),
{
    left.id == right.id && same_networks(&left.source, &right.source) && left.destination.same(
        &right.destination,
    ) && left.protocol == right.protocol && left.loss_algorithm == right.loss_algorithm
        && left.destination_port == right.destination_port && left.drop_permyriad
        == right.drop_permyriad && left.ge_enter_permyriad == right.ge_enter_permyriad
        && left.ge_recover_permyriad == right.ge_recover_permyriad && left.ge_good_loss_permyriad
        == right.ge_good_loss_permyriad && left.ge_bad_loss_permyriad
        == right.ge_bad_loss_permyriad && left.ge_idle_reset_secs == right.ge_idle_reset_secs
        && left.duplicate_permyriad == right.duplicate_permyriad && left.reorder_permyriad
        == right.reorder_permyriad && left.delay_ns == right.delay_ns && left.jitter_ns
        == right.jitter_ns && left.bandwidth_bps == right.bandwidth_bps && left.seed == right.seed
}

/// Whether two lists of rules are equal.
pub fn same_rules(left: &Vec<RuleSpec>, right: &Vec<RuleSpec>) -> (r: bool)
    ensures
        r == (rules_of(left@) == rules_of(right@)),
{
    let ghost a = rules_of(left@);
    let ghost b = rules_of(right@);
    if left.len() != right.len() {
        assert(a.len() != b.len());
        return false;
    }
    let mut index: usize = 0;
    while index < left.len()
        invariant
            index <= left@.len(),
            left@.len() == right@.len(),
            a == rules_of(left@),
            b == rules_of(right@),
            forall|i: int| 0 <= i < index ==> #[trigger] a[i] == b[i],
        decreases left@.len() - index,
    {
        assert(a[index as int] == left@[index as int]@);
        assert(b[index as int] == right@[index as int]@);
        if !same_rule(&left[index], &right[index]) {
            return false;
        }
        index += 1;
    }
    assert(a =~= b);
    true
}

/// Whether two lists of events are equal.
pub fn same_events(left: &Vec<TimelineEvent>, right: &Vec<TimelineEvent>) -> (r: bool)
    ensures
        r == (changes_of(left@) == changes_of(right@)),
{
    let ghost a = changes_of(left@);
    let ghost b = changes_of(right@);
    if left.len() != right.len() {
        assert(a.len() != b.len());
        return false;
    }
    let mut index: usize = 0;
    while index < left.len()
        invariant
            index <= left@.len(),
            left@.len() == right@.len(),
            a == changes_of(left@),
            b == changes_of(right@),
            forall|i: int| 0 <= i < index ==> #[trigger] a[i] == b[i],
        decreases left@.len() - index,
    {
        assert(a[index as int] == left@[index as int]@);
        assert(b[index as int] == right@[index as int]@);
        if left[index].at_ms != right[index].at_ms || !same_rules(
            &left[index].rules,
            &right[index].rules,
        ) {
            return false;
        }
        index += 1;
    }
    assert(a =~= b);
    true
}

/// Whether two timelines are equal.
pub fn same_timelines(left: &Timeline, right: &Timeline) -> (r: bool)
    ensures
        r == (left@ == right@),
{
    left.version == right.version && left.kind == right.kind && same_optional_text(
        &left.name,
        &right.name,
    ) && same_optional_text(&left.target, &right.target) && left.duration_ms == right.duration_ms
        && same_events(&left.events, &right.events)
}

fn same_network_lists(left: &Vec<IpNet>, right: &Vec<IpNet>) -> (r: bool)
    ensures
        r == (networks_of(left@) == networks_of(right@)),
{
    let ghost a = networks_of(left@);
    let ghost b = networks_of(right@);
    if left.len() != right.len() {
        assert(a.len() != b.len());
        return false;
    }
    let mut index: usize = 0;
    while index < left.len()
        invariant
            index <= left@.len(),
            left@.len() == right@.len(),
            a == networks_of(left@),
            b == networks_of(right@),
            forall|i: int| 0 <= i < index ==> #[trigger] a[i] == b[i],
        decreases left@.len() - index,
    {
        assert(a[index as int] == left@[index as int]@);
        assert(b[index as int] == right@[index as int]@);
        if !left[index].same(&right[index]) {
            return false;
        }
        index += 1;
    }
    assert(a =~= b);
    true
}

fn same_ports(left: Option<u16>, right: Option<u16>) -> (r: bool)
    ensures
        r == (left == right),
{
    match (left, right) {
        (Some(a), Some(b)) => a == b,
        (None, None) => true,
        _ => false,
    }
}

fn same_binding(left: &ResolvedRuleBinding, right: &ResolvedRuleBinding) -> (r: bool)
    ensures
        r == (left@ == right@),
{
    left.rule_id == right.rule_id && same_networks(&left.source, &right.source)
        && left.destination.same(&right.destination) && left.protocol == right.protocol
        && same_ports(left.port, right.port) && same_text(
        left.precedence.as_str(),
        right.precedence.as_str(),
    )
}

fn same_bindings(left: &Vec<ResolvedRuleBinding>, right: &Vec<ResolvedRuleBinding>) -> (r: bool)
    ensures
        r == (bindings_of(left@) == bindings_of(right@)),
{
    let ghost a = bindings_of(left@);
    let ghost b = bindings_of(right@);
    if left.len() != right.len() {
        assert(a.len() != b.len());
        return false;
    }
    let mut index: usize = 0;
    while index < left.len()
        invariant
            index <= left@.len(),
            left@.len() == right@.len(),
            a == bindings_of(left@),
            b == bindings_of(right@),
            forall|i: int| 0 <= i < index ==> #[trigger] a[i] == b[i],
        decreases left@.len() - index,
    {
        assert(a[index as int] == left@[index as int]@);
        assert(b[index as int] == right@[index as int]@);
        if !same_binding(&left[index], &right[index]) {
            return false;
        }
        index += 1;
    }
    assert(a =~= b);
    true
}

fn same_destination(left: &ResolvedDestination, right: &ResolvedDestination) -> (r: bool)
    ensures
        r == (left@ == right@),
{
    same_text(left.selector.as_str(), right.selector.as_str()) && same_network_lists(
        &left.networks,
        &right.networks,
    ) && left.protocol == right.protocol && same_ports(left.port, right.port) && left.resolution
        == right.resolution
}

fn same_selector(left: &ResolvedSelector, right: &ResolvedSelector) -> (r: bool)
    ensures
        r == (left@ == right@),
{
    same_text(left.name.as_str(), right.name.as_str()) && same_optional_text(
        &left.source_selector,
        &right.source_selector,
    ) && same_network_lists(&left.source_networks, &right.source_networks) && same_destination(
        &left.destination,
        &right.destination,
    ) && same_bindings(&left.rules, &right.rules)
}

/// Whether two lists of relations with their rules are equal.
pub fn same_selectors(left: &Vec<ResolvedSelector>, right: &Vec<ResolvedSelector>) -> (r: bool)
    ensures
        r == (relations_of(left@) == relations_of(right@)),
{
    let ghost a = relations_of(left@);
    let ghost b = relations_of(right@);
    if left.len() != right.len() {
        assert(a.len() != b.len());
        return false;
    }
    let mut index: usize = 0;
    while index < left.len()
        invariant
            index <= left@.len(),
            left@.len() == right@.len(),
            a == relations_of(left@),
            b == relations_of(right@),
            forall|i: int| 0 <= i < index ==> #[trigger] a[i] == b[i],
        decreases left@.len() - index,
    {
        assert(a[index as int] == left@[index as int]@);
        assert(b[index as int] == right@[index as int]@);
        if !same_selector(&left[index], &right[index]) {
            return false;
        }
        index += 1;
    }
    assert(a =~= b);
    true
}

} // verus!
