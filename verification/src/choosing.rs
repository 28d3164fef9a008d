//! Laws of precedence: which rules may stand side by side, and which of them
//! wins.

use vstd::prelude::*;
use crate::net::Network;
use crate::protocol::RuleSpec;
use crate::rule_store::{
    addressed, filed_under, group_index, group_index_finds, grouped, insertion_index, Group,
};
use crate::selection::{
    collide, collision_error, named_rules, networks_are_ordered, note, notes_from,
    order_is_transitive, overlap, precedence_text, same_prefix, selection_notes, Binding, Named,
    Pair, Relation,
};
use crate::text::digits;
use crate::words::{ascending, with_text, with_text_keeps_order};

verus! {

/// Two networks are the same prefix exactly when they are of one family and one
/// length and either covers the other's address.
pub proof fn prefixes_are_the_same_by_length_and_cover(left: Network, right: Network)
    ensures
        same_prefix(left, right) <==> left.prefix_len == right.prefix_len && left.covers(
            right.address(),
        ),
        same_prefix(left, right) <==> same_prefix(right, left),
        same_prefix(left, left),
{
}

/// Two networks overlap exactly when they are of one family and the wider one
/// covers the other's address; then some address is in both.
pub proof fn networks_overlap_by_cover(left: Network, right: Network)
    ensures
        overlap(left, right) <==> left.covers(right.address()) || right.covers(left.address()),
        overlap(left, right) <==> overlap(right, left),
        same_prefix(left, right) ==> overlap(left, right),
{
}

/// Two rules collide exactly when their destinations are the same prefix and so
/// are their sources, where one without a source stands beside one that covers
/// everything. Neither protocol nor port tells them apart.
pub proof fn rules_collide_by_their_prefixes(left: Binding, right: Binding)
    ensures
        collide(left, right) <==> same_prefix(left.destination, right.destination) && match (
            left.source,
            right.source,
        ) {
            (Some(a), Some(b)) => same_prefix(a, b),
            (Some(a), None) => a.prefix_len == 0,
            (None, Some(b)) => b.prefix_len == 0,
            (None, None) => true,
        },
        collide(left, right) <==> collide(right, left),
        forall|other: Binding|
            other.source == right.source && other.destination == right.destination ==> (
            #[trigger] collide(left, other) <==> collide(left, right)),
{
}

/// Whether two of some rules collide.
pub open spec fn some_collide(rules: Seq<Named>) -> bool {
    exists|a: int, b: int|
        0 <= a < b < rules.len() && collide((#[trigger] rules[a]).1, (#[trigger] rules[b]).1)
}

proof fn collisions_are_found(rules: Seq<Named>, right: int, left: int)
    requires
        0 <= left <= right,
    ensures
        collision_error(rules, right, left) is Some ==> some_collide(rules),
        collision_error(rules, right, left) is None ==> forall|a: int, b: int|
            0 <= a < b < rules.len() && (right < b || (right == b && left <= a)) ==> !collide(
                (#[trigger] rules[a]).1,
                (#[trigger] rules[b]).1,
            ),
    decreases rules.len() - right, right - left,
{
    if right < rules.len() {
        if left >= right {
            collisions_are_found(rules, right + 1, 0);
        } else if !collide(rules[left].1, rules[right].1) {
            collisions_are_found(rules, right, left + 1);
        }
    }
}

/// Relations can stand side by side exactly when they come to at most 1024 rules
/// and no two of those collide.
pub proof fn relations_stand_side_by_side(relations: Seq<Relation>)
    ensures
        selection_notes(relations) is Ok <==> named_rules(relations, relations.len()).len() <= 1024
            && !some_collide(named_rules(relations, relations.len())),
{
    let rules = named_rules(relations, relations.len());
    collisions_are_found(rules, 0, 0);
}

/// Whether a text notes something of two of the rules from a place on.
pub open spec fn noted_from(rules: Seq<Named>, right: int, left: int, text: Seq<char>) -> bool {
    exists|a: int, b: int|
        0 <= a < b < rules.len() && (right < b || (right == b && left <= a)) && note(
            #[trigger] rules[a],
            #[trigger] rules[b],
        ) == Some(text)
}

proof fn notes_tell_of_two_rules(
    rules: Seq<Named>,
    right: int,
    left: int,
    notes: Seq<Seq<char>>,
    text: Seq<char>,
)
    requires
        0 <= left <= right,
        ascending(notes),
    ensures
        notes_from(rules, right, left, notes).contains(text) <==> notes.contains(text)
            || noted_from(rules, right, left, text),
    decreases rules.len() - right, right - left,
{
    if right < rules.len() {
        if left >= right {
            notes_tell_of_two_rules(rules, right + 1, 0, notes, text);
            if noted_from(rules, right, left, text) {
                let (a, b) = choose|a: int, b: int|
                    0 <= a < b < rules.len() && (right < b || (right == b && left <= a)) && note(
                        #[trigger] rules[a],
                        #[trigger] rules[b],
                    ) == Some(text);
                assert(note(rules[a], rules[b]) == Some(text));
                assert(noted_from(rules, right + 1, 0, text));
            }
            if noted_from(rules, right + 1, 0, text) {
                let (a, b) = choose|a: int, b: int|
                    0 <= a < b < rules.len() && (right + 1 < b || (right + 1 == b && 0 <= a))
                        && note(#[trigger] rules[a], #[trigger] rules[b]) == Some(text);
                assert(note(rules[a], rules[b]) == Some(text));
                assert(noted_from(rules, right, left, text));
            }
        } else {
            let grown = match note(rules[left], rules[right]) {
                Some(told) => with_text(notes, told),
                None => notes,
            };
            if let Some(told) = note(rules[left], rules[right]) {
                with_text_keeps_order(notes, told);
            }
            notes_tell_of_two_rules(rules, right, left + 1, grown, text);
            if noted_from(rules, right, left, text) {
                let (a, b) = choose|a: int, b: int|
                    0 <= a < b < rules.len() && (right < b || (right == b && left <= a)) && note(
                        #[trigger] rules[a],
                        #[trigger] rules[b],
                    ) == Some(text);
                assert(note(rules[a], rules[b]) == Some(text));
                if !(a == left && b == right) {
                    assert(noted_from(rules, right, left + 1, text));
                }
            }
            if noted_from(rules, right, left + 1, text) {
                let (a, b) = choose|a: int, b: int|
                    0 <= a < b < rules.len() && (right < b || (right == b && left + 1 <= a))
                        && note(#[trigger] rules[a], #[trigger] rules[b]) == Some(text);
                assert(note(rules[a], rules[b]) == Some(text));
                assert(noted_from(rules, right, left, text));
            }
            if note(rules[left], rules[right]) == Some(text) {
                assert(noted_from(rules, right, left, text));
            }
        }
    }
}

/// What is noted of a plan is what there is to note of any two of its rules,
/// and nothing else.
pub proof fn notes_are_of_two_rules(relations: Seq<Relation>, text: Seq<char>)
    requires
        selection_notes(relations) is Ok,
    ensures
        selection_notes(relations)->Ok_0.contains(text) <==> exists|a: int, b: int|
            0 <= a < b < named_rules(relations, relations.len()).len() && note(
                #[trigger] named_rules(relations, relations.len())[a],
                #[trigger] named_rules(relations, relations.len())[b],
            ) == Some(text),
{
    let rules = named_rules(relations, relations.len());
    notes_tell_of_two_rules(rules, 0, 0, Seq::empty(), text);
    if exists|a: int, b: int|
        0 <= a < b < rules.len() && note(#[trigger] rules[a], #[trigger] rules[b]) == Some(text) {
        let (a, b) = choose|a: int, b: int|
            0 <= a < b < rules.len() && note(#[trigger] rules[a], #[trigger] rules[b]) == Some(
                text,
            );
        assert(noted_from(rules, 0, 0, text));
    }
    if noted_from(rules, 0, 0, text) {
        let (a, b) = choose|a: int, b: int|
            0 <= a < b < rules.len() && (0 < b || (0 == b && 0 <= a)) && note(
                #[trigger] rules[a],
                #[trigger] rules[b],
            ) == Some(text);
        assert(note(rules[a], rules[b]) == Some(text));
    }
}

/// Of two rules whose destinations overlap, the one with the longer destination
/// wins. Between rules for one destination the one with the longer source wins,
/// where their sources meet; rules that never meet have nothing to note.
pub proof fn the_longer_prefix_wins(left: Named, right: Named)
    ensures
        ({
            let a = left.1;
            let b = right.1;
            &&& !overlap(a.destination, b.destination) ==> note(left, right) is None
            &&& overlap(a.destination, b.destination) && a.destination.prefix_len
                > b.destination.prefix_len ==> note(left, right) == Some(
                "selector "@ + left.0 + " destination "@ + a.destination.text()
                    + " wins inside its prefix before source selection; a protocol/port miss does not fall back to the less-specific destination"@,
            )
            &&& overlap(a.destination, b.destination) && a.destination.prefix_len
                < b.destination.prefix_len ==> note(left, right) == Some(
                "selector "@ + right.0 + " destination "@ + b.destination.text()
                    + " wins inside its prefix before source selection; a protocol/port miss does not fall back to the less-specific destination"@,
            )
            &&& same_prefix(a.destination, b.destination) && overlap(a.destination, b.destination)
                ==> {
                &&& (a.source is Some && b.source is Some && !overlap(a.source->0, b.source->0))
                    ==> note(left, right) is None
                &&& (a.source is Some && b.source is None && a.source->0.prefix_len > 0) ==> note(
                    left,
                    right,
                ) == Some(
                    "selector "@ + left.0 + " source "@ + a.source->0.text()
                        + " wins for destination "@ + a.destination.text()
                        + "; a protocol/port miss does not fall back to the less-specific source"@,
                )
                &&& (b.source is Some && a.source is None) ==> note(left, right) == Some(
                    "selector "@ + right.0 + " source "@ + b.source->0.text()
                        + " wins for destination "@ + b.destination.text()
                        + "; a protocol/port miss does not fall back to the less-specific source"@,
                )
                &&& (a.source is Some && b.source is Some && overlap(a.source->0, b.source->0)
                    && a.source->0.prefix_len > b.source->0.prefix_len) ==> note(left, right)
                    == Some(
                    "selector "@ + left.0 + " source "@ + a.source->0.text()
                        + " wins for destination "@ + a.destination.text()
                        + "; a protocol/port miss does not fall back to the less-specific source"@,
                )
                &&& (a.source is Some && b.source is Some && overlap(a.source->0, b.source->0)
                    && a.source->0.prefix_len < b.source->0.prefix_len) ==> note(left, right)
                    == Some(
                    "selector "@ + right.0 + " source "@ + b.source->0.text()
                        + " wins for destination "@ + b.destination.text()
                        + "; a protocol/port miss does not fall back to the less-specific source"@,
                )
            }
        }),
{
}

/// The precedence of a rule is told by the lengths of its destination and of
/// its source, 0 without one.
pub proof fn precedence_is_told_by_lengths(pair: Pair)
    ensures
        pair.0 matches Some(source) ==> precedence_text(pair) == "destination /"@ + digits(
            pair.1.prefix_len as nat,
        ) + " then source /"@ + digits(source.prefix_len as nat)
            + "; protocol and port filter the selected rule"@,
        pair.0 is None ==> precedence_text(pair) == "destination /"@ + digits(
            pair.1.prefix_len as nat,
        ) + " then source /"@ + digits(0) + "; protocol and port filter the selected rule"@,
{
}

/// Networks are in order by family, the shorter one first, then by address and
/// then by length. Those of the first family are written as four numbers with
/// points between them and their length behind a slash.
pub proof fn networks_are_ordered_and_written(left: Network, right: Network)
    ensures
        left.v4 && !right.v4 ==> left.before(right) && !right.before(left),
        left.v4 == right.v4 && left.octets == right.octets ==> (left.before(right)
            <==> left.prefix_len < right.prefix_len),
        left.v4 == right.v4 && left.octets.len() > 0 && right.octets.len() > 0 && left.octets[0]
            < right.octets[0] ==> left.before(right),
        left.v4 == right.v4 && left.octets.len() > 0 && right.octets.len() > 0 && left.octets[0]
            > right.octets[0] ==> !left.before(right),
        left.v4 ==> left.text() == digits(left.octets[0] as nat) + "."@ + digits(
            left.octets[1] as nat,
        ) + "."@ + digits(left.octets[2] as nat) + "."@ + digits(left.octets[3] as nat) + "/"@
            + digits(left.prefix_len as nat),
        left.printable() <==> left.v4 || left.prefix_len <= 128,
{
    if left.v4 == right.v4 && left.octets.len() > 0 && right.octets.len() > 0 {
        if left.octets[0] < right.octets[0] {
            assert(left.octets.take(0) =~= right.octets.take(0));
            assert(left.octets.take(0) == right.octets.take(0));
        } else if left.octets[0] > right.octets[0] {
            assert forall|i: int|
                0 <= i < left.octets.len() && i < right.octets.len() && left.octets[i]
                    < right.octets[i] implies left.octets.take(i) != #[trigger] right.octets.take(
                i,
            ) by {
                if i > 0 {
                    assert(left.octets.take(i)[0] == left.octets[0]);
                    assert(right.octets.take(i)[0] == right.octets[0]);
                }
            }
        }
    }
}

/// Whether groups stand in the order of their networks.
pub open spec fn groups_ascend(groups: Seq<Group>) -> bool {
    forall|g: int, h: int|
        0 <= g < h < groups.len() ==> (#[trigger] groups[g]).network.before(
            (#[trigger] groups[h]).network,
        )
}

proof fn insertion_stands_between(groups: Seq<Group>, network: Network, from: int)
    requires
        0 <= from <= groups.len(),
    ensures
        from <= insertion_index(groups, network, from) <= groups.len(),
        forall|i: int|
            from <= i < insertion_index(groups, network, from) ==> !network.before(
                (#[trigger] groups[i]).network,
            ),
        insertion_index(groups, network, from) < groups.len() ==> network.before(
            groups[insertion_index(groups, network, from)].network,
        ),
    decreases groups.len() - from,
{
    if from < groups.len() && !network.before(groups[from].network) {
        insertion_stands_between(groups, network, from + 1);
    }
}

/// The destinations of rules are numbered in the order of their networks,
/// whatever the order of the rules.
pub proof fn destinations_are_numbered_in_order(specs: Seq<RuleSpec>, n: nat)
    requires
        n <= specs.len(),
        forall|i: int| 0 <= i < specs.len() ==> addressed(#[trigger] specs[i]),
    ensures
        groups_ascend(grouped(specs, n)),
        forall|g: int|
            0 <= g < grouped(specs, n).len() ==> (#[trigger] grouped(
                specs,
                n,
            )[g]).network.octets.len() == 16,
    decreases n,
{
    if n > 0 {
        let m = (n - 1) as nat;
        destinations_are_numbered_in_order(specs, m);
        assert(addressed(specs[m as int]));
        let before = grouped(specs, m);
        let after = grouped(specs, n);
        let network = filed_under(specs[m as int]);
        assert(network.octets.len() == 16);
        group_index_finds(before, network, 0);
        match group_index(before, network, 0) {
            Some(at) => {
                assert forall|g: int| 0 <= g < after.len() implies (#[trigger] after[g]).network
                    == before[g].network by {}
            },
            None => {
                insertion_stands_between(before, network, 0);
                let at = insertion_index(before, network, 0);
                assert forall|g: int, h: int| 0 <= g < h < after.len() implies (
                #[trigger] after[g]).network.before((#[trigger] after[h]).network) by {
                    if h < at {
                        assert(after[g] == before[g] && after[h] == before[h]);
                    } else if h == at {
                        assert(after[g] == before[g]);
                        networks_are_ordered(before[g].network, network);
                    } else if g < at {
                        assert(after[g] == before[g] && after[h] == before[h - 1]);
                    } else if g == at {
                        assert(after[h] == before[h - 1]);
                        if h - 1 > at {
                            order_is_transitive(
                                network,
                                before[at].network,
                                before[h - 1].network,
                            );
                        }
                    } else {
                        assert(after[g] == before[g - 1] && after[h] == before[h - 1]);
                    }
                }
            },
        }
    }
}

} // verus!
