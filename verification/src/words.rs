//! Words within texts, and ordered lists of texts.

use vstd::prelude::*;
use vstd::string::*;
use vstd::seq_lib::{to_multiset_build, to_multiset_insert};
use crate::text::{
    characters, comes_before, is_whitespace, precedes, precedes_is_total, precedes_is_transitive,
    same_text, texts, trimmed_start, whitespace,
};

verus! {

/// Whether a word stands at a place of a text.
pub open spec fn stands_at(text: Seq<char>, word: Seq<char>, at: int) -> bool {
    0 <= at && at + word.len() <= text.len() && text.subrange(at, at + word.len()) == word
}

/// The first place of a word from `from` on.
pub open spec fn first_place(text: Seq<char>, word: Seq<char>, from: int) -> Option<int>
    decreases text.len() + 1 - from,
{
    if from > text.len() {
        None
    } else if stands_at(text, word, from) {
        Some(from)
    } else {
        first_place(text, word, from + 1)
    }
}

fn is_at(text: &Vec<char>, word: &Vec<char>, at: usize) -> (r: bool)
    requires
        at <= text@.len(),
    ensures
        r == stands_at(text@, word@, at as int),
{
    let limit: usize = text.len();
    if word.len() > limit - at {
        return false;
    }
    let mut index: usize = 0;
    while index < word.len()
        invariant
            index <= word@.len(),
            limit == text@.len(),
            at + word@.len() <= limit,
            forall|i: int| 0 <= i < index ==> text@[at + i] == #[trigger] word@[i],
        decreases word@.len() - index,
    {
        if text[at + index] != word[index] {
            assert(text@.subrange(at as int, at + word@.len())[index as int] == text@[at + index]);
            return false;
        }
        index += 1;
    }
    assert(text@.subrange(at as int, at + word@.len()) =~= word@);
    true
}

fn find_word(text: &Vec<char>, word: &Vec<char>) -> (r: Option<usize>)
    ensures
        match (r, first_place(text@, word@, 0)) {
            (Some(at), Some(wanted)) => at == wanted && at + word@.len() <= text@.len(),
            (None, None) => true,
            _ => false,
        },
{
    let mut at: usize = 0;
    while at < text.len()
        invariant
            at <= text@.len(),
            first_place(text@, word@, 0) == first_place(text@, word@, at as int),
        decreases text@.len() - at,
    {
        if is_at(text, word, at) {
            return Some(at);
        }
        at += 1;
    }
    if is_at(text, word, at) {
        return Some(at);
    }
    assert(first_place(text@, word@, at + 1) is None);
    None
}

/// The parts before and behind the first occurrence of a word.
pub open spec fn split_at_word(text: Seq<char>, word: Seq<char>) -> Option<(Seq<char>, Seq<char>)> {
    match first_place(text, word, 0) {
        Some(at) => Some(
            (text.subrange(0, at), text.subrange(at + word.len(), text.len() as int)),
        ),
        None => None,
    }
}

/// Splits a text at the first occurrence of a word.
pub fn split_word<'a>(text: &'a str, word: &str) -> (r: Option<(&'a str, &'a str)>)
    ensures
        match (r, split_at_word(text@, word@)) {
            (Some((before, behind)), Some(wanted)) => (before@, behind@) == wanted,
            (None, None) => true,
            _ => false,
        },
{
    let chars = characters(text);
    let looked = characters(word);
    let total: usize = chars.len();
    match find_word(&chars, &looked) {
        Some(at) => Some(
            (text.substring_char(0, at), text.substring_char(at + looked.len(), total)),
        ),
        None => None,
    }
}

/// A character with its ASCII capital made small.
pub open spec fn small(c: char) -> char {
    if 'A' <= c <= 'Z' {
        (c as int + 32) as char
    } else {
        c
    }
}

/// A text with its ASCII capitals made small.
pub open spec fn lowered(text: Seq<char>) -> Seq<char> {
    text.map_values(|c: char| small(c))
}

fn small_char(c: char) -> (r: char)
    ensures
        r == small(c),
{
    let n: u32 = c as u32;
    if 'A' <= c && c <= 'Z' {
        let m: u8 = (n + 32) as u8;
        m as char
    } else {
        c
    }
}

fn small_chars(text: &str) -> (r: Vec<char>)
    ensures
        r@ == lowered(text@),
{
    let chars = characters(text);
    let mut out: Vec<char> = Vec::new();
    let mut index: usize = 0;
    while index < chars.len()
        invariant
            index <= chars@.len(),
            chars@ == text@,
            out@.len() == index,
            forall|i: int| 0 <= i < index ==> #[trigger] out@[i] == small(text@[i]),
        decreases chars@.len() - index,
    {
        out.push(small_char(chars[index]));
        index += 1;
    }
    assert(out@ =~= lowered(text@));
    out
}

/// Whether a text mentions a word, whatever the case of its ASCII letters.
pub open spec fn mentions(text: Seq<char>, word: Seq<char>) -> bool {
    first_place(lowered(text), word, 0) is Some
}

/// Whether a text mentions a word that is written in small letters.
pub fn mentions_word(text: &str, word: &str) -> (r: bool)
    ensures
        r == mentions(text@, word@),
{
    let chars = small_chars(text);
    let looked = characters(word);
    find_word(&chars, &looked).is_some()
}

/// Whether two texts are equal but for the case of their ASCII letters.
pub fn same_letters(left: &str, right: &str) -> (r: bool)
    ensures
        r == (lowered(left@) == lowered(right@)),
{
    let a = small_chars(left);
    let b = small_chars(right);
    if a.len() != b.len() {
        return false;
    }
    assert(a@.subrange(0, b@.len() as int) =~= a@);
    is_at(&a, &b, 0)
}

/// The place of the first white space from `from` on, or the length.
pub open spec fn word_end(text: Seq<char>, from: int) -> int
    decreases text.len() - from,
{
    if from >= text.len() || whitespace(text[from]) {
        from
    } else {
        word_end(text, from + 1)
    }
}

/// The first word of a text.
pub open spec fn first_word(text: Seq<char>) -> Option<Seq<char>> {
    let started = trimmed_start(text);
    if started.len() == 0 {
        None
    } else {
        Some(started.subrange(0, word_end(started, 0)))
    }
}

/// Cuts the white space off the start.
fn skip_blank(text: &Vec<char>) -> (r: usize)
    ensures
        r <= text@.len(),
        text@.subrange(r as int, text@.len() as int) == trimmed_start(text@),
{
    let mut from: usize = 0;
    assert(text@.subrange(0, text@.len() as int) =~= text@);
    while from < text.len() && is_whitespace(text[from])
        invariant
            from <= text@.len(),
            trimmed_start(text@) == trimmed_start(text@.subrange(from as int, text@.len() as int)),
        decreases text@.len() - from,
    {
        assert(text@.subrange(from as int, text@.len() as int).subrange(
            1,
            text@.len() - from,
        ) =~= text@.subrange(from + 1, text@.len() as int));
        from += 1;
    }
    from
}

/// Finds the first word of a text.
pub fn read_word(text: &str) -> (r: Option<&str>)
    ensures
        match (r, first_word(text@)) {
            (Some(word), Some(wanted)) => word@ == wanted,
            (None, None) => true,
            _ => false,
        },
{
    let chars = characters(text);
    let from: usize = skip_blank(&chars);
    if from >= chars.len() {
        return None;
    }
    let ghost started = trimmed_start(text@);
    let mut to: usize = from;
    while to < chars.len() && !is_whitespace(chars[to])
        invariant
            from <= to <= chars@.len(),
            chars@ == text@,
            started == text@.subrange(from as int, text@.len() as int),
            word_end(started, 0) == word_end(started, to - from),
        decreases chars@.len() - to,
    {
        assert(started[to - from] == text@[to as int]);
        to += 1;
    }
    if to < chars.len() {
        assert(started[to - from] == text@[to as int]);
    }
    assert(started.subrange(0, to - from) =~= text@.subrange(from as int, to as int));
    Some(text.substring_char(from, to))
}

/// Texts one after the other, with a separator between them.
pub open spec fn joined(list: Seq<Seq<char>>, separator: Seq<char>, n: nat) -> Seq<char>
    decreases n,
{
    if n == 0 {
        Seq::empty()
    } else if n == 1 {
        list[0]
    } else {
        joined(list, separator, (n - 1) as nat) + separator + list[n - 1]
    }
}

/// Writes texts one after the other, with a separator between them.
pub fn join(list: &Vec<String>, separator: &str) -> (r: String)
    ensures
        r@ == joined(texts(list@), separator@, list@.len()),
{
    if list.len() == 0 {
        let empty = "".to_owned();
        proof {
            reveal_strlit("");
        }
        assert(empty@ =~= Seq::<char>::empty());
        return empty;
    }
    assert(texts(list@)[0] == list@[0]@);
    let mut out = list[0].clone();
    let mut index: usize = 1;
    while index < list.len()
        invariant
            1 <= index <= list@.len(),
            out@ == joined(texts(list@), separator@, index as nat),
        decreases list@.len() - index,
    {
        assert(texts(list@)[index as int] == list@[index as int]@);
        out.append(separator);
        out.append(list[index].as_str());
        index += 1;
    }
    out
}

/// The place of a text in an ordered list: that of its equal, or the one it
/// would take.
pub open spec fn text_slot(list: Seq<Seq<char>>, text: Seq<char>, from: int) -> int
    decreases list.len() - from,
{
    if from >= list.len() || list[from] == text || precedes(text, list[from]) {
        from
    } else {
        text_slot(list, text, from + 1)
    }
}

/// An ordered list with a text in it.
pub open spec fn with_text(list: Seq<Seq<char>>, text: Seq<char>) -> Seq<Seq<char>> {
    let at = text_slot(list, text, 0);
    if at < list.len() && list[at] == text {
        list
    } else {
        list.insert(at, text)
    }
}

/// Puts a text into an ordered list.
pub fn add_text(list: &mut Vec<String>, text: String)
    ensures
        texts(final(list)@) == with_text(texts(old(list)@), text@),
{
    let ghost before = texts(list@);
    let mut at: usize = 0;
    while at < list.len() && !same_text(list[at].as_str(), text.as_str()) && !comes_before(
        text.as_str(),
        list[at].as_str(),
    )
        invariant
            at <= list@.len(),
            *list == *old(list),
            before == texts(list@),
            text_slot(before, text@, 0) == text_slot(before, text@, at as int),
        decreases list@.len() - at,
    {
        assert(before[at as int] == list@[at as int]@);
        at += 1;
    }
    if at < list.len() {
        assert(before[at as int] == list@[at as int]@);
        if same_text(list[at].as_str(), text.as_str()) {
            return;
        }
    }
    list.insert(at, text);
    assert(texts(list@) =~= before.insert(at as int, text@));
}

/// Whether each text of a list comes before the next ones.
pub open spec fn ascending(list: Seq<Seq<char>>) -> bool {
    forall|i: int, j: int|
        0 <= i < j < list.len() ==> precedes(#[trigger] list[i], #[trigger] list[j])
}

/// Where a text goes in an ordered list: behind all that come before it.
pub proof fn text_slot_fits(list: Seq<Seq<char>>, text: Seq<char>, from: int)
    requires
        0 <= from <= list.len(),
    ensures
        from <= text_slot(list, text, from) <= list.len(),
        forall|i: int|
            from <= i < text_slot(list, text, from) ==> (#[trigger] list[i]) != text && !precedes(
                text,
                list[i],
            ),
        text_slot(list, text, from) < list.len() ==> list[text_slot(list, text, from)] == text
            || precedes(text, list[text_slot(list, text, from)]),
    decreases list.len() - from,
{
    if from < list.len() && list[from] != text && !precedes(text, list[from]) {
        text_slot_fits(list, text, from + 1);
    }
}

/// An ordered list stays in order, without a text twice, when a text is put
/// into it, and holds that text and no other than before.
pub proof fn with_text_keeps_order(list: Seq<Seq<char>>, text: Seq<char>)
    requires
        ascending(list),
    ensures
        ascending(with_text(list, text)),
        forall|other: Seq<char>|
            with_text(list, text).contains(other) <==> list.contains(other) || other == text,
{
    let at = text_slot(list, text, 0);
    text_slot_fits(list, text, 0);
    let grown = with_text(list, text);
    if at < list.len() && list[at] == text {
        assert(grown == list);
        assert(list.contains(text));
    } else {
        assert forall|i: int, j: int| 0 <= i < j < grown.len() implies precedes(
            #[trigger] grown[i],
            #[trigger] grown[j],
        ) by {
            if i < at && j == at {
                precedes_is_total(list[i], text);
            } else if i == at && j > at {
                if j - 1 > at {
                    precedes_is_transitive(text, list[at], list[j - 1]);
                }
            } else {
                let a = if i < at {
                    i
                } else {
                    i - 1
                };
                let b = if j < at {
                    j
                } else {
                    j - 1
                };
                assert(grown[i] == list[a] && grown[j] == list[b]);
            }
        }
        assert(grown[at] == text);
        assert forall|other: Seq<char>| list.contains(other) implies grown.contains(other) by {
            let i = choose|i: int| 0 <= i < list.len() && list[i] == other;
            if i < at {
                assert(grown[i] == other);
            } else {
                assert(grown[i + 1] == other);
            }
        }
        assert forall|other: Seq<char>| grown.contains(other) implies list.contains(other) || other
            == text by {
            let i = choose|i: int| 0 <= i < grown.len() && grown[i] == other;
            if i < at {
                assert(list[i] == other);
            } else if i > at {
                assert(list[i - 1] == other);
            }
        }
    }
}

/// Whether entries stand in ascending order of their names, none of which
/// occurs twice: the order in which a map lists them.
pub open spec fn names_ascend<T>(list: Seq<(Seq<char>, T)>) -> bool {
    forall|i: int, j: int|
        0 <= i < j < list.len() ==> precedes((#[trigger] list[i]).0, (#[trigger] list[j]).0)
}

/// Ascending names are different names.
pub proof fn ascending_names_differ<T>(list: Seq<(Seq<char>, T)>, i: int, j: int)
    requires
        names_ascend(list),
        0 <= i < list.len(),
        0 <= j < list.len(),
        list[i].0 == list[j].0,
    ensures
        i == j,
{
    precedes_is_total(list[i].0, list[j].0);
}

/// Entries with their names as values.
pub open spec fn named_entries<T>(list: Seq<(String, T)>) -> Seq<(Seq<char>, T)> {
    list.map_values(|entry: (String, T)| (entry.0@, entry.1))
}

/// Whether entries stand in ascending order of their names.
pub fn has_ascending_names<T>(list: &Vec<(String, T)>) -> (r: bool)
    ensures
        r == names_ascend(named_entries(list@)),
{
    let ghost values = named_entries(list@);
    let mut index: usize = 1;
    while index < list.len()
        invariant
            1 <= index,
            index <= list@.len() || index == 1,
            values == named_entries(list@),
            forall|i: int, j: int|
                0 <= i < j < index && j < list@.len() ==> precedes(
                    (#[trigger] values[i]).0,
                    (#[trigger] values[j]).0,
                ),
        decreases list@.len() - index,
    {
        assert(values[index - 1].0 == list@[index - 1].0@);
        assert(values[index as int].0 == list@[index as int].0@);
        if !comes_before(list[index - 1].0.as_str(), list[index].0.as_str()) {
            return false;
        }
        assert forall|i: int| 0 <= i < index implies precedes(
            (#[trigger] values[i]).0,
            values[index as int].0,
        ) by {
            if i < index - 1 {
                precedes_is_transitive(values[i].0, values[index - 1].0, values[index as int].0);
            }
        }
        index += 1;
    }
    true
}

/// The first `n` texts of a list in ascending order.
pub open spec fn sorted(list: Seq<Seq<char>>, n: nat) -> Seq<Seq<char>>
    decreases n,
{
    if n == 0 {
        Seq::empty()
    } else {
        let before = sorted(list, (n - 1) as nat);
        before.insert(text_slot(before, list[n - 1], 0), list[n - 1])
    }
}

/// Sorts texts.
pub fn sort_texts(list: &Vec<String>) -> (r: Vec<String>)
    ensures
        texts(r@) == sorted(texts(list@), list@.len()),
{
    let ghost given = texts(list@);
    let mut out: Vec<String> = Vec::new();
    assert(texts(out@) =~= Seq::<Seq<char>>::empty());
    let mut index: usize = 0;
    while index < list.len()
        invariant
            index <= list@.len(),
            given == texts(list@),
            texts(out@) == sorted(given, index as nat),
        decreases list@.len() - index,
    {
        assert(given[index as int] == list@[index as int]@);
        let ghost before = texts(out@);
        let mut at: usize = 0;
        while at < out.len() && !same_text(out[at].as_str(), list[index].as_str())
            && !comes_before(list[index].as_str(), out[at].as_str())
            invariant
                at <= out@.len(),
                index < list@.len(),
                before == texts(out@),
                text_slot(before, list@[index as int]@, 0) == text_slot(
                    before,
                    list@[index as int]@,
                    at as int,
                ),
            decreases out@.len() - at,
        {
            assert(before[at as int] == out@[at as int]@);
            at += 1;
        }
        if at < out.len() {
            assert(before[at as int] == out@[at as int]@);
        }
        out.insert(at, list[index].clone());
        assert(texts(out@) =~= before.insert(at as int, given[index as int]));
        index += 1;
    }
    out
}

/// Sorting orders a list and keeps every text as often as it was there.
pub proof fn sorted_keeps_every_text(list: Seq<Seq<char>>, n: nat)
    requires
        n <= list.len(),
    ensures
        sorted(list, n).to_multiset() == list.take(n as int).to_multiset(),
        forall|i: int, j: int|
            0 <= i < j < sorted(list, n).len() ==> !precedes(
                #[trigger] sorted(list, n)[j],
                #[trigger] sorted(list, n)[i],
            ),
    decreases n,
{
    if n == 0 {
        assert(list.take(0) =~= Seq::<Seq<char>>::empty());
    } else {
        let m = (n - 1) as nat;
        sorted_keeps_every_text(list, m);
        let before = sorted(list, m);
        let text = list[m as int];
        let at = text_slot(before, text, 0);
        text_slot_fits(before, text, 0);
        to_multiset_insert(before, at, text);
        to_multiset_build(list.take(m as int), text);
        assert(list.take(n as int) =~= list.take(m as int).push(text));
        let after = sorted(list, n);
        assert forall|i: int, j: int| 0 <= i < j < after.len() implies !precedes(
            #[trigger] after[j],
            #[trigger] after[i],
        ) by {
            if j == at {
                assert(after[i] == before[i]);
            } else if i == at {
                assert(after[j] == before[j - 1]);
                if before[at] != text {
                    precedes_is_total(text, before[at]);
                }
                if precedes(before[j - 1], text) {
                    if before[at] != text {
                        precedes_is_transitive(before[j - 1], text, before[at]);
                    }
                    assert(j - 1 > at || before[at] == before[j - 1]);
                    precedes_is_total(before[at], before[at]);
                    precedes_is_total(text, text);
                }
            } else {
                let a = if i < at {
                    i
                } else {
                    i - 1
                };
                let b = if j < at {
                    j
                } else {
                    j - 1
                };
                assert(after[i] == before[a] && after[j] == before[b]);
            }
        }
    }
}

} // verus!
