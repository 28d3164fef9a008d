//! Laws of texts: what is trimmed, split, joined, read and put in order.

use vstd::prelude::*;
use crate::text::{
    blank, digits, digits_value, hex_digit, hex_digits_value, hex_value, holds_text, lines_from,
    number_up_to, number_value, place_in, place_of, precedes, split_at_first, trimmed, trimmed_end,
    trimmed_start, whitespace, without_prefix, without_return, without_suffix,
};
use crate::words::{
    first_place, first_word, joined, lowered, mentions, small, split_at_word, stands_at, word_end,
};

verus! {

/// White are the space and the controls from the tab to the carriage return,
/// the next-line control, and the spaces and separators beyond the first 128
/// characters, which do not break lines or do; nothing else is.
pub proof fn white_characters_are_known(c: char)
    ensures
        (c as int) < 128 ==> (whitespace(c) <==> c == ' ' || c == '\t' || c == '\n' || c == '\x0b'
            || c == '\x0c' || c == '\r'),
        c as int >= 128 ==> (whitespace(c) <==> c == '\u{85}' || c == '\u{a0}' || c == '\u{1680}'
            || '\u{2000}' <= c <= '\u{200a}' || c == '\u{2028}' || c == '\u{2029}' || c
            == '\u{202f}' || c == '\u{205f}' || c == '\u{3000}'),
{
}

proof fn start_is_trimmed(text: Seq<char>)
    ensures
        exists|at: int|
            0 <= at <= text.len() && trimmed_start(text) == #[trigger] text.subrange(
                at,
                text.len() as int,
            ) && blank(text.subrange(0, at)),
        trimmed_start(text).len() > 0 ==> !whitespace(trimmed_start(text)[0]),
    decreases text.len(),
{
    if text.len() > 0 && whitespace(text[0]) {
        let rest = text.subrange(1, text.len() as int);
        start_is_trimmed(rest);
        let at = choose|at: int|
            0 <= at <= rest.len() && trimmed_start(rest) == #[trigger] rest.subrange(
                at,
                rest.len() as int,
            ) && blank(rest.subrange(0, at));
        assert(rest.subrange(at, rest.len() as int) =~= text.subrange(at + 1, text.len() as int));
        let front = text.subrange(0, at + 1);
        assert forall|i: int| 0 <= i < front.len() implies whitespace(#[trigger] front[i]) by {
            if i > 0 {
                assert(front[i] == rest.subrange(0, at)[i - 1]);
            }
        }
        assert(blank(front));
    } else {
        assert(text.subrange(0, text.len() as int) =~= text);
        assert(blank(text.subrange(0, 0)));
    }
}

proof fn end_is_trimmed(text: Seq<char>)
    ensures
        exists|at: int|
            0 <= at <= text.len() && trimmed_end(text) == #[trigger] text.subrange(0, at) && blank(
                text.subrange(at, text.len() as int),
            ),
        trimmed_end(text).len() > 0 ==> !whitespace(trimmed_end(text).last()),
    decreases text.len(),
{
    if text.len() > 0 && whitespace(text.last()) {
        let rest = text.drop_last();
        end_is_trimmed(rest);
        let at = choose|at: int|
            0 <= at <= rest.len() && trimmed_end(rest) == #[trigger] rest.subrange(0, at) && blank(
                rest.subrange(at, rest.len() as int),
            );
        assert(rest.subrange(0, at) =~= text.subrange(0, at));
        let back = text.subrange(at, text.len() as int);
        assert forall|i: int| 0 <= i < back.len() implies whitespace(#[trigger] back[i]) by {
            if at + i < rest.len() {
                assert(back[i] == rest.subrange(at, rest.len() as int)[i]);
            }
        }
        assert(blank(back));
    } else {
        assert(text.subrange(0, text.len() as int) =~= text);
        assert(blank(text.subrange(text.len() as int, text.len() as int)));
    }
}

/// What is trimmed is a part of the text with nothing but white in front of it
/// and behind it, and it neither begins nor ends white.
pub proof fn trimming_takes_the_white_off(text: Seq<char>)
    ensures
        exists|from: int, to: int|
            0 <= from <= to <= text.len() && trimmed(text) == #[trigger] text.subrange(from, to)
                && blank(text.subrange(0, from)) && blank(text.subrange(to, text.len() as int)),
        trimmed(text).len() > 0 ==> !whitespace(trimmed(text)[0]) && !whitespace(
            trimmed(text).last(),
        ),
        trimmed(text).len() == 0 <==> blank(text),
{
    start_is_trimmed(text);
    let from = choose|at: int|
        0 <= at <= text.len() && trimmed_start(text) == #[trigger] text.subrange(
            at,
            text.len() as int,
        ) && blank(text.subrange(0, at));
    let started = trimmed_start(text);
    end_is_trimmed(started);
    let end = choose|at: int|
        0 <= at <= started.len() && trimmed_end(started) == #[trigger] started.subrange(0, at)
            && blank(started.subrange(at, started.len() as int));
    let to = from + end;
    assert(started.subrange(0, end) =~= text.subrange(from, to));
    assert(started.subrange(end, started.len() as int) =~= text.subrange(to, text.len() as int));
    if trimmed(text).len() > 0 {
        assert(trimmed(text)[0] == started[0]);
        assert(!blank(text)) by {
            assert(!whitespace(text[from]));
        }
    } else {
        assert forall|i: int| 0 <= i < text.len() implies whitespace(#[trigger] text[i]) by {
            if i < from {
                assert(text.subrange(0, from)[i] == text[i]);
            } else {
                assert(text.subrange(to, text.len() as int)[i - to] == text[i]);
            }
        }
    }
}

/// The first word of a text is what stands between its first character that is
/// not white and the next white one. A blank text has none.
pub proof fn first_words_stand_between_white(text: Seq<char>)
    ensures
        first_word(text) is None <==> blank(text),
        first_word(text) matches Some(word) ==> {
            &&& word.len() > 0
            &&& forall|i: int| 0 <= i < word.len() ==> !whitespace(#[trigger] word[i])
            &&& exists|from: int|
                #![trigger text.subrange(0, from)]
                0 <= from && from + word.len() <= text.len() && blank(text.subrange(0, from))
                    && text.subrange(from, from + word.len()) == word && (from + word.len()
                    < text.len() ==> whitespace(text[from + word.len()]))
        },
{
    start_is_trimmed(text);
    let from = choose|at: int|
        0 <= at <= text.len() && trimmed_start(text) == #[trigger] text.subrange(
            at,
            text.len() as int,
        ) && blank(text.subrange(0, at));
    let started = trimmed_start(text);
    if started.len() == 0 {
        assert(text.subrange(0, from) =~= text);
    } else {
        assert(text[from] == started[0]);
        word_ends_at_white(started, 0);
        let word = started.subrange(0, word_end(started, 0));
        assert(text.subrange(from, from + word.len()) =~= word);
        if from + word.len() < text.len() {
            assert(text[from + word.len()] == started[word.len() as int]);
        }
        assert(blank(text.subrange(0, from)));
    }
}

proof fn word_ends_at_white(text: Seq<char>, from: int)
    requires
        0 <= from <= text.len(),
    ensures
        from <= word_end(text, from) <= text.len(),
        from < text.len() && !whitespace(text[from]) ==> word_end(text, from) > from,
        forall|i: int| from <= i < word_end(text, from) ==> !whitespace(#[trigger] text[i]),
        word_end(text, from) < text.len() ==> whitespace(text[word_end(text, from)]),
    decreases text.len() - from,
{
    if from < text.len() && !whitespace(text[from]) {
        word_ends_at_white(text, from + 1);
    }
}

proof fn places_are_first(text: Seq<char>, c: char, from: int)
    requires
        0 <= from <= text.len(),
    ensures
        from <= place_of(text, c, from) <= text.len(),
        forall|i: int| from <= i < place_of(text, c, from) ==> #[trigger] text[i] != c,
        place_of(text, c, from) < text.len() ==> text[place_of(text, c, from)] == c,
    decreases text.len() - from,
{
    if from < text.len() && text[from] != c {
        places_are_first(text, c, from + 1);
    }
}

/// A text is split at the first of a character: what stands before it holds no
/// other, and the two parts with the character between them are the text. Only
/// a text without the character is not split.
pub proof fn texts_split_at_the_first(text: Seq<char>, c: char)
    ensures
        split_at_first(text, c) is None <==> !text.contains(c),
        split_at_first(text, c) matches Some((before, behind)) ==> text == before + seq![c] + behind
            && !before.contains(c),
{
    places_are_first(text, c, 0);
    let at = place_of(text, c, 0);
    if at < text.len() {
        assert(text.contains(c));
        let before = text.subrange(0, at);
        let behind = text.subrange(at + 1, text.len() as int);
        assert(text =~= before + seq![c] + behind);
    }
}

/// The first place of a word in a text is one at which it stands with none
/// before it; without one it stands nowhere.
pub proof fn words_are_found_at_their_first_place(text: Seq<char>, word: Seq<char>, from: int)
    requires
        0 <= from,
    ensures
        match first_place(text, word, from) {
            Some(at) => {
                &&& from <= at
                &&& at + word.len() <= text.len()
                &&& text.subrange(at, at + word.len()) == word
                &&& forall|i: int| from <= i < at ==> !(#[trigger] stands_at(text, word, i))
            },
            None => forall|i: int| from <= i ==> !(#[trigger] stands_at(text, word, i)),
        },
    decreases text.len() + 1 - from,
{
    if from <= text.len() && !stands_at(text, word, from) {
        words_are_found_at_their_first_place(text, word, from + 1);
    }
}

/// A text is split at the first place of a word, and the two parts with the
/// word between them are the text.
pub proof fn texts_split_at_their_first_word(text: Seq<char>, word: Seq<char>)
    ensures
        match split_at_word(text, word) {
            Some((before, behind)) => text == before + word + behind && forall|i: int|
                0 <= i < before.len() ==> !(#[trigger] stands_at(text, word, i)),
            None => forall|i: int| !(#[trigger] stands_at(text, word, i)),
        },
{
    words_are_found_at_their_first_place(text, word, 0);
    if let Some(at) = first_place(text, word, 0) {
        assert(text =~= text.subrange(0, at) + word + text.subrange(
            at + word.len(),
            text.len() as int,
        ));
    }
}

/// A text without a prefix is what stands behind it, and without a suffix what
/// stands before it; whatever was put in front or behind comes off again.
pub proof fn prefixes_and_suffixes_come_off(text: Seq<char>, rest: Seq<char>, part: Seq<char>)
    ensures
        without_prefix(text, part) == Some(rest) <==> text == part + rest,
        without_suffix(text, part) == Some(rest) <==> text == rest + part,
{
    if text == part + rest {
        assert(text.subrange(0, part.len() as int) =~= part);
        assert(text.subrange(part.len() as int, text.len() as int) =~= rest);
    }
    if without_prefix(text, part) == Some(rest) {
        assert(text =~= part + rest);
    }
    if text == rest + part {
        assert(text.subrange(text.len() - part.len(), text.len() as int) =~= part);
        assert(text.subrange(0, text.len() - part.len()) =~= rest);
    }
    if without_suffix(text, part) == Some(rest) {
        assert(text =~= rest + part);
    }
}

proof fn lines_are_told_by_what_follows(front: Seq<char>, text: Seq<char>, from: int)
    requires
        0 <= from <= text.len(),
    ensures
        lines_from(front + text, front.len() + from) == lines_from(text, from),
    decreases text.len() - from,
{
    let whole = front + text;
    if from < text.len() {
        places_are_first(text, '\n', from);
        places_are_first(whole, '\n', front.len() + from);
        let at = place_of(text, '\n', from);
        let there = place_of(whole, '\n', front.len() + from);
        assert(there == front.len() + at) by {
            if there < front.len() + at {
                assert(whole[there] == text[there - front.len()]);
            } else if there > front.len() + at {
                assert(whole[front.len() + at] == text[at]);
            }
        }
        if at < text.len() {
            assert(whole.subrange(front.len() + from, there) =~= text.subrange(from, at));
            lines_are_told_by_what_follows(front, text, at + 1);
        } else {
            assert(whole.subrange(front.len() + from, whole.len() as int) =~= text.subrange(
                from,
                text.len() as int,
            ));
        }
    }
}

/// Lines end where a line feed stands, which belongs to none of them, nor does
/// a carriage return right before it. What stands behind the last one is a line
/// where it is not empty.
pub proof fn lines_end_at_line_feeds(line: Seq<char>, text: Seq<char>)
    requires
        !line.contains('\n'),
    ensures
        lines_from(line + seq!['\n'] + text, 0) == seq![without_return(line)] + lines_from(text, 0),
        line.len() > 0 ==> lines_from(line, 0) == seq![line],
        lines_from(Seq::empty(), 0) == Seq::<Seq<char>>::empty(),
        without_return(line.push('\r')) == line,
        line.len() > 0 && line.last() != '\r' ==> without_return(line) == line,
        without_return(Seq::empty()) == Seq::<char>::empty(),
{
    let front = line + seq!['\n'];
    let whole = front + text;
    places_are_first(whole, '\n', 0);
    let at = place_of(whole, '\n', 0);
    assert(at == line.len()) by {
        if at < line.len() {
            assert(whole[at] == line[at]);
            assert(line.contains('\n'));
        }
        assert(whole[line.len() as int] == '\n');
    }
    assert(whole.subrange(0, at) =~= line);
    lines_are_told_by_what_follows(front, text, 0);
    places_are_first(line, '\n', 0);
    let there = place_of(line, '\n', 0);
    if there < line.len() {
        assert(line.contains('\n'));
    }
    assert(line.subrange(0, line.len() as int) =~= line);
    assert(line.push('\r').drop_last() =~= line);
}

/// Joined texts stand one behind the other with the separator between each two.
pub proof fn texts_are_joined_in_order(
    list: Seq<Seq<char>>,
    text: Seq<char>,
    separator: Seq<char>,
)
    ensures
        joined(Seq::empty(), separator, 0) == Seq::<char>::empty(),
        joined(seq![text], separator, 1) == text,
        list.len() > 0 ==> joined(list.push(text), separator, list.push(text).len()) == joined(
            list,
            separator,
            list.len(),
        ) + separator + text,
{
    joined_texts_are_the_first_ones(list, text, separator, list.len());
}

proof fn joined_texts_are_the_first_ones(
    list: Seq<Seq<char>>,
    text: Seq<char>,
    separator: Seq<char>,
    n: nat,
)
    requires
        n <= list.len(),
    ensures
        joined(list.push(text), separator, n) == joined(list, separator, n),
    decreases n,
{
    if n > 1 {
        joined_texts_are_the_first_ones(list, text, separator, (n - 1) as nat);
    }
}

/// Letters are made small one by one: A to Z become a to z, and every other
/// character stays.
pub proof fn letters_are_made_small(text: Seq<char>, i: int)
    requires
        0 <= i < text.len(),
    ensures
        lowered(text).len() == text.len(),
        'A' <= text[i] <= 'Z' ==> lowered(text)[i] as int == text[i] as int + 32 && 'a' <= lowered(
            text,
        )[i] <= 'z',
        !('A' <= text[i] <= 'Z') ==> lowered(text)[i] == text[i],
        lowered(lowered(text)) == lowered(text),
{
    assert(lowered(lowered(text)) =~= lowered(text));
}

/// A text mentions a word where the word stands in it whatever the case of its
/// letters.
pub proof fn mentions_pass_over_case(text: Seq<char>, word: Seq<char>, front: Seq<char>, back: Seq<
    char,
>)
    ensures
        lowered(text) == front + word + back ==> mentions(text, word),
        mentions(text, word) ==> exists|at: int| #[trigger] stands_at(lowered(text), word, at),
{
    words_are_found_at_their_first_place(lowered(text), word, 0);
    if lowered(text) == front + word + back {
        let at = front.len() as int;
        assert(lowered(text).subrange(at, at + word.len()) =~= word);
        assert(stands_at(lowered(text), word, at));
    }
    if mentions(text, word) {
        assert(stands_at(lowered(text), word, first_place(lowered(text), word, 0)->0));
    }
}

/// A number is read digit by digit, the last one counting least. A plus may
/// stand in front; anything else is no number.
pub proof fn numbers_are_read_digit_by_digit(text: Seq<char>, c: char, n: nat)
    requires
        text.len() > 0,
        text[0] != '+',
        number_value(text) == Some(n),
    ensures
        '0' <= c <= '9' ==> number_value(text.push(c)) == Some(
            (10 * n + (c as int - '0' as int)) as nat,
        ),
        '0' <= c <= '9' ==> number_value(seq![c]) == Some((c as int - '0' as int) as nat),
        !('0' <= c <= '9') ==> number_value(text.push(c)) is None,
        !('0' <= c <= '9') ==> number_value(seq![c]) is None,
        number_value(seq!['+'] + text) == Some(n),
        number_value(Seq::empty()) is None,
        number_value(seq!['+']) is None,
{
    let grown = text.push(c);
    assert(grown.drop_last() =~= text);
    if '0' <= c <= '9' {
        assert forall|i: int| 0 <= i < grown.len() implies crate::text::is_digit(
            #[trigger] grown[i],
        ) by {
            if i < text.len() {
                assert(grown[i] == text[i]);
            }
        }
    } else {
        assert(!crate::text::is_digit(grown[text.len() as int]));
        assert(!crate::text::is_digit(seq![c][0]));
    }
    let one = seq![c];
    assert(one.drop_last() =~= Seq::<char>::empty());
    assert(digits_value(Seq::<char>::empty()) == 0);
    if c == '+' {
        assert(one.subrange(1, 1) =~= Seq::<char>::empty());
    }
    let signed = seq!['+'] + text;
    assert(signed.subrange(1, signed.len() as int) =~= text);
    assert(seq!['+'].subrange(1, 1) =~= Seq::<char>::empty());
}

/// A number up to a bound is one that does not exceed it.
pub proof fn numbers_keep_their_bound(text: Seq<char>, max: nat, n: nat)
    ensures
        number_up_to(text, max) == Some(n) <==> number_value(text) == Some(n) && n <= max,
{
}

/// A number is written without a leading zero, and its last digit is what is
/// left of it by ten.
pub proof fn numbers_are_written_in_tens(n: nat)
    ensures
        n < 10 ==> digits(n).len() == 1 && digits(n)[0] as int == '0' as int + n,
        n >= 10 ==> digits(n).len() == digits(n / 10).len() + 1 && digits(n).last() as int
            == '0' as int + n % 10 && digits(n)[0] == digits(n / 10)[0],
        n > 0 ==> digits(n)[0] != '0',
    decreases n,
{
    if n >= 10 {
        numbers_are_written_in_tens(n / 10);
    }
}

/// Hexadecimal digits count from 0 to 15, small and capital letters alike, and
/// a number in them is read digit by digit.
pub proof fn hexadecimal_digits_count(text: Seq<char>, c: char, d: nat)
    ensures
        '0' <= c <= '9' ==> hex_digit(c) == Some((c as int - '0' as int) as nat),
        'a' <= c <= 'f' ==> hex_digit(c) == Some((c as int - 'a' as int + 10) as nat),
        'A' <= c <= 'F' ==> hex_digit(c) == Some((c as int - 'A' as int + 10) as nat),
        !('0' <= c <= '9') && !('a' <= c <= 'f') && !('A' <= c <= 'F') ==> hex_digit(c) is None,
        hex_digit(c) == Some(d) ==> hex_digits_value(text.push(c)) == 16 * hex_digits_value(text)
            + d,
        hex_digits_value(Seq::empty()) == 0,
        hex_value(Seq::empty()) is None,
        text.len() > 0 && text[0] != '+' ==> {
            &&& hex_value(seq!['+'] + text) == hex_value(text)
            &&& hex_digit(c) is None ==> hex_value(text.push(c)) is None
            &&& (forall|i: int| 0 <= i < text.len() ==> hex_digit(#[trigger] text[i]) is Some)
                && hex_digits_value(text) <= u64::MAX ==> hex_value(text) == Some(
                hex_digits_value(text) as u64,
            )
            &&& hex_digits_value(text) > u64::MAX ==> hex_value(text) is None
        },
{
    let grown = text.push(c);
    assert(grown.drop_last() =~= text);
    assert(grown[text.len() as int] == c);
    let signed = seq!['+'] + text;
    assert(signed.subrange(1, signed.len() as int) =~= text);
    if text.len() > 0 && text[0] != '+' && hex_digit(c) is None {
        assert(grown[0] == text[0]);
        assert(hex_digit(grown[text.len() as int]) is None);
    }
}

/// Texts are in order by their first characters that differ, and a text stands
/// before every longer one that begins with it.
pub proof fn order_goes_by_the_first_difference(
    front: Seq<char>,
    left: char,
    right: char,
    a: Seq<char>,
    b: Seq<char>,
)
    ensures
        left < right ==> precedes(front + seq![left] + a, front + seq![right] + b),
        left < right ==> !precedes(front + seq![right] + b, front + seq![left] + a),
        precedes(front, front + seq![left] + a),
        !precedes(front + seq![left] + a, front),
    decreases front.len(),
{
    let x = front + seq![left] + a;
    let y = front + seq![right] + b;
    if front.len() > 0 {
        let rest = front.subrange(1, front.len() as int);
        order_goes_by_the_first_difference(rest, left, right, a, b);
        assert(x.subrange(1, x.len() as int) =~= rest + seq![left] + a);
        assert(y.subrange(1, y.len() as int) =~= rest + seq![right] + b);
        assert(x[0] == front[0] && y[0] == front[0]);
    } else {
        assert(x[0] == left && y[0] == right);
    }
}

/// A text is found in a list at its first place, and past the end where it is
/// not held.
pub proof fn texts_are_found_where_they_stand(list: Seq<String>, text: Seq<char>, from: int)
    requires
        0 <= from <= list.len(),
    ensures
        from <= place_in(list, text, from) <= list.len(),
        forall|i: int| from <= i < place_in(list, text, from) ==> (#[trigger] list[i])@ != text,
        place_in(list, text, from) < list.len() ==> list[place_in(list, text, from)]@ == text
            && holds_text(list, text),
        from == 0 && place_in(list, text, from) == list.len() ==> !holds_text(list, text),
    decreases list.len() - from,
{
    if from < list.len() && list[from]@ != text {
        texts_are_found_where_they_stand(list, text, from + 1);
    }
}

} // verus!
