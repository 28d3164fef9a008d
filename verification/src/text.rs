//! Text in contracts: decimal numbers, comparison, trimming and cutting.

use vstd::prelude::*;
use vstd::string::*;

verus! {

/// The digit character of a number below ten.
pub open spec fn digit_char(d: nat) -> char {
    if d == 0 {
        '0'
    } else if d == 1 {
        '1'
    } else if d == 2 {
        '2'
    } else if d == 3 {
        '3'
    } else if d == 4 {
        '4'
    } else if d == 5 {
        '5'
    } else if d == 6 {
        '6'
    } else if d == 7 {
        '7'
    } else if d == 8 {
        '8'
    } else {
        '9'
    }
}

/// A number in decimal, without leading zeros.
pub open spec fn digits(n: nat) -> Seq<char>
    decreases n,
{
    if n < 10 {
        seq![digit_char(n)]
    } else {
        digits(n / 10).push(digit_char(n % 10))
    }
}

fn digit_text(d: u64) -> (r: &'static str)
    requires
        d < 10,
    ensures
        r@ == seq![digit_char(d as nat)],
{
    proof {
        reveal_strlit("0");
        reveal_strlit("1");
        reveal_strlit("2");
        reveal_strlit("3");
        reveal_strlit("4");
        reveal_strlit("5");
        reveal_strlit("6");
        reveal_strlit("7");
        reveal_strlit("8");
        reveal_strlit("9");
    }
    let r = match d {
        0 => "0",
        1 => "1",
        2 => "2",
        3 => "3",
        4 => "4",
        5 => "5",
        6 => "6",
        7 => "7",
        8 => "8",
        _ => "9",
    };
    assert(r@ =~= seq![digit_char(d as nat)]);
    r
}

/// Writes a number in decimal.
pub fn decimal(n: u64) -> (r: String)
    ensures
        r@ == digits(n as nat),
    decreases n,
{
    if n < 10 {
        digit_text(n).to_owned()
    } else {
        let mut text = decimal(n / 10);
        let last = digit_text(n % 10);
        text.append(last);
        assert(text@ =~= digits((n / 10) as nat).push(digit_char((n % 10) as nat)));
        text
    }
}

/// The characters of a text.
pub fn characters(text: &str) -> (r: Vec<char>)
    ensures
        r@ == text@,
{
    let mut out: Vec<char> = Vec::new();
    for c in it: text.chars()
        invariant
            out@ == it.seq().take(it.index() as int),
            it.seq() == text@,
    {
        out.push(c);
    }
    out
}

/// Whether two texts are equal.
pub fn same_text(left: &str, right: &str) -> (r: bool)
    ensures
        r == (left@ == right@),
{
    left.to_owned() == right.to_owned()
}

/// The Unicode white space characters.
pub open spec fn whitespace(c: char) -> bool {
    let n = c as int;
    ||| 0x09 <= n <= 0x0d
    ||| n == 0x20
    ||| n == 0x85
    ||| n == 0xa0
    ||| n == 0x1680
    ||| 0x2000 <= n <= 0x200a
    ||| n == 0x2028
    ||| n == 0x2029
    ||| n == 0x202f
    ||| n == 0x205f
    ||| n == 0x3000
}

pub fn is_whitespace(c: char) -> (r: bool)
    ensures
        r == whitespace(c),
{
    let n: u32 = c as u32;
    (0x09 <= n && n <= 0x0d) || n == 0x20 || n == 0x85 || n == 0xa0 || n == 0x1680 || (0x2000 <= n
        && n <= 0x200a) || n == 0x2028 || n == 0x2029 || n == 0x202f || n == 0x205f || n == 0x3000
}

/// Whether a text holds nothing but white space.
pub open spec fn blank(text: Seq<char>) -> bool {
    forall|i: int| 0 <= i < text.len() ==> whitespace(#[trigger] text[i])
}

/// Whether a text holds nothing but white space.
pub fn is_blank(text: &str) -> (r: bool)
    ensures
        r == blank(text@),
{
    let chars = characters(text);
    let mut index: usize = 0;
    while index < chars.len()
        invariant
            index <= chars@.len(),
            chars@ == text@,
            forall|i: int| 0 <= i < index ==> whitespace(#[trigger] chars@[i]),
        decreases chars@.len() - index,
    {
        if !is_whitespace(chars[index]) {
            return false;
        }
        index += 1;
    }
    true
}

/// A text without its leading white space.
pub open spec fn trimmed_start(text: Seq<char>) -> Seq<char>
    decreases text.len(),
{
    if text.len() > 0 && whitespace(text[0]) {
        trimmed_start(text.subrange(1, text.len() as int))
    } else {
        text
    }
}

/// A text without its trailing white space.
pub open spec fn trimmed_end(text: Seq<char>) -> Seq<char>
    decreases text.len(),
{
    if text.len() > 0 && whitespace(text.last()) {
        trimmed_end(text.drop_last())
    } else {
        text
    }
}

/// A text without the white space around it.
pub open spec fn trimmed(text: Seq<char>) -> Seq<char> {
    trimmed_end(trimmed_start(text))
}

/// Cuts the white space off both ends.
pub fn trim(text: &str) -> (r: &str)
    ensures
        r@ == trimmed(text@),
{
    let chars = characters(text);
    let mut from: usize = 0;
    assert(text@.subrange(0, text@.len() as int) =~= text@);
    while from < chars.len() && is_whitespace(chars[from])
        invariant
            from <= chars@.len(),
            chars@ == text@,
            trimmed_start(text@) == trimmed_start(text@.subrange(from as int, text@.len() as int)),
        decreases chars@.len() - from,
    {
        assert(text@.subrange(from as int, text@.len() as int).subrange(
            1,
            text@.len() - from,
        ) =~= text@.subrange(from + 1, text@.len() as int));
        from += 1;
    }
    let ghost started = text@.subrange(from as int, text@.len() as int);
    assert(trimmed_start(text@) == started);
    let mut to: usize = chars.len();
    assert(started =~= text@.subrange(from as int, to as int));
    while to > from && is_whitespace(chars[to - 1])
        invariant
            from <= to <= chars@.len(),
            chars@ == text@,
            trimmed_end(started) == trimmed_end(text@.subrange(from as int, to as int)),
        decreases to,
    {
        assert(text@.subrange(from as int, to as int).drop_last() =~= text@.subrange(
            from as int,
            to - 1,
        ));
        to -= 1;
    }
    text.substring_char(from, to)
}

/// Whether one text comes before another: at the first difference the smaller
/// character decides, and a text comes before its extensions.
pub open spec fn precedes(left: Seq<char>, right: Seq<char>) -> bool
    decreases left.len(),
{
    if right.len() == 0 {
        false
    } else if left.len() == 0 {
        true
    } else if left[0] != right[0] {
        (left[0] as int) < (right[0] as int)
    } else {
        precedes(left.subrange(1, left.len() as int), right.subrange(1, right.len() as int))
    }
}

fn char_below(left: char, right: char) -> (r: bool)
    ensures
        r == ((left as int) < (right as int)),
{
    (left as u32) < (right as u32)
}

/// Orders two texts.
pub fn comes_before(left: &str, right: &str) -> (r: bool)
    ensures
        r == precedes(left@, right@),
{
    let a = characters(left);
    let b = characters(right);
    let mut index: usize = 0;
    assert(a@.subrange(0, a@.len() as int) =~= a@);
    assert(b@.subrange(0, b@.len() as int) =~= b@);
    while index < a.len() && index < b.len() && a[index] == b[index]
        invariant
            index <= a@.len(),
            index <= b@.len(),
            a@ == left@,
            b@ == right@,
            precedes(left@, right@) == precedes(
                a@.subrange(index as int, a@.len() as int),
                b@.subrange(index as int, b@.len() as int),
            ),
        decreases a@.len() - index,
    {
        assert(a@.subrange(index as int, a@.len() as int).subrange(1, a@.len() - index)
            =~= a@.subrange(index + 1, a@.len() as int));
        assert(b@.subrange(index as int, b@.len() as int).subrange(1, b@.len() - index)
            =~= b@.subrange(index + 1, b@.len() as int));
        index += 1;
    }
    if index >= b.len() {
        false
    } else if index >= a.len() {
        true
    } else {
        char_below(a[index], b[index])
    }
}

/// Texts are ordered totally: of two different texts exactly one comes first.
pub proof fn precedes_is_total(left: Seq<char>, right: Seq<char>)
    ensures
        left == right ==> !precedes(left, right),
        left != right ==> (precedes(left, right) <==> !precedes(right, left)),
    decreases left.len(),
{
    if left.len() == 0 && right.len() == 0 {
        assert(left =~= right);
    } else if left.len() > 0 && right.len() > 0 {
        if left[0] == right[0] {
            let l = left.subrange(1, left.len() as int);
            let r = right.subrange(1, right.len() as int);
            precedes_is_total(l, r);
            assert(left =~= seq![left[0]] + l);
            assert(right =~= seq![right[0]] + r);
        }
    }
}

/// The order of texts is transitive.
pub proof fn precedes_is_transitive(a: Seq<char>, b: Seq<char>, c: Seq<char>)
    requires
        precedes(a, b),
        precedes(b, c),
    ensures
        precedes(a, c),
    decreases a.len(),
{
    if a.len() > 0 && b.len() > 0 && c.len() > 0 && a[0] == b[0] && b[0] == c[0] {
        precedes_is_transitive(
            a.subrange(1, a.len() as int),
            b.subrange(1, b.len() as int),
            c.subrange(1, c.len() as int),
        );
    }
}

/// The text before a suffix, if the text ends in it.
pub open spec fn without_suffix(text: Seq<char>, suffix: Seq<char>) -> Option<Seq<char>> {
    if suffix.len() <= text.len() && text.subrange(
        text.len() - suffix.len(),
        text.len() as int,
    ) == suffix {
        Some(text.subrange(0, text.len() - suffix.len()))
    } else {
        None
    }
}

/// Cuts a suffix off.
pub fn strip_suffix<'a>(text: &'a str, suffix: &str) -> (r: Option<&'a str>)
    ensures
        match (r, without_suffix(text@, suffix@)) {
            (Some(rest), Some(wanted)) => rest@ == wanted,
            (None, None) => true,
            _ => false,
        },
{
    let whole: usize = text.unicode_len();
    let cut: usize = suffix.unicode_len();
    if cut > whole {
        return None;
    }
    if same_text(text.substring_char(whole - cut, whole), suffix) {
        Some(text.substring_char(0, whole - cut))
    } else {
        None
    }
}

/// The text behind a prefix, if the text begins with it.
pub open spec fn without_prefix(text: Seq<char>, prefix: Seq<char>) -> Option<Seq<char>> {
    if prefix.len() <= text.len() && text.subrange(0, prefix.len() as int) == prefix {
        Some(text.subrange(prefix.len() as int, text.len() as int))
    } else {
        None
    }
}

/// Cuts a prefix off.
pub fn strip_prefix<'a>(text: &'a str, prefix: &str) -> (r: Option<&'a str>)
    ensures
        match (r, without_prefix(text@, prefix@)) {
            (Some(rest), Some(wanted)) => rest@ == wanted,
            (None, None) => true,
            _ => false,
        },
{
    let whole: usize = text.unicode_len();
    let cut: usize = prefix.unicode_len();
    if cut > whole {
        return None;
    }
    if same_text(text.substring_char(0, cut), prefix) {
        Some(text.substring_char(cut, whole))
    } else {
        None
    }
}

/// Whether a character is a decimal digit.
pub open spec fn is_digit(c: char) -> bool {
    0x30 <= c as int <= 0x39
}

/// The value of a sequence of digits.
pub open spec fn digits_value(text: Seq<char>) -> nat
    decreases text.len(),
{
    if text.len() == 0 {
        0
    } else {
        digits_value(text.drop_last()) * 10 + (text.last() as int - 0x30) as nat
    }
}

/// A text without the plus sign before it.
pub open spec fn unsigned(text: Seq<char>) -> Seq<char> {
    if text.len() > 0 && text[0] == '+' {
        text.subrange(1, text.len() as int)
    } else {
        text
    }
}

/// The number that a text writes: digits, at least one, with an optional plus
/// sign before them.
pub open spec fn number_value(text: Seq<char>) -> Option<nat> {
    let body = unsigned(text);
    if body.len() > 0 && (forall|i: int| 0 <= i < body.len() ==> is_digit(#[trigger] body[i])) {
        Some(digits_value(body))
    } else {
        None
    }
}

/// The number that a text writes, if it is at most `max`.
pub open spec fn number_up_to(text: Seq<char>, max: nat) -> Option<nat> {
    match number_value(text) {
        Some(n) => if n <= max {
            Some(n)
        } else {
            None
        },
        None => None,
    }
}

fn digit_of(c: char) -> (r: Option<u64>)
    ensures
        r == (if is_digit(c) {
            Some((c as int - 0x30) as u64)
        } else {
            None
        }),
{
    let n: u32 = c as u32;
    if 0x30 <= n && n <= 0x39 {
        Some((n - 0x30) as u64)
    } else {
        None
    }
}

/// Reads an unsigned number of at most `max`.
pub fn parse_wide(text: &str, max: u128) -> (r: Option<u128>)
    ensures
        match (r, number_up_to(text@, max as nat)) {
            (Some(actual), Some(wanted)) => actual == wanted,
            (None, None) => true,
            _ => false,
        },
{
    let whole: usize = text.unicode_len();
    let body = if whole > 0 && text.get_char(0) == '+' {
        text.substring_char(1, whole)
    } else {
        text
    };
    let chars = characters(body);
    if chars.len() == 0 {
        return None;
    }
    let mut value: u128 = 0;
    let mut fits = true;
    let mut index: usize = 0;
    while index < chars.len()
        invariant
            index <= chars@.len(),
            chars@ == unsigned(text@),
            forall|i: int| 0 <= i < index ==> is_digit(#[trigger] chars@[i]),
            fits ==> value == digits_value(chars@.take(index as int)) && value <= max,
            !fits ==> digits_value(chars@.take(index as int)) > max,
        decreases chars@.len() - index,
    {
        let digit: u128 = match digit_of(chars[index]) {
            Some(digit) => digit as u128,
            None => {
                assert(!is_digit(unsigned(text@)[index as int]));
                return None;
            },
        };
        proof {
            assert(chars@.take(index + 1).drop_last() =~= chars@.take(index as int));
            assert(chars@.take(index + 1).last() == chars@[index as int]);
        }
        if fits {
            if value > (u128::MAX - digit) / 10 || value * 10 + digit > max {
                fits = false;
            } else {
                value = value * 10 + digit;
            }
        }
        index += 1;
    }
    assert(chars@.take(chars@.len() as int) =~= chars@);
    if fits {
        Some(value)
    } else {
        None
    }
}

/// The place of the first character from `from` on that is no digit.
pub open spec fn digits_end(text: Seq<char>, from: int) -> int
    decreases text.len() - from,
{
    if from >= text.len() || !is_digit(text[from]) {
        from
    } else {
        digits_end(text, from + 1)
    }
}

/// Whether the digits that a text begins with, behind an optional plus sign,
/// write more than `max`, whatever follows them.
pub open spec fn begins_beyond(text: Seq<char>, max: nat) -> bool {
    let body = unsigned(text);
    digits_value(body.take(digits_end(body, 0))) > max
}

/// Whether the digits that a text begins with write more than `max`.
pub fn starts_beyond(text: &str, max: u128) -> (r: bool)
    ensures
        r == begins_beyond(text@, max as nat),
{
    let whole: usize = text.unicode_len();
    let body = if whole > 0 && text.get_char(0) == '+' {
        text.substring_char(1, whole)
    } else {
        text
    };
    let chars = characters(body);
    let mut value: u128 = 0;
    let mut index: usize = 0;
    while index < chars.len()
        invariant
            index <= chars@.len(),
            chars@ == unsigned(text@),
            digits_end(chars@, 0) == digits_end(chars@, index as int),
            value == digits_value(chars@.take(index as int)),
            value <= max,
        decreases chars@.len() - index,
    {
        let digit: u128 = match digit_of(chars[index]) {
            Some(digit) => digit as u128,
            None => return false,
        };
        proof {
            assert(chars@.take(index + 1).drop_last() =~= chars@.take(index as int));
            assert(chars@.take(index + 1).last() == chars@[index as int]);
        }
        if value > (u128::MAX - digit) / 10 || value * 10 + digit > max {
            proof {
                digits_end_fits(chars@, index + 1);
                leading_digits_grow(chars@, index + 1, digits_end(chars@, index + 1));
            }
            return true;
        }
        value = value * 10 + digit;
        index += 1;
    }
    false
}

proof fn digits_end_fits(text: Seq<char>, from: int)
    requires
        0 <= from <= text.len(),
    ensures
        from <= digits_end(text, from) <= text.len(),
        forall|i: int| from <= i < digits_end(text, from) ==> is_digit(#[trigger] text[i]),
    decreases text.len() - from,
{
    if from < text.len() && is_digit(text[from]) {
        digits_end_fits(text, from + 1);
    }
}

proof fn leading_digits_grow(text: Seq<char>, from: int, to: int)
    requires
        0 <= from <= to <= text.len(),
        forall|i: int| from <= i < to ==> is_digit(#[trigger] text[i]),
    ensures
        digits_value(text.take(from)) <= digits_value(text.take(to)),
    decreases to - from,
{
    if from < to {
        leading_digits_grow(text, from, to - 1);
        assert(text.take(to).drop_last() =~= text.take(to - 1));
        assert(text.take(to).last() == text[to - 1]);
        assert(is_digit(text[to - 1]));
    }
}

/// A text that writes a number begins beyond a limit exactly when the number is
/// beyond it.
pub proof fn numbers_beyond_begin_beyond(text: Seq<char>, max: nat)
    requires
        number_value(text) is Some,
    ensures
        begins_beyond(text, max) == (number_up_to(text, max) is None),
{
    let body = unsigned(text);
    digits_end_fits(body, 0);
    assert(digits_end(body, 0) == body.len()) by {
        if digits_end(body, 0) < body.len() {
            end_is_no_digit(body, 0);
            assert(is_digit(body[digits_end(body, 0)]));
        }
    }
    assert(body.take(body.len() as int) =~= body);
}

proof fn end_is_no_digit(text: Seq<char>, from: int)
    requires
        0 <= from <= text.len(),
    ensures
        digits_end(text, from) < text.len() ==> !is_digit(text[digits_end(text, from)]),
    decreases text.len() - from,
{
    if from < text.len() && is_digit(text[from]) {
        end_is_no_digit(text, from + 1);
    }
}

/// Reads an unsigned number of at most `max`.
pub fn parse_number(text: &str, max: u64) -> (r: Option<u64>)
    ensures
        match (r, number_up_to(text@, max as nat)) {
            (Some(actual), Some(wanted)) => actual == wanted,
            (None, None) => true,
            _ => false,
        },
{
    match parse_wide(text, max as u128) {
        Some(value) => Some(value as u64),
        None => None,
    }
}

/// The value of a hexadecimal digit.
pub open spec fn hex_digit(c: char) -> Option<nat> {
    let n = c as int;
    if 0x30 <= n <= 0x39 {
        Some((n - 0x30) as nat)
    } else if 0x41 <= n <= 0x46 {
        Some((n - 0x37) as nat)
    } else if 0x61 <= n <= 0x66 {
        Some((n - 0x57) as nat)
    } else {
        None
    }
}

/// The value of a sequence of hexadecimal digits.
pub open spec fn hex_digits_value(text: Seq<char>) -> nat
    decreases text.len(),
{
    if text.len() == 0 {
        0
    } else {
        hex_digits_value(text.drop_last()) * 16 + hex_digit(text.last())->0
    }
}

/// The number that a text writes in hexadecimal: digits, at least one, with an
/// optional plus sign before them; none above 64 bits.
pub open spec fn hex_value(text: Seq<char>) -> Option<u64> {
    let body = unsigned(text);
    if body.len() > 0 && (forall|i: int|
        0 <= i < body.len() ==> hex_digit(#[trigger] body[i]) is Some) && hex_digits_value(body)
        <= u64::MAX {
        Some(hex_digits_value(body) as u64)
    } else {
        None
    }
}

fn hex_digit_of(c: char) -> (r: Option<u64>)
    ensures
        match (r, hex_digit(c)) {
            (Some(actual), Some(wanted)) => actual == wanted && actual < 16,
            (None, None) => true,
            _ => false,
        },
{
    let n: u32 = c as u32;
    if 0x30 <= n && n <= 0x39 {
        Some((n - 0x30) as u64)
    } else if 0x41 <= n && n <= 0x46 {
        Some((n - 0x37) as u64)
    } else if 0x61 <= n && n <= 0x66 {
        Some((n - 0x57) as u64)
    } else {
        None
    }
}

/// Reads a hexadecimal number of at most 64 bits.
pub fn parse_hex(text: &str) -> (r: Option<u64>)
    ensures
        r == hex_value(text@),
{
    let whole: usize = text.unicode_len();
    let body = if whole > 0 && text.get_char(0) == '+' {
        text.substring_char(1, whole)
    } else {
        text
    };
    let chars = characters(body);
    if chars.len() == 0 {
        return None;
    }
    let mut value: u64 = 0;
    let mut fits = true;
    let mut index: usize = 0;
    while index < chars.len()
        invariant
            index <= chars@.len(),
            chars@ == unsigned(text@),
            forall|i: int| 0 <= i < index ==> hex_digit(#[trigger] chars@[i]) is Some,
            fits ==> value == hex_digits_value(chars@.take(index as int)),
            !fits ==> hex_digits_value(chars@.take(index as int)) > u64::MAX,
        decreases chars@.len() - index,
    {
        let digit: u64 = match hex_digit_of(chars[index]) {
            Some(digit) => digit,
            None => {
                assert(hex_digit(unsigned(text@)[index as int]) is None);
                return None;
            },
        };
        proof {
            assert(chars@.take(index + 1).drop_last() =~= chars@.take(index as int));
            assert(chars@.take(index + 1).last() == chars@[index as int]);
        }
        if fits {
            if value > 0x0fff_ffff_ffff_ffff {
                fits = false;
            } else {
                value = value * 16 + digit;
            }
        }
        index += 1;
    }
    assert(chars@.take(chars@.len() as int) =~= chars@);
    if fits {
        Some(value)
    } else {
        None
    }
}

/// The first place of a character from `from` on; the length where it does not
/// occur.
pub open spec fn place_of(text: Seq<char>, c: char, from: int) -> int
    decreases text.len() - from,
{
    if from >= text.len() {
        text.len() as int
    } else if text[from] == c {
        from
    } else {
        place_of(text, c, from + 1)
    }
}

proof fn place_lies_ahead(text: Seq<char>, c: char, from: int)
    requires
        0 <= from <= text.len(),
    ensures
        from <= place_of(text, c, from) <= text.len(),
        place_of(text, c, from) < text.len() ==> text[place_of(text, c, from)] == c,
    decreases text.len() - from,
{
    if from < text.len() && text[from] != c {
        place_lies_ahead(text, c, from + 1);
    }
}

fn find_char(chars: &Vec<char>, c: char, from: usize) -> (r: usize)
    requires
        from <= chars@.len(),
    ensures
        r == place_of(chars@, c, from as int),
        from <= r <= chars@.len(),
{
    let mut at: usize = from;
    while at < chars.len() && chars[at] != c
        invariant
            from <= at <= chars@.len(),
            place_of(chars@, c, from as int) == place_of(chars@, c, at as int),
        decreases chars@.len() - at,
    {
        at += 1;
    }
    at
}

/// The parts before and behind the first occurrence of a character.
pub open spec fn split_at_first(text: Seq<char>, c: char) -> Option<(Seq<char>, Seq<char>)> {
    let at = place_of(text, c, 0);
    if at < text.len() {
        Some((text.subrange(0, at), text.subrange(at + 1, text.len() as int)))
    } else {
        None
    }
}

/// Splits a text at the first occurrence of a character.
pub fn split_once(text: &str, c: char) -> (r: Option<(&str, &str)>)
    ensures
        match (r, split_at_first(text@, c)) {
            (Some((before, behind)), Some(wanted)) => (before@, behind@) == wanted,
            (None, None) => true,
            _ => false,
        },
{
    let chars = characters(text);
    let at: usize = find_char(&chars, c, 0);
    if at < chars.len() {
        Some((text.substring_char(0, at), text.substring_char(at + 1, chars.len())))
    } else {
        None
    }
}

/// A line without the carriage return at its end.
pub open spec fn without_return(line: Seq<char>) -> Seq<char> {
    if line.len() > 0 && line.last() == '\r' {
        line.drop_last()
    } else {
        line
    }
}

/// The lines of a text from `from` on. A line ends at a line feed, which may
/// follow a carriage return; the last one may lack it.
pub open spec fn lines_from(text: Seq<char>, from: int) -> Seq<Seq<char>>
    decreases text.len() - from,
{
    if from < 0 || from >= text.len() {
        Seq::empty()
    } else {
        let at = place_of(text, '\n', from);
        if at >= text.len() {
            seq![text.subrange(from, text.len() as int)]
        } else if at < from {
            Seq::empty()
        } else {
            seq![without_return(text.subrange(from, at))] + lines_from(text, at + 1)
        }
    }
}

/// The views of a list of text slices.
pub open spec fn slices(list: Seq<&str>) -> Seq<Seq<char>> {
    list.map_values(|text: &str| text@)
}

/// Splits a text into its lines.
pub fn lines(text: &str) -> (r: Vec<&str>)
    ensures
        slices(r@) == lines_from(text@, 0),
{
    let chars = characters(text);
    let mut out: Vec<&str> = Vec::new();
    let mut from: usize = 0;
    assert(slices(out@) + lines_from(text@, 0) =~= lines_from(text@, 0));
    while from < chars.len()
        invariant
            from <= chars@.len(),
            chars@ == text@,
            slices(out@) + lines_from(text@, from as int) == lines_from(text@, 0),
        decreases chars@.len() - from,
    {
        let at: usize = find_char(&chars, '\n', from);
        let ghost before = slices(out@);
        if at >= chars.len() {
            let last = text.substring_char(from, chars.len());
            out.push(last);
            assert(slices(out@) =~= before.push(last@));
            assert(lines_from(text@, from as int) =~= seq![last@]);
            assert(before.push(last@) =~= before + seq![last@]);
            return out;
        }
        let end: usize = if at > from && chars[at - 1] == '\r' {
            at - 1
        } else {
            at
        };
        let line = text.substring_char(from, end);
        assert(line@ =~= without_return(text@.subrange(from as int, at as int)));
        out.push(line);
        assert(slices(out@) =~= before.push(line@));
        assert(before.push(line@) + lines_from(text@, at + 1) =~= before + (seq![line@]
            + lines_from(text@, at + 1)));
        from = at + 1;
    }
    assert(slices(out@) + lines_from(text@, from as int) =~= slices(out@));
    out
}

/// How `Debug` writes a text: in quotation marks and escaped.
pub uninterp spec fn quoted_text(text: Seq<char>) -> Seq<char>;

/// Calls `<str as core::fmt::Debug>::fmt`. The result is the text in quotation
/// marks with its special characters escaped.
#[verifier::external_body]
pub(crate) fn quoted(text: &str) -> (r: String)
    ensures
        r@ == quoted_text(text@),
{
    format!("{text:?}")
}

/// Cuts the white space off the end.
pub fn trim_end(text: &str) -> (r: &str)
    ensures
        r@ == trimmed_end(text@),
{
    let chars = characters(text);
    let mut to: usize = chars.len();
    assert(text@.subrange(0, to as int) =~= text@);
    while to > 0 && is_whitespace(chars[to - 1])
        invariant
            to <= chars@.len(),
            chars@ == text@,
            trimmed_end(text@) == trimmed_end(text@.subrange(0, to as int)),
        decreases to,
    {
        assert(text@.subrange(0, to as int).drop_last() =~= text@.subrange(0, to - 1));
        to -= 1;
    }
    text.substring_char(0, to)
}

/// The place of a text in a list from `from` on; the length where it is not in
/// it.
pub open spec fn place_in(list: Seq<String>, text: Seq<char>, from: int) -> int
    decreases list.len() - from,
{
    if from >= list.len() {
        list.len() as int
    } else if list[from]@ == text {
        from
    } else {
        place_in(list, text, from + 1)
    }
}

/// Finds a text in a list.
pub fn find_text(list: &Vec<String>, text: &str) -> (r: usize)
    ensures
        r == place_in(list@, text@, 0),
        r <= list@.len(),
{
    let mut at: usize = 0;
    while at < list.len() && !same_text(list[at].as_str(), text)
        invariant
            at <= list@.len(),
            place_in(list@, text@, 0) == place_in(list@, text@, at as int),
        decreases list@.len() - at,
    {
        at += 1;
    }
    at
}

/// Whether a list holds a text.
pub open spec fn holds_text(list: Seq<String>, text: Seq<char>) -> bool {
    exists|i: int| 0 <= i < list.len() && (#[trigger] list[i])@ == text
}

/// Whether a list holds a text.
pub fn has_text(list: &Vec<String>, text: &str) -> (r: bool)
    ensures
        r == holds_text(list@, text@),
{
    let mut at: usize = 0;
    while at < list.len()
        invariant
            at <= list@.len(),
            forall|i: int| 0 <= i < at ==> (#[trigger] list@[i])@ != text@,
        decreases list@.len() - at,
    {
        if same_text(list[at].as_str(), text) {
            return true;
        }
        at += 1;
    }
    false
}

/// The texts of a list.
pub open spec fn texts(list: Seq<String>) -> Seq<Seq<char>> {
    list.map_values(|text: String| text@)
}

/// An optional text as a value.
pub open spec fn optional_text(text: Option<String>) -> Option<Seq<char>> {
    match text {
        Some(value) => Some(value@),
        None => None,
    }
}

/// Appends a text to a list.
pub fn push_text(list: &mut Vec<String>, text: &str)
    ensures
        texts(final(list)@) == texts(old(list)@).push(text@),
{
    list.push(text.to_owned());
    assert(texts(list@) =~= texts(old(list)@).push(text@));
}

/// Copies a list of texts.
pub fn copy_texts(list: &Vec<String>) -> (r: Vec<String>)
    ensures
        texts(r@) == texts(list@),
        r@.len() == list@.len(),
{
    let mut out: Vec<String> = Vec::new();
    let mut index: usize = 0;
    while index < list.len()
        invariant
            index <= list@.len(),
            out@.len() == index,
            forall|i: int| 0 <= i < index ==> (#[trigger] out@[i])@ == list@[i]@,
        decreases list@.len() - index,
    {
        out.push(list[index].clone());
        index += 1;
    }
    assert(texts(out@) =~= texts(list@));
    out
}

} // verus!
