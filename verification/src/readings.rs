//! What the texts of times and bandwidths mean.

use vstd::prelude::*;
use vstd::string::*;
use crate::duration::Duration;
use crate::editing::{digits_are_digits, written_numbers_are_read_back};
use crate::options::{
    bandwidth_reading, bandwidth_units, duration_reading, duration_units, unit_split,
};
use crate::text::{digits, without_suffix};

verus! {

proof fn suffixes_come_off(number: Seq<char>, unit: Seq<char>)
    ensures
        without_suffix(number + unit, unit) == Some(number),
{
    let text = number + unit;
    assert(text.subrange(text.len() - unit.len(), text.len() as int) =~= unit);
    assert(text.subrange(0, text.len() - unit.len()) =~= number);
}

/// A written time means its number in its unit: milliseconds, seconds or
/// minutes, as long as the milliseconds fit.
pub proof fn times_count_their_units(n: nat)
    ensures
        n <= u64::MAX ==> duration_reading(digits(n) + "ms"@) == Ok::<Duration, Seq<char>>(
            Duration { nanos: (n * 1_000_000) as u128 },
        ),
        n * 1_000 <= u64::MAX ==> duration_reading(digits(n) + "s"@) == Ok::<Duration, Seq<char>>(
            Duration { nanos: (n * 1_000_000_000) as u128 },
        ),
        n * 60_000 <= u64::MAX ==> duration_reading(digits(n) + "m"@) == Ok::<Duration, Seq<char>>(
            Duration { nanos: (n * 60_000_000_000) as u128 },
        ),
        n <= u64::MAX && n * 1_000 > u64::MAX ==> duration_reading(digits(n) + "s"@) is Err,
        n <= u64::MAX && n * 60_000 > u64::MAX ==> duration_reading(digits(n) + "m"@) is Err,
{
    reveal_strlit("ms");
    reveal_strlit("s");
    reveal_strlit("m");
    let number = digits(n);
    digits_are_digits(n);
    if n <= u64::MAX {
        written_numbers_are_read_back(n, u64::MAX as nat);
    }
    let units = duration_units();
    reveal_with_fuel(unit_split, 4);
    suffixes_come_off(number, "ms"@);
    suffixes_come_off(number, "s"@);
    suffixes_come_off(number, "m"@);
    assert(unit_split(number + "ms"@, units, 0) == Some((number, 1u64)));
    if n <= u64::MAX {
        assert(n * 1u64 == n) by (nonlinear_arith);
        assert(duration_reading(number + "ms"@) == Ok::<Duration, Seq<char>>(
            Duration::of_millis(n as u64),
        ));
    }
    let seconds = number + "s"@;
    assert(without_suffix(seconds, "ms"@) is None) by {
        let end = seconds.subrange(seconds.len() - 2, seconds.len() as int);
        assert(end[0] == number[number.len() - 1]);
        assert("ms"@[0] == 'm');
    }
    let minutes = number + "m"@;
    assert(without_suffix(minutes, "ms"@) is None) by {
        let end = minutes.subrange(minutes.len() - 2, minutes.len() as int);
        assert(end[1] == 'm');
        assert("ms"@[1] == 's');
    }
    assert(without_suffix(minutes, "s"@) is None) by {
        let end = minutes.subrange(minutes.len() - 1, minutes.len() as int);
        assert(end[0] == 'm');
        assert("s"@[0] == 's');
    }
}

/// A written bandwidth means its number of thousands, millions or thousand
/// millions of bits per second, and is never zero.
pub proof fn bandwidths_count_their_units(n: nat)
    ensures
        0 < n * 1_000 <= u64::MAX ==> bandwidth_reading(digits(n) + "kbit"@) == Ok::<
            u64,
            Seq<char>,
        >((n * 1_000) as u64),
        0 < n * 1_000_000 <= u64::MAX ==> bandwidth_reading(digits(n) + "mbit"@) == Ok::<
            u64,
            Seq<char>,
        >((n * 1_000_000) as u64),
        0 < n * 1_000_000_000 <= u64::MAX ==> bandwidth_reading(digits(n) + "gbit"@) == Ok::<
            u64,
            Seq<char>,
        >((n * 1_000_000_000) as u64),
        bandwidth_reading(digits(0) + "kbit"@) is Err,
        bandwidth_reading(digits(0) + "mbit"@) is Err,
        bandwidth_reading(digits(0) + "gbit"@) is Err,
        forall|text: Seq<char>|
            (#[trigger] bandwidth_reading(text)) is Ok ==> bandwidth_reading(text)->Ok_0 > 0,
{
    reveal_strlit("kbit");
    reveal_strlit("mbit");
    reveal_strlit("gbit");
    let number = digits(n);
    if n <= u64::MAX {
        written_numbers_are_read_back(n, u64::MAX as nat);
    }
    written_numbers_are_read_back(0, u64::MAX as nat);
    reveal_with_fuel(unit_split, 4);
    bit_units_differ(number);
    bit_units_differ(digits(0));
    assert forall|text: Seq<char>|
        (#[trigger] bandwidth_reading(text)) is Ok implies bandwidth_reading(text)->Ok_0 > 0 by {
        unit_counts(text, 0);
    }
}

proof fn unit_counts(text: Seq<char>, from: int)
    requires
        0 <= from <= 3,
    ensures
        unit_split(text, bandwidth_units(), from) matches Some((_, counts)) ==> counts >= 1_000,
    decreases 3 - from,
{
    if from < 3 {
        unit_counts(text, from + 1);
    }
}

proof fn bit_units_differ(number: Seq<char>)
    ensures
        unit_split(number + "kbit"@, bandwidth_units(), 0) == Some((number, 1_000u64)),
        unit_split(number + "mbit"@, bandwidth_units(), 0) == Some((number, 1_000_000u64)),
        unit_split(number + "gbit"@, bandwidth_units(), 0) == Some((number, 1_000_000_000u64)),
{
    reveal_strlit("kbit");
    reveal_strlit("mbit");
    reveal_strlit("gbit");
    reveal_with_fuel(unit_split, 4);
    suffixes_come_off(number, "kbit"@);
    suffixes_come_off(number, "mbit"@);
    suffixes_come_off(number, "gbit"@);
    let m = number + "mbit"@;
    let g = number + "gbit"@;
    assert(without_suffix(m, "kbit"@) is None) by {
        assert(m.subrange(m.len() - 4, m.len() as int)[0] == 'm');
        assert("kbit"@[0] == 'k');
    }
    assert(without_suffix(g, "kbit"@) is None) by {
        assert(g.subrange(g.len() - 4, g.len() as int)[0] == 'g');
        assert("kbit"@[0] == 'k');
    }
    assert(without_suffix(g, "mbit"@) is None) by {
        assert(g.subrange(g.len() - 4, g.len() as int)[0] == 'g');
        assert("mbit"@[0] == 'm');
    }
}

} // verus!
