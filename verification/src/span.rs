//! Texts of spans of time such as `1h 12min 5s`: what their numbers and units
//! add up to.
use crate::duration::MAX_NANOS;
use crate::text;
use vstd::prelude::*;

verus! {

broadcast use vstd::string::group_string_axioms;

// ---- numbers and units ----

/// Whether a character can stand in the name of a unit: a letter or the micro
/// sign.
pub open spec fn unit_letter(c: char) -> bool {
    'a' <= c <= 'z' || 'A' <= c <= 'Z' || c == '\u{b5}'
}

/// The nanoseconds of the longest unit, a year.
pub const YEAR: u64 = 31_557_600_000_000_000;

/// The nanoseconds of a unit by its name. Nothing is measured without a name,
/// and a name that is no unit weighs as much as the longest unit.
pub open spec fn unit_nanos(name: Seq<char>) -> u64 {
    if name.len() == 0 {
        0
    } else if name == "ns"@ || name == "nsec"@ || name == "nanos"@ {
        1
    } else if name == "us"@ || name == "usec"@ || name == "\u{b5}s"@ {
        1_000
    } else if name == "ms"@ || name == "msec"@ || name == "millis"@ {
        1_000_000
    } else if name == "s"@ || name == "sec"@ || name == "secs"@ || name == "second"@ || name
        == "seconds"@ {
        1_000_000_000
    } else if name == "m"@ || name == "min"@ || name == "mins"@ || name == "minute"@ || name
        == "minutes"@ {
        60_000_000_000
    } else if name == "h"@ || name == "hr"@ || name == "hrs"@ || name == "hour"@ || name
        == "hours"@ {
        3_600_000_000_000
    } else if name == "d"@ || name == "day"@ || name == "days"@ {
        86_400_000_000_000
    } else if name == "w"@ || name == "wk"@ || name == "wks"@ || name == "week"@ || name
        == "weeks"@ {
        604_800_000_000_000
    } else if name == "M"@ || name == "month"@ || name == "months"@ {
        2_630_016_000_000_000
    } else {
        YEAR
    }
}

/// The name of a unit behind the last digit of `s`. Words that something stands
/// between are kept apart by a blank.
pub open spec fn unit_name(s: Seq<char>) -> Seq<char>
    decreases s.len(),
{
    if s.len() == 0 || text::is_digit(s.last()) {
        Seq::empty()
    } else {
        let before = s.drop_last();
        let name = unit_name(before);
        if !unit_letter(s.last()) {
            name
        } else if name.len() == 0 || unit_letter(before.last()) {
            name.push(s.last())
        } else {
            name.push(' ').push(s.last())
        }
    }
}

/// Whether a decimal point stands in the last number of `s`, or behind it.
pub open spec fn pointed(s: Seq<char>) -> bool
    decreases s.len(),
{
    if s.len() == 0 {
        false
    } else if s.last() == '.' {
        true
    } else if text::is_digit(s.last()) && unit_name(s.drop_last()).len() > 0 {
        false
    } else {
        pointed(s.drop_last())
    }
}

/// The last number of `s`, whose digits no unit parts, without the digits behind
/// a decimal point.
pub open spec fn last_number(s: Seq<char>) -> nat
    decreases s.len(),
{
    if s.len() == 0 {
        0
    } else if !text::is_digit(s.last()) {
        last_number(s.drop_last())
    } else {
        let digit = (s.last() as nat - '0' as nat) as nat;
        if unit_name(s.drop_last()).len() > 0 {
            digit
        } else if pointed(s.drop_last()) {
            last_number(s.drop_last())
        } else {
            10 * last_number(s.drop_last()) + digit
        }
    }
}

/// The nanoseconds of the numbers of `s` that another number follows.
pub open spec fn nanos_before(s: Seq<char>) -> nat
    decreases s.len(), 0nat,
{
    if s.len() == 0 {
        0
    } else if text::is_digit(s.last()) && unit_name(s.drop_last()).len() > 0 {
        span_nanos(s.drop_last())
    } else {
        nanos_before(s.drop_last())
    }
}

/// The last number of `s` without a fraction: one more, where it has one.
pub open spec fn rounded_up(s: Seq<char>) -> nat {
    if pointed(s) {
        last_number(s) + 1
    } else {
        last_number(s)
    }
}

/// The nanoseconds that the numbers of `s` and their units add up to, each
/// number with a fraction taken for the next larger one without.
pub open spec fn span_nanos(s: Seq<char>) -> nat
    decreases s.len(), 1nat,
{
    nanos_before(s) + rounded_up(s) * unit_nanos(unit_name(s)) as nat
}

/// Whether there is no number in `s` behind the name of a unit.
pub open spec fn one_number(s: Seq<char>) -> bool {
    forall|i: int, j: int|
        #![trigger unit_letter(s[i]), text::is_digit(s[j])]
        0 <= i < j < s.len() && unit_letter(s[i]) ==> !text::is_digit(s[j])
}

/// Whether no part of `s`, up to any character, adds up to the shortest span
/// that is too long. A decimal point leaves open what is added up.
pub open spec fn passes_limit(s: Seq<char>) -> bool {
    &&& forall|i: int| 0 <= i < s.len() ==> #[trigger] s[i] != '.'
    &&& forall|i: int| 0 <= i <= s.len() ==> span_nanos(#[trigger] s.take(i)) != MAX_NANOS + 1
}

/// Whether adding up the span that `s` spells cannot come, number by number, to
/// exactly the shortest span that is too long: nothing is added to one number,
/// the numbers add up to a shorter span, or they pass over that span.
pub open spec fn adds_up(s: Seq<char>) -> bool {
    one_number(s) || span_nanos(s) <= MAX_NANOS || passes_limit(s)
}

// ---- adding up ----

/// Two nanoseconds more than the longest span: larger numbers need not be told
/// apart.
const CAP: u128 = 18_446_744_073_709_551_616_000_000_001;

/// Whether `n` stands for `m`: it is `m`, or both reach the cap.
spec fn stands_for(n: u128, m: nat) -> bool {
    n == (if m <= CAP {
        m
    } else {
        CAP as nat
    })
}

fn is_named(name: &Vec<char>, unit: &str) -> (r: bool)
    ensures
        r == (name@ == unit@),
{
    let v = text::chars_of(unit);
    if name.len() != v.len() {
        return false;
    }
    let mut i: usize = 0;
    while i < v.len()
        invariant
            i <= v.len(),
            v@ == unit@,
            name@.len() == v@.len(),
            forall|j: int| 0 <= j < i ==> name@[j] == v@[j],
        decreases v.len() - i,
    {
        if name[i] != v[i] {
            assert(name@[i as int] != unit@[i as int]);
            return false;
        }
        i += 1;
    }
    assert(name@ =~= unit@);
    true
}

fn nanos_of_unit(name: &Vec<char>) -> (r: u64)
    ensures
        r == unit_nanos(name@),
{
    if name.len() == 0 {
        0
    } else if is_named(name, "ns") || is_named(name, "nsec") || is_named(name, "nanos") {
        1
    } else if is_named(name, "us") || is_named(name, "usec") || is_named(name, "\u{b5}s") {
        1_000
    } else if is_named(name, "ms") || is_named(name, "msec") || is_named(name, "millis") {
        1_000_000
    } else if is_named(name, "s") || is_named(name, "sec") || is_named(name, "secs") || is_named(
        name,
        "second",
    ) || is_named(name, "seconds") {
        1_000_000_000
    } else if is_named(name, "m") || is_named(name, "min") || is_named(name, "mins") || is_named(
        name,
        "minute",
    ) || is_named(name, "minutes") {
        60_000_000_000
    } else if is_named(name, "h") || is_named(name, "hr") || is_named(name, "hrs") || is_named(
        name,
        "hour",
    ) || is_named(name, "hours") {
        3_600_000_000_000
    } else if is_named(name, "d") || is_named(name, "day") || is_named(name, "days") {
        86_400_000_000_000
    } else if is_named(name, "w") || is_named(name, "wk") || is_named(name, "wks") || is_named(
        name,
        "week",
    ) || is_named(name, "weeks") {
        604_800_000_000_000
    } else if is_named(name, "M") || is_named(name, "month") || is_named(name, "months") {
        2_630_016_000_000_000
    } else {
        YEAR
    }
}

/// `before` and `number` units of `unit` nanoseconds, up to the cap.
fn add_capped(before: u128, number: u128, unit: u64, Ghost(b): Ghost<nat>, Ghost(n): Ghost<nat>) -> (r:
    u128)
    requires
        stands_for(before, b),
        stands_for(number, n),
    ensures
        stands_for(r, b + n * unit as nat),
{
    if unit == 0 {
        assert(n * unit as nat == 0) by (nonlinear_arith)
            requires
                unit == 0,
        ;
        return before;
    }
    let unit: u128 = unit as u128;
    if number > CAP / unit {
        assert(n * unit >= CAP) by (nonlinear_arith)
            requires
                n >= number,
                number >= CAP / unit as u128 + 1,
                unit >= 1,
        ;
        return CAP;
    }
    assert(number * unit <= CAP) by (nonlinear_arith)
        requires
            number <= CAP / unit as u128,
            unit >= 1,
    ;
    assert(number == CAP && n > CAP ==> n * unit >= CAP && number * unit >= CAP)
        by (nonlinear_arith)
        requires
            unit >= 1,
    ;
    let sum: u128 = before + number * unit;
    if sum > CAP {
        CAP
    } else {
        sum
    }
}

/// Whether a text can be read as a span of time: adding it up does not come to
/// exactly the shortest span that is too long.
pub fn span_adds_up(s: &str) -> (r: bool)
    ensures
        r == adds_up(s@),
{
    let v = text::chars_of(s);
    let mut name: Vec<char> = Vec::new();
    let mut number: u128 = 0;
    let mut fraction: bool = false;
    let mut before: u128 = 0;
    let mut span: u128 = 0;
    let mut lettered: bool = false;
    let mut one: bool = true;
    let mut has_point: bool = false;
    let mut met: bool = false;
    let mut i: usize = 0;
    assert(v@.take(0) =~= Seq::<char>::empty());
    while i < v.len()
        invariant
            i <= v.len(),
            v@ == s@,
            name@ == unit_name(v@.take(i as int)),
            stands_for(number, last_number(v@.take(i as int))),
            fraction == pointed(v@.take(i as int)),
            stands_for(before, nanos_before(v@.take(i as int))),
            stands_for(span, span_nanos(v@.take(i as int))),
            lettered == (exists|j: int| 0 <= j < i && unit_letter(v@[j])),
            one == one_number(v@.take(i as int)),
            has_point == (exists|j: int| 0 <= j < i && v@[j] == '.'),
            met == (exists|j: int|
                0 <= j <= i && span_nanos(#[trigger] v@.take(j)) == MAX_NANOS + 1),
        decreases v.len() - i,
    {
        let c = v[i];
        let ghost was = v@.take(i as int);
        let ghost now = v@.take(i + 1);
        proof {
            assert(now.drop_last() == was);
            assert(now.last() == c);
            assert forall|j: int| 0 <= j < i implies now[j] == was[j] by {}
        }
        if '0' <= c && c <= '9' {
            let digit: u128 = (c as u32 - '0' as u32) as u128;
            if name.len() > 0 {
                before = span;
                number = digit;
                fraction = false;
                name = Vec::new();
            } else if !fraction {
                number = 10 * number + digit;
                if number > CAP {
                    number = CAP;
                }
            }
            if lettered {
                proof {
                    let k = choose|j: int| 0 <= j < i && unit_letter(v@[j]);
                    assert(unit_letter(now[k]) && text::is_digit(now[i as int]));
                }
                one = false;
            }
        } else if ('a' <= c && c <= 'z') || ('A' <= c && c <= 'Z') || c == '\u{b5}' {
            if name.len() > 0 && i > 0 {
                let p = v[i - 1];
                assert(was.last() == p);
                if !(('a' <= p && p <= 'z') || ('A' <= p && p <= 'Z') || p == '\u{b5}') {
                    name.push(' ');
                }
            }
            name.push(c);
            lettered = true;
            assert(unit_letter(v@[i as int]));
        } else if c == '.' {
            fraction = true;
            has_point = true;
            assert(v@[i as int] == '.');
        }
        let unit: u64 = nanos_of_unit(&name);
        let whole: u128 = if fraction && number < CAP {
            number + 1
        } else {
            number
        };
        span = add_capped(
            before,
            whole,
            unit,
            Ghost(nanos_before(now)),
            Ghost(rounded_up(now)),
        );
        if span == MAX_NANOS + 1 {
            met = true;
            assert(span_nanos(v@.take(i + 1)) == MAX_NANOS + 1);
        }
        i += 1;
    }
    assert(v@.take(i as int) =~= s@);
    one || span <= MAX_NANOS || (!has_point && !met)
}

} // verus!
