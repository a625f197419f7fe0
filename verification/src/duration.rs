//! Lengths of time on the command line.

use crate::text::{
    chars_of, decimal, is_alpha, is_alpha_char, is_digit_char, law_decimal_reads_back,
    law_numbers_read_back, law_only_digits_are_numbers, parse_unsigned, string_of, unsigned_value,
};
use vstd::prelude::*;

verus! {

/// How many seconds a unit has.
pub open spec fn unit_seconds(unit: char) -> Option<nat> {
    if unit == 's' {
        Some(1)
    } else if unit == 'm' {
        Some(60)
    } else if unit == 'h' {
        Some(3600)
    } else {
        None
    }
}

/// A text without its unit: a letter at its end.
pub open spec fn amount_text(s: Seq<char>) -> Seq<char> {
    if s.len() > 0 && is_alpha_char(s.last()) {
        s.drop_last()
    } else {
        s
    }
}

/// The unit of a text, seconds where it has none.
pub open spec fn unit_of(s: Seq<char>) -> char {
    if s.len() > 0 && is_alpha_char(s.last()) {
        s.last()
    } else {
        's'
    }
}

/// The seconds of a duration, or what is wrong with it.
pub open spec fn duration_of(s: Seq<char>) -> Result<nat, Seq<char>> {
    let amount = unsigned_value(amount_text(s), u64::MAX as nat);
    let unit = unit_seconds(unit_of(s));
    if amount is None {
        Err("'"@ + s + "' is not a duration like 90m"@)
    } else if unit is None {
        Err("'"@ + s + "': the unit must be s, m or h"@)
    } else if amount->0 * unit->0 == 0 || amount->0 * unit->0 > u64::MAX {
        Err("'"@ + s + "' is out of range"@)
    } else {
        Ok(amount->0 * unit->0)
    }
}

fn complaint(s: &str, what: &str) -> (r: String)
    ensures
        r@ == "'"@ + s@ + what@,
{
    let mut r = "'".to_owned();
    r.append(s);
    r.append(what);
    r
}

/// "90m", "2h", "300s" or "300" (seconds).
pub fn parse_duration(s: &str) -> (r: Result<u64, String>)
    ensures
        match r {
            Ok(secs) => duration_of(s@) == Ok::<nat, Seq<char>>(secs as nat),
            Err(e) => duration_of(s@) == Err::<nat, Seq<char>>(e@),
        },
{
    let v = chars_of(s);
    let has_unit = v.len() > 0 && is_alpha(v[v.len() - 1]);
    let unit: char = if has_unit {
        v[v.len() - 1]
    } else {
        's'
    };
    let end: usize = if has_unit {
        v.len() - 1
    } else {
        v.len()
    };
    let amount = string_of(&v, 0, end);
    assert(amount@ =~= amount_text(s@));
    let n: u64 = match parse_unsigned(amount.as_str(), u64::MAX) {
        Some(n) => n,
        None => {
            return Err(complaint(s, "' is not a duration like 90m"));
        },
    };
    let secs: Option<u64> = match unit {
        's' => Some(n),
        'm' => n.checked_mul(60),
        'h' => n.checked_mul(3600),
        _ => {
            return Err(complaint(s, "': the unit must be s, m or h"));
        },
    };
    proof {
        let k = unit_seconds(unit)->0;
        let a = n as nat;
        assert(k == 1 ==> a * k == a) by (nonlinear_arith);
        assert(k == 60 ==> a * k == a * 60) by (nonlinear_arith);
        assert(k == 3600 ==> a * k == a * 3600) by (nonlinear_arith);
    }
    match secs {
        Some(secs) if secs != 0 => Ok(secs),
        _ => Err(complaint(s, "' is out of range")),
    }
}

/// A duration is never empty.
pub proof fn law_durations_are_positive(s: Seq<char>)
    ensures
        duration_of(s) is Ok ==> 0 < duration_of(s)->Ok_0 <= u64::MAX,
{
}

/// A number of seconds, minutes or hours is that long, where that is any
/// time at all and fits; a bare number is one of seconds.
pub proof fn law_durations_are_units_of_time(n: nat)
    requires
        n <= u64::MAX,
    ensures
        n > 0 ==> duration_of(decimal(n)) == Ok::<nat, Seq<char>>(n),
        n > 0 ==> duration_of(decimal(n).push('s')) == Ok::<nat, Seq<char>>(n),
        n > 0 && n * 60 <= u64::MAX ==> duration_of(decimal(n).push('m')) == Ok::<nat, Seq<char>>(
            n * 60,
        ),
        n > 0 && n * 3600 <= u64::MAX ==> duration_of(decimal(n).push('h')) == Ok::<
            nat,
            Seq<char>,
        >(n * 3600),
        n == 0 ==> duration_of(decimal(n)) == Err::<nat, Seq<char>>(
            "'"@ + decimal(n) + "' is out of range"@,
        ),
        n == 0 || n * 60 > u64::MAX ==> duration_of(decimal(n).push('m')) == Err::<nat, Seq<char>>(
            "'"@ + decimal(n).push('m') + "' is out of range"@,
        ),
        n == 0 || n * 3600 > u64::MAX ==> duration_of(decimal(n).push('h')) == Err::<
            nat,
            Seq<char>,
        >("'"@ + decimal(n).push('h') + "' is out of range"@),
{
    law_numbers_read_back(n, u64::MAX as nat);
    law_decimal_reads_back(n);
    let d = decimal(n);
    assert(is_digit_char(d[d.len() - 1]));
    assert(d.push('s').drop_last() =~= d);
    assert(d.push('m').drop_last() =~= d);
    assert(d.push('h').drop_last() =~= d);
    assert(n * 1 == n) by (nonlinear_arith);
}

/// Any other unit, and anything that is no number, is refused, with the text
/// as it was given.
pub proof fn law_other_durations_are_refused(s: Seq<char>, n: nat, unit: char)
    requires
        n <= u64::MAX,
        ('a' <= unit && unit <= 'z') || ('A' <= unit && unit <= 'Z'),
        unit != 's' && unit != 'm' && unit != 'h',
    ensures
        duration_of(decimal(n).push(unit)) == Err::<nat, Seq<char>>(
            "'"@ + decimal(n).push(unit) + "': the unit must be s, m or h"@,
        ),
        s.len() == 0 ==> duration_of(s) == Err::<nat, Seq<char>>(
            "'"@ + s + "' is not a duration like 90m"@,
        ),
        s.len() > 0 && s[0] != '+' && !('0' <= s[0] && s[0] <= '9') ==> duration_of(s) == Err::<
            nat,
            Seq<char>,
        >("'"@ + s + "' is not a duration like 90m"@),
{
    law_numbers_read_back(n, u64::MAX as nat);
    law_decimal_reads_back(n);
    assert(decimal(n).push(unit).drop_last() =~= decimal(n));
    law_only_digits_are_numbers(amount_text(s), u64::MAX as nat, 0);
    if s.len() > 0 && amount_text(s).len() > 0 {
        assert(amount_text(s)[0] == s[0]);
    }
}

} // verus!
