//! Durations such as `15m` or `2h`.

use vstd::prelude::*;

use crate::error;
use crate::error::{ErrorView, NonoError};
use crate::numbers;
use crate::text;

verus! {

/// Whether a character is an ASCII letter.
pub open spec fn is_ascii_letter(c: char) -> bool {
    'a' <= c <= 'z' || 'A' <= c <= 'Z'
}

/// The seconds in one unit: second, minute, hour, day or week, in either case.
pub open spec fn unit_seconds(unit: char) -> Option<u64> {
    if unit == 's' || unit == 'S' {
        Some(1)
    } else if unit == 'm' || unit == 'M' {
        Some(60)
    } else if unit == 'h' || unit == 'H' {
        Some(3600)
    } else if unit == 'd' || unit == 'D' {
        Some(86400)
    } else if unit == 'w' || unit == 'W' {
        Some(604800)
    } else {
        None
    }
}

/// The seconds that a duration text stands for: a positive number and a unit, with nothing
/// between them.
pub open spec fn duration_seconds(input: Seq<char>) -> Result<u64, ErrorView> {
    let t = text::trimmed(input);
    if t.len() == 0 {
        Err(ErrorView::ConfigParse("duration must not be empty"@))
    } else if !is_ascii_letter(t.last()) {
        Err(
            ErrorView::ConfigParse(
                "duration `"@ + t + "` is missing a unit suffix (s/m/h/d/w)"@,
            ),
        )
    } else {
        match unit_seconds(t.last()) {
            None => Err(
                ErrorView::ConfigParse(
                    ("duration `"@ + t + "` has unknown unit `"@).push(t.last())
                        + "` (expected s/m/h/d/w)"@,
                ),
            ),
            Some(unit) => if t.len() == 1 {
                Err(ErrorView::ConfigParse("duration `"@ + t + "` is missing a numeric prefix"@))
            } else {
                match numbers::unsigned_value(t.drop_last(), u64::MAX as nat) {
                    None => Err(
                        ErrorView::ConfigParse("duration `"@ + t + "` has non-numeric prefix"@),
                    ),
                    Some(n) => if n == 0 {
                        Err(ErrorView::ConfigParse("duration must be greater than zero"@))
                    } else if n * unit > u64::MAX {
                        Err(
                            ErrorView::ConfigParse(
                                "duration `"@ + t + "` overflows u64 seconds"@,
                            ),
                        )
                    } else {
                        Ok((n * unit) as u64)
                    },
                }
            },
        }
    }
}

/// A message about the duration text.
fn complaint(shown: &String, after: &str) -> (e: NonoError)
    ensures
        e@ == ErrorView::ConfigParse("duration `"@ + shown@ + after@),
{
    let mut m = "duration `".to_owned();
    m.append(shown.as_str());
    m.append(after);
    NonoError::ConfigParse(m)
}

/// Reads a duration, in seconds.
///
/// Accepts `<N><unit>`, where the unit is `s`, `m`, `h`, `d` or `w`. Compound forms such as
/// `1h30m` and bare numbers are rejected, so that the unit is unambiguous.
pub fn parse_duration_to_secs(input: &str) -> (r: Result<u64, NonoError>)
    ensures
        error::outcome(r) == duration_seconds(input@),
{
    let trimmed = text::trim(input);
    let chars = text::chars_of(trimmed.as_str());
    if chars.len() == 0 {
        return Err(NonoError::ConfigParse("duration must not be empty".to_owned()));
    }
    let last = chars[chars.len() - 1];
    assert(last == trimmed@.last());
    if !(('a' <= last && last <= 'z') || ('A' <= last && last <= 'Z')) {
        return Err(complaint(&trimmed, "` is missing a unit suffix (s/m/h/d/w)"));
    }
    let unit: u64 = match last {
        's' | 'S' => 1,
        'm' | 'M' => 60,
        'h' | 'H' => 3600,
        'd' | 'D' => 86400,
        'w' | 'W' => 604800,
        _ => {
            let mut m = "duration `".to_owned();
            m.append(trimmed.as_str());
            m.append("` has unknown unit `");
            m.push(last);
            m.append("` (expected s/m/h/d/w)");
            return Err(NonoError::ConfigParse(m));
        },
    };
    if chars.len() == 1 {
        return Err(complaint(&trimmed, "` is missing a numeric prefix"));
    }
    let number = text::text_range(&chars, 0, chars.len() - 1);
    assert(number@ =~= trimmed@.drop_last());
    let digits = text::chars_of(number.as_str());
    match numbers::parse_unsigned(&digits, u64::MAX) {
        None => Err(complaint(&trimmed, "` has non-numeric prefix")),
        Some(n) => {
            if n == 0 {
                return Err(
                    NonoError::ConfigParse("duration must be greater than zero".to_owned()),
                );
            }
            match n.checked_mul(unit) {
                Some(total) => Ok(total),
                None => Err(complaint(&trimmed, "` overflows u64 seconds")),
            }
        },
    }
}

/// A duration is never zero.
pub proof fn law_duration_is_positive(input: Seq<char>)
    requires
        duration_seconds(input) is Ok,
    ensures
        duration_seconds(input)->Ok_0 > 0,
{
    let t = text::trimmed(input);
    let n = numbers::unsigned_value(t.drop_last(), u64::MAX as nat)->0;
    let unit = unit_seconds(t.last())->0;
    assert(n * unit > 0) by (nonlinear_arith)
        requires
            n > 0,
            unit > 0,
    ;
}

/// A positive number behind which a unit is written is read as that many units.
pub proof fn law_number_and_unit_read_back(n: nat, unit: char)
    requires
        n > 0,
        unit_seconds(unit) is Some,
        n * unit_seconds(unit)->0 <= u64::MAX,
    ensures
        duration_seconds(numbers::decimal(n).push(unit)) == Ok::<u64, ErrorView>(
            (n * unit_seconds(unit)->0) as u64,
        ),
{
    let d = numbers::decimal(n);
    let s = d.push(unit);
    let u = unit_seconds(unit)->0;
    assert(n <= u64::MAX) by (nonlinear_arith)
        requires
            n * u <= u64::MAX,
            u >= 1,
            n > 0,
    ;
    numbers::lemma_decimal_digits(n);
    numbers::law_decimal_reads_back(n, u64::MAX as nat);
    assert(s[0] == d[0]);
    assert(numbers::is_digit(d[0]));
    assert(s.drop_last() =~= d);
    assert(text::trimmed(s) == s);
}

/// What is read is a number and a unit, and worth that number times the seconds of that unit; the
/// unit may be written in either case.
pub proof fn law_durations_are_numbers_of_units(input: Seq<char>)
    requires
        duration_seconds(input) is Ok,
    ensures
        ({
            let t = text::trimmed(input);
            let n = numbers::unsigned_value(t.drop_last(), u64::MAX as nat)->0;
            let secs = duration_seconds(input)->Ok_0;
            &&& t.len() >= 2
            &&& numbers::unsigned_value(t.drop_last(), u64::MAX as nat) is Some
            &&& {
                ||| (t.last() == 's' || t.last() == 'S') && secs == n
                ||| (t.last() == 'm' || t.last() == 'M') && secs == 60 * n
                ||| (t.last() == 'h' || t.last() == 'H') && secs == 3600 * n
                ||| (t.last() == 'd' || t.last() == 'D') && secs == 86400 * n
                ||| (t.last() == 'w' || t.last() == 'W') && secs == 604800 * n
            }
        }),
{
}

/// A positive number of seconds, minutes, hours, days or weeks is read as such.
pub proof fn law_units_are_worth_their_seconds(n: nat)
    requires
        n > 0,
        604800 * n <= u64::MAX,
    ensures
        ({
            let d = numbers::decimal(n);
            &&& duration_seconds(d.push('s')) == Ok::<u64, ErrorView>(n as u64)
            &&& duration_seconds(d.push('m')) == Ok::<u64, ErrorView>((60 * n) as u64)
            &&& duration_seconds(d.push('h')) == Ok::<u64, ErrorView>((3600 * n) as u64)
            &&& duration_seconds(d.push('d')) == Ok::<u64, ErrorView>((86400 * n) as u64)
            &&& duration_seconds(d.push('w')) == Ok::<u64, ErrorView>((604800 * n) as u64)
        }),
{
    law_number_and_unit_read_back(n, 's');
    law_number_and_unit_read_back(n, 'm');
    law_number_and_unit_read_back(n, 'h');
    law_number_and_unit_read_back(n, 'd');
    law_number_and_unit_read_back(n, 'w');
}

/// Why a text is no duration: it is empty, it does not end in a letter, its last letter is no unit,
/// there is nothing before the unit or what is there is no number, or the number is zero or too
/// large.
pub proof fn law_what_is_no_duration(input: Seq<char>)
    ensures
        ({
            let t = text::trimmed(input);
            let n = numbers::unsigned_value(t.drop_last(), u64::MAX as nat);
            let c = t.last();
            let letter = 'a' <= c <= 'z' || 'A' <= c <= 'Z';
            let unit = seq!['s', 'S', 'm', 'M', 'h', 'H', 'd', 'D', 'w', 'W'].contains(c);
            let e = duration_seconds(input);
            &&& t.len() == 0 ==> e == Err::<u64, ErrorView>(
                ErrorView::ConfigParse("duration must not be empty"@),
            )
            &&& t.len() > 0 && !letter ==> e == Err::<u64, ErrorView>(
                ErrorView::ConfigParse(
                    "duration `"@ + t + "` is missing a unit suffix (s/m/h/d/w)"@,
                ),
            )
            &&& t.len() > 0 && letter && !unit ==> e == Err::<u64, ErrorView>(
                ErrorView::ConfigParse(
                    "duration `"@ + t + "` has unknown unit `"@ + seq![c]
                        + "` (expected s/m/h/d/w)"@,
                ),
            )
            &&& t.len() == 1 && unit ==> e == Err::<u64, ErrorView>(
                ErrorView::ConfigParse("duration `"@ + t + "` is missing a numeric prefix"@),
            )
            &&& t.len() > 1 && unit && n is None ==> e == Err::<u64, ErrorView>(
                ErrorView::ConfigParse("duration `"@ + t + "` has non-numeric prefix"@),
            )
            &&& t.len() > 1 && unit && n == Some(0nat) ==> e == Err::<u64, ErrorView>(
                ErrorView::ConfigParse("duration must be greater than zero"@),
            )
            &&& t.len() > 1 && unit && n is Some && n->0 > 0 && e is Err ==> e == Err::<
                u64,
                ErrorView,
            >(ErrorView::ConfigParse("duration `"@ + t + "` overflows u64 seconds"@))
        }),
{
    let t = text::trimmed(input);
    let c = t.last();
    let units = seq!['s', 'S', 'm', 'M', 'h', 'H', 'd', 'D', 'w', 'W'];
    assert(units.contains(c) <==> unit_seconds(c) is Some) by {
        if unit_seconds(c) is Some {
            assert(units[0] == 's' && units[1] == 'S' && units[2] == 'm' && units[3] == 'M'
                && units[4] == 'h' && units[5] == 'H' && units[6] == 'd' && units[7] == 'D'
                && units[8] == 'w' && units[9] == 'W');
        }
    }
    if t.len() > 0 {
        assert(("duration `"@ + t + "` has unknown unit `"@).push(c) =~= "duration `"@ + t
            + "` has unknown unit `"@ + seq![c]);
    }
}

/// White space around a duration makes no difference.
pub proof fn law_white_space_around_durations_is_ignored(a: Seq<char>, b: Seq<char>)
    requires
        text::trimmed(a) == text::trimmed(b),
    ensures
        duration_seconds(a) == duration_seconds(b),
{
}

} // verus!
