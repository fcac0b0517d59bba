//! Parsing of ISO-8601 duration strings into display units.
//!
//! A run's time arrives as an ISO-8601 duration such as `"PT1H2M3.004S"`.
//! The grammar accepted here is `P`, then an optional date section
//! (`nY`, `nM`, `nD`, in that order), then an optional time section
//! (`T` followed by at least one of `nH`, `nM`, `n[.f]S`); the whole
//! string must be consumed. The weeks form `PnW` is accepted as a whole
//! string of its own. Each number is a run of one to nine decimal digits,
//! which keeps every component below `u32::MAX`; a fraction of seconds is
//! one to three digits and is read as milliseconds. A duration whose time
//! section is absent (calendar-only or weeks) yields the
//! [`ParsedDuration::Unavailable`] sentinel rather than fabricated zero
//! values; any other deviation from the grammar is a
//! [`Error::DurationParseFailure`].

use vstd::prelude::*;

use crate::error::Error;

verus! {

/// A run duration broken into the units a leaderboard displays, or a
/// sentinel for a duration that carries no time-of-day breakdown.
#[derive(Clone, Copy, Debug, PartialEq, Eq, Structural)]
pub enum ParsedDuration {
    Time { hours: u32, minutes: u32, seconds: u32, milliseconds: u32 },
    Unavailable,
}

/// Is `c` a decimal digit?
pub open spec fn is_digit(c: char) -> bool {
    48 <= c as int && c as int <= 57
}

/// The numeric value of the digit `c`.
pub open spec fn digit_val(c: char) -> nat {
    (c as int - 48) as nat
}

/// The first position at or after `i` that does not hold a digit.
pub open spec fn digits_end(s: Seq<char>, i: int) -> int
    decreases s.len() - i when 0 <= i <= s.len()
{
    if i < s.len() && is_digit(s[i]) {
        digits_end(s, i + 1)
    } else {
        i
    }
}

/// The value of the digit run `s[i..j]`, read in base ten.
pub open spec fn num_val(s: Seq<char>, i: int, j: int) -> nat
    decreases j - i when i <= j
{
    if i >= j {
        0
    } else {
        num_val(s, i, j - 1) * 10 + digit_val(s[j - 1])
    }
}

/// Ten to the `n`.
pub open spec fn pow10(n: nat) -> nat
    decreases n
{
    if n == 0 {
        1
    } else {
        10 * pow10((n - 1) as nat)
    }
}

/// A component at position `i`: a run of one to nine digits followed by
/// the marker letter `mark`. Yields the component's value and the
/// position after the marker.
pub open spec fn component(s: Seq<char>, i: int, mark: char) -> Option<(nat, int)> {
    let j = digits_end(s, i);
    if i < j && j - i <= 9 && j < s.len() && s[j] == mark {
        Some((num_val(s, i, j), j + 1))
    } else {
        None
    }
}

/// The position after the component at `i` marked `mark`, or `i` itself
/// when the component is absent.
pub open spec fn after(s: Seq<char>, i: int, mark: char) -> int {
    match component(s, i, mark) {
        Some(p) => p.1,
        None => i,
    }
}

/// The value of the component at `i` marked `mark`, or zero when absent.
pub open spec fn component_val(s: Seq<char>, i: int, mark: char) -> nat {
    match component(s, i, mark) {
        Some(p) => p.0,
        None => 0,
    }
}

/// The fraction digits `s[i..j]` read as milliseconds: one digit is
/// tenths, two are hundredths, three are thousandths.
pub open spec fn frac_millis(s: Seq<char>, i: int, j: int) -> nat {
    num_val(s, i, j) * pow10((3 - (j - i)) as nat)
}

/// The seconds component at position `i`: digits, an optional `.` with
/// one to three fraction digits, then `S`. Yields whole seconds,
/// milliseconds, and the position after the `S`.
pub open spec fn seconds_component(s: Seq<char>, i: int) -> Option<((nat, nat), int)> {
    let j = digits_end(s, i);
    if i < j && j - i <= 9 && j < s.len() {
        if s[j] == 'S' {
            Some(((num_val(s, i, j), 0), j + 1))
        } else if s[j] == '.' {
            let k = digits_end(s, j + 1);
            if j + 1 < k && k - (j + 1) <= 3 && k < s.len() && s[k] == 'S' {
                Some(((num_val(s, i, j), frac_millis(s, j + 1, k)), k + 1))
            } else {
                None
            }
        } else {
            None
        }
    } else {
        None
    }
}

/// Does `s` read `P`, a digit run, then `W`, with nothing after?
pub open spec fn is_weeks_form(s: Seq<char>) -> bool {
    match component(s, 1, 'W') {
        Some(p) => p.1 == s.len(),
        None => false,
    }
}

/// What parsing the duration string `s` yields: the time breakdown when a
/// time section is present, the sentinel when only calendar components
/// are, and a failure when `s` strays from the grammar.
pub open spec fn parse_duration_spec(s: Seq<char>) -> Result<ParsedDuration, Error> {
    if s.len() == 0 || s[0] != 'P' {
        Err(Error::DurationParseFailure)
    } else if is_weeks_form(s) {
        Ok(ParsedDuration::Unavailable)
    } else {
        let i1 = after(s, 1, 'Y');
        let i2 = after(s, i1, 'M');
        let i3 = after(s, i2, 'D');
        if i3 == s.len() {
            if i3 > 1 {
                Ok(ParsedDuration::Unavailable)
            } else {
                Err(Error::DurationParseFailure)
            }
        } else if s[i3] == 'T' {
            let h = component(s, i3 + 1, 'H');
            let i4 = after(s, i3 + 1, 'H');
            let m = component(s, i4, 'M');
            let i5 = after(s, i4, 'M');
            let sec = seconds_component(s, i5);
            let i6 = match sec {
                Some(p) => p.1,
                None => i5,
            };
            if i6 == s.len() && (h is Some || m is Some || sec is Some) {
                Ok(ParsedDuration::Time {
                    hours: component_val(s, i3 + 1, 'H') as u32,
                    minutes: component_val(s, i4, 'M') as u32,
                    seconds: (match sec {
                        Some(p) => p.0.0,
                        None => 0,
                    }) as u32,
                    milliseconds: (match sec {
                        Some(p) => p.0.1,
                        None => 0,
                    }) as u32,
                })
            } else {
                Err(Error::DurationParseFailure)
            }
        } else {
            Err(Error::DurationParseFailure)
        }
    }
}

/// Basic shape of `digits_end`: it never moves backwards, never passes the
/// end, and everything it skipped is a digit.
pub proof fn lemma_digits_end(s: Seq<char>, i: int)
    requires
        0 <= i <= s.len(),
    ensures
        i <= digits_end(s, i) <= s.len(),
        forall|k: int| i <= k < digits_end(s, i) ==> is_digit(s[k]),
        digits_end(s, i) < s.len() ==> !is_digit(s[digits_end(s, i)]),
    decreases s.len() - i,
{
    if i < s.len() && is_digit(s[i]) {
        lemma_digits_end(s, i + 1);
    }
}

/// A digit run of length `n` has a value below ten to the `n`.
pub proof fn lemma_num_val_bound(s: Seq<char>, i: int, j: int)
    requires
        i <= j,
        forall|k: int| i <= k < j ==> is_digit(s[k]),
    ensures
        num_val(s, i, j) < pow10((j - i) as nat),
    decreases j - i,
{
    if i < j {
        lemma_num_val_bound(s, i, j - 1);
    }
}

/// `pow10` grows with its exponent.
pub proof fn lemma_pow10_increases(a: nat, b: nat)
    requires
        a <= b,
    ensures
        pow10(a) <= pow10(b),
    decreases b,
{
    if a < b {
        lemma_pow10_increases(a, (b - 1) as nat);
        assert(pow10(b) == 10 * pow10((b - 1) as nat));
        assert(pow10((b - 1) as nat) >= 1) by {
            lemma_pow10_pos((b - 1) as nat);
        }
    }
}

/// The concrete powers of ten the parser's bounds rest on.
pub proof fn lemma_pow10_values()
    ensures
        pow10(0) == 1,
        pow10(1) == 10,
        pow10(2) == 100,
        pow10(3) == 1000,
        pow10(8) == 100_000_000,
        pow10(9) == 1_000_000_000,
{
    assert(pow10(0) == 1);
    assert(pow10(1) == 10);
    assert(pow10(2) == 100);
    assert(pow10(3) == 1000);
    assert(pow10(4) == 10_000);
    assert(pow10(5) == 100_000);
    assert(pow10(6) == 1_000_000);
    assert(pow10(7) == 10_000_000);
    assert(pow10(8) == 100_000_000);
    assert(pow10(9) == 1_000_000_000);
}

/// `pow10` is always positive.
pub proof fn lemma_pow10_pos(n: nat)
    ensures
        pow10(n) >= 1,
    decreases n,
{
    if n > 0 {
        lemma_pow10_pos((n - 1) as nat);
    }
}

/// Is `c` a decimal digit?
fn exec_is_digit(c: char) -> (r: bool)
    ensures
        r == is_digit(c),
{
    '0' <= c && c <= '9'
}

/// The first position at or after `i` in `s` that does not hold a digit.
fn scan_digits(s: &str, n: usize, i: usize) -> (j: usize)
    requires
        n == s@.len(),
        i <= n,
    ensures
        j == digits_end(s@, i as int),
        i <= j <= n,
    decreases n - i,
{
    if i < n {
        let c = s.get_char(i);
        if exec_is_digit(c) {
            return scan_digits(s, n, i + 1);
        }
    }
    i
}

/// The value of the digit run `s[i..j]`, which must be at most nine
/// digits long.
fn read_num(s: &str, i: usize, j: usize) -> (v: u32)
    requires
        i <= j <= s@.len(),
        j - i <= 9,
        forall|k: int| i <= k < j ==> is_digit(s@[k]),
    ensures
        v == num_val(s@, i as int, j as int),
    decreases j - i,
{
    if i == j {
        0
    } else {
        let prefix = read_num(s, i, j - 1);
        let c = s.get_char(j - 1);
        proof {
            lemma_num_val_bound(s@, i as int, j - 1);
            lemma_pow10_increases((j - 1 - i) as nat, 8);
            lemma_pow10_values();
        }
        prefix * 10 + (c as u32 - 48)
    }
}

/// The component at position `i` marked `mark`, as [`component`] reads it:
/// its value and the position after the marker, or `None` when absent.
fn read_component(s: &str, n: usize, i: usize, mark: char) -> (r: Option<(u32, usize)>)
    requires
        n == s@.len(),
        i <= n,
    ensures
        match r {
            Some(p) => component(s@, i as int, mark) == Some((p.0 as nat, p.1 as int)),
            None => component(s@, i as int, mark) is None,
        },
        r is Some ==> i < r.unwrap().1 <= n,
{
    let j = scan_digits(s, n, i);
    proof {
        lemma_digits_end(s@, i as int);
    }
    if i < j && j - i <= 9 && j < n {
        let c = s.get_char(j);
        if c == mark {
            let v = read_num(s, i, j);
            return Some((v, j + 1));
        }
    }
    None
}

/// The seconds component at position `i`, as [`seconds_component`] reads
/// it: whole seconds, milliseconds, and the position after the `S`.
fn read_seconds(s: &str, n: usize, i: usize) -> (r: Option<(u32, u32, usize)>)
    requires
        n == s@.len(),
        i <= n,
    ensures
        match r {
            Some(p) => seconds_component(s@, i as int) == Some(
                (((p.0 as nat, p.1 as nat)), p.2 as int),
            ),
            None => seconds_component(s@, i as int) is None,
        },
        r is Some ==> i < r.unwrap().2 <= n,
{
    let j = scan_digits(s, n, i);
    proof {
        lemma_digits_end(s@, i as int);
    }
    if i < j && j - i <= 9 && j < n {
        let c = s.get_char(j);
        if c == 'S' {
            let v = read_num(s, i, j);
            return Some((v, 0, j + 1));
        }
        if c == '.' {
            let k = scan_digits(s, n, j + 1);
            proof {
                lemma_digits_end(s@, j + 1);
            }
            if j + 1 < k && k - (j + 1) <= 3 && k < n {
                let e = s.get_char(k);
                if e == 'S' {
                    let v = read_num(s, i, j);
                    let f = read_num(s, j + 1, k);
                    let scale: u32 = if k - (j + 1) == 1 {
                        100
                    } else if k - (j + 1) == 2 {
                        10
                    } else {
                        1
                    };
                    proof {
                        lemma_num_val_bound(s@, j + 1, k as int);
                        lemma_pow10_increases((k - (j + 1)) as nat, 3);
                        lemma_pow10_values();
                    }
                    return Some((v, f * scale, k + 1));
                }
            }
            return None;
        }
    }
    None
}

/// Parse the ISO-8601 duration string `raw`.
///
/// Returns the time breakdown when a time section is present, the
/// [`ParsedDuration::Unavailable`] sentinel when the duration is
/// calendar-only, and [`Error::DurationParseFailure`] when the string
/// strays from the grammar — a corrupted time is never replaced by a
/// default one.
#[verifier::rlimit(100)]
pub fn parse_duration(raw: &str) -> (r: Result<ParsedDuration, Error>)
    ensures
        r == parse_duration_spec(raw@),
{
    let n = raw.unicode_len();
    if n == 0 {
        return Err(Error::DurationParseFailure);
    }
    let c0 = raw.get_char(0);
    if c0 != 'P' {
        return Err(Error::DurationParseFailure);
    }
    // The weeks form stands alone: it never combines with other components.
    if let Some((_, after_w)) = read_component(raw, n, 1, 'W') {
        if after_w == n {
            return Ok(ParsedDuration::Unavailable);
        }
    }
    proof {
        assert(!is_weeks_form(raw@));
    }
    let y = read_component(raw, n, 1, 'Y');
    let i1 = match y {
        Some(p) => p.1,
        None => 1,
    };
    let mo = read_component(raw, n, i1, 'M');
    let i2 = match mo {
        Some(p) => p.1,
        None => i1,
    };
    let d = read_component(raw, n, i2, 'D');
    let i3 = match d {
        Some(p) => p.1,
        None => i2,
    };
    if i3 == n {
        if i3 > 1 {
            return Ok(ParsedDuration::Unavailable);
        }
        return Err(Error::DurationParseFailure);
    }
    let ct = raw.get_char(i3);
    if ct != 'T' {
        return Err(Error::DurationParseFailure);
    }
    let h = read_component(raw, n, i3 + 1, 'H');
    let i4 = match h {
        Some(p) => p.1,
        None => i3 + 1,
    };
    let m = read_component(raw, n, i4, 'M');
    let i5 = match m {
        Some(p) => p.1,
        None => i4,
    };
    let sec = read_seconds(raw, n, i5);
    let i6 = match sec {
        Some(p) => p.2,
        None => i5,
    };
    if i6 == n && (h.is_some() || m.is_some() || sec.is_some()) {
        Ok(ParsedDuration::Time {
            hours: match h {
                Some(p) => p.0,
                None => 0,
            },
            minutes: match m {
                Some(p) => p.0,
                None => 0,
            },
            seconds: match sec {
                Some(p) => p.0,
                None => 0,
            },
            milliseconds: match sec {
                Some(p) => p.1,
                None => 0,
            },
        })
    } else {
        Err(Error::DurationParseFailure)
    }
}

} // verus!
