//! Calendar timestamps and expiry checks.
//!
//! Expiry dates travel as text of the form
//! `YYYY-MM-DDTHH:MM:SS[.fraction][Z|+HH:MM|-HH:MM]`: a civil date and
//! time, an optional fraction of a second (ignored beyond its
//! well-formedness), and an optional offset from UTC.  A date is read
//! into seconds since the epoch — years 1970 through 9999 — and
//! compared against the clock; anything else is rejected.

use vstd::prelude::*;

use vstd::string::StrSliceExecFns;

use crate::address::all_dec_digits;
use crate::address::dec_value;
use crate::address::is_dec_digit;

verus! {

/// The text is not a timestamp this library reads.
#[derive(Clone, Copy, Debug, PartialEq, Eq, Structural)]
pub enum DateError {
    InvalidDate,
}

/// True of years with a 366th day.
pub open spec fn is_leap_year(y: int) -> bool {
    y % 4 == 0 && (y % 100 != 0 || y % 400 == 0)
}

/// How many days the year `y` has.
pub open spec fn days_in_year(y: int) -> int {
    if is_leap_year(y) {
        366
    } else {
        365
    }
}

/// How many days the month `m` of year `y` has.
pub open spec fn days_in_month(y: int, m: int) -> int {
    if m == 2 {
        if is_leap_year(y) {
            29
        } else {
            28
        }
    } else if m == 4 || m == 6 || m == 9 || m == 11 {
        30
    } else {
        31
    }
}

/// The days of the years from 1970 up to, excluding, `y`.
pub open spec fn days_before_year(y: int) -> int
    decreases y,
{
    if y <= 1970 {
        0
    } else {
        days_before_year(y - 1) + days_in_year(y - 1)
    }
}

/// The days of the months of year `y` before month `m`.
pub open spec fn days_before_month(y: int, m: int) -> int
    decreases m,
{
    if m <= 1 {
        0
    } else {
        days_before_month(y, m - 1) + days_in_month(y, m - 1)
    }
}

/// The seconds since the epoch of a civil date and time, before any
/// offset is applied.
pub open spec fn civil_seconds(y: int, m: int, d: int, h: int, mi: int, s: int) -> int {
    (days_before_year(y) + days_before_month(y, m) + d - 1) * 86400 + h * 3600 + mi * 60 + s
}

/// True of a date and time this library accepts.
pub open spec fn valid_civil(y: int, m: int, d: int, h: int, mi: int, s: int) -> bool {
    &&& 1970 <= y <= 9999
    &&& 1 <= m <= 12
    &&& 1 <= d <= days_in_month(y, m)
    &&& 0 <= h < 24
    &&& 0 <= mi < 60
    &&& 0 <= s < 60
}

/// How many decimal digits `s` begins with.
pub open spec fn leading_digits(s: Seq<char>) -> int
    decreases s.len(),
{
    if s.len() > 0 && is_dec_digit(s[0]) {
        1 + leading_digits(s.subrange(1, s.len() as int))
    } else {
        0
    }
}

/// True when the four characters from `at` are two digit pairs split by
/// a colon, reading `hh` hours and `mm` minutes below their bounds.
pub open spec fn offset_digits_ok(s: Seq<char>) -> bool {
    &&& s.len() == 5
    &&& is_dec_digit(s[0]) && is_dec_digit(s[1])
    &&& s[2] == ':'
    &&& is_dec_digit(s[3]) && is_dec_digit(s[4])
    &&& dec_value(s.subrange(0, 2)) < 24
    &&& dec_value(s.subrange(3, 5)) < 60
}

/// The seconds of offset that the tail after the clock reads to: nothing
/// or `Z` is zero; `+HH:MM` and `-HH:MM` are the signed offset; anything
/// else is malformed.
pub open spec fn parsed_offset(tail: Seq<char>) -> Option<int> {
    if tail.len() == 0 {
        Some(0)
    } else if tail == "Z"@ {
        Some(0)
    } else if tail.len() == 6 && (tail[0] == '+' || tail[0] == '-') && offset_digits_ok(tail.subrange(1, 6)) {
        let magnitude = dec_value(tail.subrange(1, 3)) * 3600 + dec_value(tail.subrange(4, 6)) * 60;
        if tail[0] == '+' {
            Some(magnitude)
        } else {
            Some(-magnitude)
        }
    } else {
        None
    }
}

/// The tail left after an optional `.fraction`: a dot must carry at
/// least one digit, which is otherwise ignored.
pub open spec fn after_fraction(rest: Seq<char>) -> Option<Seq<char>> {
    if rest.len() > 0 && rest[0] == '.' {
        let n = leading_digits(rest.subrange(1, rest.len() as int));
        if n == 0 {
            None
        } else {
            Some(rest.subrange(1 + n, rest.len() as int))
        }
    } else {
        Some(rest)
    }
}

/// True when `s` carries two digits at `at`.
pub open spec fn two_digits_at(s: Seq<char>, at: int) -> bool {
    is_dec_digit(s[at]) && is_dec_digit(s[at + 1])
}

/// The seconds since the epoch, in UTC, that a timestamp's text reads
/// to, if it is well formed and within the years this library accepts.
pub open spec fn parsed_timestamp(s: Seq<char>) -> Option<int> {
    if s.len() < 19 {
        None
    } else {
        let y = dec_value(s.subrange(0, 4));
        let m = dec_value(s.subrange(5, 7));
        let d = dec_value(s.subrange(8, 10));
        let h = dec_value(s.subrange(11, 13));
        let mi = dec_value(s.subrange(14, 16));
        let sec = dec_value(s.subrange(17, 19));
        if all_dec_digits(s.subrange(0, 4)) && s[4] == '-'
            && two_digits_at(s, 5) && s[7] == '-'
            && two_digits_at(s, 8) && s[10] == 'T'
            && two_digits_at(s, 11) && s[13] == ':'
            && two_digits_at(s, 14) && s[16] == ':'
            && two_digits_at(s, 17)
            && valid_civil(y, m, d, h, mi, sec) {
            match after_fraction(s.subrange(19, s.len() as int)) {
                Some(tail) => match parsed_offset(tail) {
                    Some(off) => Some(civil_seconds(y, m, d, h, mi, sec) - off),
                    None => None,
                },
                None => None,
            }
        } else {
            None
        }
    }
}

proof fn lemma_days_before_year_bound(y: int)
    requires
        1970 <= y,
    ensures
        0 <= days_before_year(y) <= 366 * (y - 1970),
    decreases y,
{
    if y > 1970 {
        lemma_days_before_year_bound(y - 1);
    }
}

proof fn lemma_days_before_month_bound(y: int, m: int)
    requires
        1 <= m,
    ensures
        0 <= days_before_month(y, m) <= 31 * (m - 1),
    decreases m,
{
    if m > 1 {
        lemma_days_before_month_bound(y, m - 1);
    }
}

fn days_before_year_exec(y: u32) -> (r: u64)
    requires
        1970 <= y <= 9999,
    ensures
        r == days_before_year(y as int),
        r <= 366 * (y - 1970),
{
    let mut acc: u64 = 0;
    let mut yy: u32 = 1970;
    while yy < y
        invariant
            1970 <= yy <= y <= 9999,
            acc == days_before_year(yy as int),
            acc <= 366 * (yy - 1970),
        decreases y - yy,
    {
        let leap = yy % 4 == 0 && (yy % 100 != 0 || yy % 400 == 0);
        acc = acc + if leap { 366 } else { 365 };
        yy = yy + 1;
    }
    acc
}

fn days_in_month_exec(y: u32, m: u32) -> (r: u64)
    ensures
        r == days_in_month(y as int, m as int),
{
    if m == 2 {
        if y % 4 == 0 && (y % 100 != 0 || y % 400 == 0) {
            29
        } else {
            28
        }
    } else if m == 4 || m == 6 || m == 9 || m == 11 {
        30
    } else {
        31
    }
}

fn days_before_month_exec(y: u32, m: u32) -> (r: u64)
    requires
        1 <= m <= 12,
    ensures
        r == days_before_month(y as int, m as int),
        r <= 31 * (m - 1),
{
    let mut acc: u64 = 0;
    let mut mm: u32 = 1;
    while mm < m
        invariant
            1 <= mm <= m <= 12,
            acc == days_before_month(y as int, mm as int),
            acc <= 31 * (mm - 1),
        decreases m - mm,
    {
        acc = acc + days_in_month_exec(y, mm);
        mm = mm + 1;
    }
    acc
}

/// Read the `len` digits of `s` at `at` as a number.
fn read_digits(s: &str, at: usize, len: usize) -> (r: Option<u32>)
    requires
        at + len <= s@.len(),
        len <= 4,
    ensures
        match r {
            Some(v) => all_dec_digits(s@.subrange(at as int, (at + len) as int))
                && v == dec_value(s@.subrange(at as int, (at + len) as int)),
            None => !all_dec_digits(s@.subrange(at as int, (at + len) as int)),
        },
{
    let total = s.unicode_len();
    let ghost digits = s@.subrange(at as int, (at + len) as int);
    let mut value: u32 = 0;
    let mut k: usize = 0;
    while k < len
        invariant
            0 <= k <= len <= 4,
            at + len <= s@.len(),
            total == s@.len(),
            digits == s@.subrange(at as int, (at + len) as int),
            all_dec_digits(digits.subrange(0, k as int)),
            value == dec_value(digits.subrange(0, k as int)),
            value <= 9999,
        decreases len - k,
    {
        let c = s.get_char(at + k);
        proof {
            assert(digits[k as int] == s@[(at + k) as int]);
        }
        if !('0' <= c && c <= '9') {
            proof {
                assert(!is_dec_digit(digits[k as int]));
            }
            return None;
        }
        proof {
            assert(digits.subrange(0, k + 1 as int).drop_last() =~= digits.subrange(0, k as int));
            assert(digits.subrange(0, k + 1 as int).last() == digits[k as int]);
            lemma_dec_value_small(digits.subrange(0, k as int));
        }
        value = value * 10 + ((c as u32) - 48);
        k += 1;
    }
    proof {
        assert(digits.subrange(0, len as int) =~= digits);
    }
    Some(value)
}

proof fn lemma_dec_value_small(s: Seq<char>)
    requires
        all_dec_digits(s),
        s.len() <= 3,
    ensures
        0 <= dec_value(s),
        s.len() <= 1 ==> dec_value(s) <= 9,
        s.len() <= 2 ==> dec_value(s) <= 99,
        s.len() <= 3 ==> dec_value(s) <= 999,
    decreases s.len(),
{
    if s.len() > 0 {
        assert(all_dec_digits(s.drop_last()));
        lemma_dec_value_small(s.drop_last());
    }
}

fn char_at_is(s: &str, at: usize, c: char) -> (r: bool)
    requires
        at < s@.len(),
    ensures
        r == (s@[at as int] == c),
{
    s.get_char(at) == c
}

/// Read a timestamp's text into seconds since the epoch, in UTC.
#[verifier::rlimit(100)]
pub fn parse_timestamp(s: &str) -> (r: Result<i64, DateError>)
    ensures
        match parsed_timestamp(s@) {
            Some(t) => r == Result::<i64, DateError>::Ok(t as i64) && i64::MIN <= t <= i64::MAX,
            None => r == Result::<i64, DateError>::Err(DateError::InvalidDate),
        },
{
    let n = s.unicode_len();
    if n < 19 {
        return Err(DateError::InvalidDate);
    }
    let y = match read_digits(s, 0, 4) {
        Some(v) => v,
        None => {
            return Err(DateError::InvalidDate);
        },
    };
    let m = match read_digits(s, 5, 2) {
        Some(v) => v,
        None => {
            proof {
                assert(!two_digits_at(s@, 5)) by {
                    assert(s@.subrange(5, 7)[0] == s@[5] && s@.subrange(5, 7)[1] == s@[6]);
                }
            }
            return Err(DateError::InvalidDate);
        },
    };
    let d = match read_digits(s, 8, 2) {
        Some(v) => v,
        None => {
            proof {
                assert(!two_digits_at(s@, 8)) by {
                    assert(s@.subrange(8, 10)[0] == s@[8] && s@.subrange(8, 10)[1] == s@[9]);
                }
            }
            return Err(DateError::InvalidDate);
        },
    };
    let h = match read_digits(s, 11, 2) {
        Some(v) => v,
        None => {
            proof {
                assert(!two_digits_at(s@, 11)) by {
                    assert(s@.subrange(11, 13)[0] == s@[11] && s@.subrange(11, 13)[1] == s@[12]);
                }
            }
            return Err(DateError::InvalidDate);
        },
    };
    let mi = match read_digits(s, 14, 2) {
        Some(v) => v,
        None => {
            proof {
                assert(!two_digits_at(s@, 14)) by {
                    assert(s@.subrange(14, 16)[0] == s@[14] && s@.subrange(14, 16)[1] == s@[15]);
                }
            }
            return Err(DateError::InvalidDate);
        },
    };
    let sec = match read_digits(s, 17, 2) {
        Some(v) => v,
        None => {
            proof {
                assert(!two_digits_at(s@, 17)) by {
                    assert(s@.subrange(17, 19)[0] == s@[17] && s@.subrange(17, 19)[1] == s@[18]);
                }
            }
            return Err(DateError::InvalidDate);
        },
    };
    proof {
        assert(s@.subrange(5, 7)[0] == s@[5] && s@.subrange(5, 7)[1] == s@[6]);
        assert(s@.subrange(8, 10)[0] == s@[8] && s@.subrange(8, 10)[1] == s@[9]);
        assert(s@.subrange(11, 13)[0] == s@[11] && s@.subrange(11, 13)[1] == s@[12]);
        assert(s@.subrange(14, 16)[0] == s@[14] && s@.subrange(14, 16)[1] == s@[15]);
        assert(s@.subrange(17, 19)[0] == s@[17] && s@.subrange(17, 19)[1] == s@[18]);
    }
    if !char_at_is(s, 4, '-') || !char_at_is(s, 7, '-') || !char_at_is(s, 10, 'T')
        || !char_at_is(s, 13, ':') || !char_at_is(s, 16, ':') {
        return Err(DateError::InvalidDate);
    }
    // The bounds of an acceptable civil date and time.
    let month_ok = 1 <= m && m <= 12;
    if !(1970 <= y && y <= 9999 && month_ok) {
        return Err(DateError::InvalidDate);
    }
    let dim = days_in_month_exec(y, m);
    if !(1 <= d && (d as u64) <= dim && h < 24 && mi < 60 && sec < 60) {
        return Err(DateError::InvalidDate);
    }
    // The optional fraction.
    let mut pos: usize = 19;
    let ghost rest19 = s@.subrange(19, n as int);
    if pos < n && char_at_is(s, pos, '.') {
        let mut k: usize = pos + 1;
        while k < n
            invariant
                pos + 1 <= k <= n,
                n == s@.len(),
                forall|q: int| pos + 1 <= q < k ==> is_dec_digit(#[trigger] s@[q]),
            ensures
                pos + 1 <= k <= n,
                forall|q: int| pos + 1 <= q < k ==> is_dec_digit(#[trigger] s@[q]),
                k < n ==> !is_dec_digit(s@[k as int]),
            decreases n - k,
        {
            let c = s.get_char(k);
            if !('0' <= c && c <= '9') {
                break;
            }
            k += 1;
        }
        if k == pos + 1 {
            // A dot with no digit after it.
            proof {
                lemma_leading_digits_at(s@, (pos + 1) as int, (pos + 1) as int);
                assert(rest19[0] == '.');
                assert(rest19.subrange(1, rest19.len() as int) =~= s@.subrange(20, n as int));
                assert(after_fraction(rest19) is None);
            }
            return Err(DateError::InvalidDate);
        }
        proof {
            lemma_leading_digits_at(s@, (pos + 1) as int, k as int);
            assert(rest19[0] == '.');
            assert(rest19.subrange(1, rest19.len() as int) =~= s@.subrange(20, n as int));
            assert(rest19.subrange(1 + (k - 20), rest19.len() as int) =~= s@.subrange(k as int, n as int));
            assert(after_fraction(rest19) == Some(s@.subrange(k as int, n as int)));
        }
        pos = k;
    } else {
        proof {
            if rest19.len() > 0 {
                assert(rest19[0] == s@[19]);
            }
        }
    }
    let ghost tail = s@.subrange(pos as int, n as int);
    proof {
        reveal_strlit("Z");
        lemma_after_fraction_tail(s@, rest19, pos as int, n as int);
        assert(tail.len() == n - pos);
        if pos < n {
            assert(tail[0] == s@[pos as int]);
        }
    }
    // The optional offset.
    let offset: i64 = if pos == n {
        proof {
            assert(tail.len() == 0);
            assert(parsed_offset(tail) == Some(0int));
        }
        0
    } else {
        let c0 = s.get_char(pos);
        if c0 == 'Z' && pos + 1 == n {
            proof {
                reveal_strlit("Z");
                assert(tail =~= "Z"@);
                assert(parsed_offset(tail) == Some(0int));
            }
            0
        } else if (c0 == '+' || c0 == '-') && n - pos == 6 {
            let ghost x = tail.subrange(1, 6);
            let hh = match read_digits(s, pos + 1, 2) {
                Some(v) => v,
                None => {
                    proof {
                        lemma_offset_segment(s@, pos as int, n as int);
                        if is_dec_digit(x[0]) && is_dec_digit(x[1]) {
                            assert forall|q: int| 0 <= q < 2
                                implies is_dec_digit(#[trigger] s@.subrange(pos + 1, pos + 3)[q]) by {
                                if q == 0 {
                                    assert(s@.subrange(pos + 1, pos + 3)[0] == x[0]);
                                } else {
                                    assert(s@.subrange(pos + 1, pos + 3)[1] == x[1]);
                                }
                            }
                        }
                        assert(!offset_digits_ok(x));
                        assert(parsed_offset(tail) is None);
                    }
                    return Err(DateError::InvalidDate);
                },
            };
            if !char_at_is(s, pos + 3, ':') {
                proof {
                    lemma_offset_segment(s@, pos as int, n as int);
                    assert(x[2] != ':');
                    assert(parsed_offset(tail) is None);
                }
                return Err(DateError::InvalidDate);
            }
            let mm2 = match read_digits(s, pos + 4, 2) {
                Some(v) => v,
                None => {
                    proof {
                        lemma_offset_segment(s@, pos as int, n as int);
                        if is_dec_digit(x[3]) && is_dec_digit(x[4]) {
                            assert forall|q: int| 0 <= q < 2
                                implies is_dec_digit(#[trigger] s@.subrange(pos + 4, pos + 6)[q]) by {
                                if q == 0 {
                                    assert(s@.subrange(pos + 4, pos + 6)[0] == x[3]);
                                } else {
                                    assert(s@.subrange(pos + 4, pos + 6)[1] == x[4]);
                                }
                            }
                        }
                        assert(!offset_digits_ok(x));
                        assert(parsed_offset(tail) is None);
                    }
                    return Err(DateError::InvalidDate);
                },
            };
            proof {
                lemma_offset_segment(s@, pos as int, n as int);
                assert(is_dec_digit(x[0]) && is_dec_digit(x[1])) by {
                    assert(x[0] == s@.subrange(pos + 1, pos + 3)[0]);
                    assert(x[1] == s@.subrange(pos + 1, pos + 3)[1]);
                }
                assert(is_dec_digit(x[3]) && is_dec_digit(x[4])) by {
                    assert(x[3] == s@.subrange(pos + 4, pos + 6)[0]);
                    assert(x[4] == s@.subrange(pos + 4, pos + 6)[1]);
                }
                assert(dec_value(x.subrange(0, 2)) == hh);
                assert(dec_value(x.subrange(3, 5)) == mm2);
            }
            if !(hh < 24 && mm2 < 60) {
                proof {
                    assert(!offset_digits_ok(x));
                    assert(parsed_offset(tail) is None);
                }
                return Err(DateError::InvalidDate);
            }
            proof {
                assert(offset_digits_ok(x));
                assert(tail.subrange(1, 3) == s@.subrange(pos + 1, pos + 3));
                assert(tail.subrange(4, 6) == s@.subrange(pos + 4, pos + 6));
            }
            let magnitude: i64 = (hh as i64) * 3600 + (mm2 as i64) * 60;
            if c0 == '+' {
                proof {
                    assert(parsed_offset(tail) == Some(hh * 3600 + mm2 * 60));
                }
                magnitude
            } else {
                proof {
                    assert(parsed_offset(tail) == Some(-(hh * 3600 + mm2 * 60)));
                }
                -magnitude
            }
        } else {
            proof {
                reveal_strlit("Z");
                if tail.len() == 6 && (tail[0] == '+' || tail[0] == '-') {
                    assert(pos + 6 == n);
                }
                assert(parsed_offset(tail) is None);
            }
            return Err(DateError::InvalidDate);
        }
    };
    // The civil date and time, in seconds.
    proof {
        lemma_days_before_year_bound(y as int);
        lemma_days_before_month_bound(y as int, m as int);
        assert(parsed_offset(tail) == Some(offset as int));
        assert(after_fraction(s@.subrange(19, n as int)) == Some(tail));
        assert(parsed_timestamp(s@) == Some(civil_seconds(y as int, m as int, d as int, h as int, mi as int, sec as int) - offset));
    }
    let days: u64 = days_before_year_exec(y) + days_before_month_exec(y, m) + (d as u64) - 1;
    let civil: i64 = (days as i64) * 86400 + (h as i64) * 3600 + (mi as i64) * 60 + (sec as i64);
    Ok(civil - offset)
}

proof fn lemma_leading_digits_at(s: Seq<char>, start: int, k: int)
    requires
        0 <= start <= k <= s.len(),
        forall|q: int| start <= q < k ==> is_dec_digit(#[trigger] s[q]),
        k < s.len() ==> !is_dec_digit(s[k]),
    ensures
        leading_digits(s.subrange(start, s.len() as int)) == k - start,
    decreases k - start,
{
    let t = s.subrange(start, s.len() as int);
    if k == start {
        if t.len() > 0 {
            assert(t[0] == s[start]);
        }
    } else {
        assert(t[0] == s[start]);
        assert(t.subrange(1, t.len() as int) =~= s.subrange(start + 1, s.len() as int));
        lemma_leading_digits_at(s, start + 1, k);
    }
}

proof fn lemma_after_fraction_tail(s: Seq<char>, rest19: Seq<char>, pos: int, n: int)
    requires
        n == s.len(),
        19 <= pos <= n,
        rest19 == s.subrange(19, n),
        after_fraction(rest19) == Some(s.subrange(pos, n)) || {
            &&& (rest19.len() == 0 || rest19[0] != '.')
            &&& pos == 19
        },
    ensures
        after_fraction(rest19) == Some(s.subrange(pos, n)),
{
    if !(after_fraction(rest19) == Some(s.subrange(pos, n))) {
        assert(after_fraction(rest19) == Some(rest19));
        assert(rest19 =~= s.subrange(19, n));
        assert(s.subrange(pos, n) =~= rest19);
    }
}

proof fn lemma_offset_segment(s: Seq<char>, pos: int, n: int)
    requires
        n == s.len(),
        0 <= pos,
        pos + 6 == n,
    ensures
        s.subrange(pos, n).len() == 6,
        s.subrange(pos, n)[0] == s[pos],
        s.subrange(pos, n).subrange(1, 6) == s.subrange(pos + 1, n),
        s.subrange(pos + 1, n).subrange(0, 2) == s.subrange(pos + 1, pos + 3),
        s.subrange(pos + 1, n)[2] == s[pos + 3],
        s.subrange(pos + 1, n).subrange(3, 5) == s.subrange(pos + 4, pos + 6),
        s.subrange(pos, n).subrange(1, 3) == s.subrange(pos + 1, pos + 3),
        s.subrange(pos, n).subrange(4, 6) == s.subrange(pos + 4, pos + 6),
        s.subrange(pos, n).subrange(1, 6).subrange(0, 2) == s.subrange(pos + 1, pos + 3),
        s.subrange(pos, n).subrange(1, 6).subrange(3, 5) == s.subrange(pos + 4, pos + 6),
        s.subrange(pos, n).subrange(1, 6)[2] == s[pos + 3],
        s.subrange(pos, n).subrange(1, 6)[0] == s.subrange(pos + 1, pos + 3)[0],
        s.subrange(pos, n).subrange(1, 6)[1] == s.subrange(pos + 1, pos + 3)[1],
        s.subrange(pos, n).subrange(1, 6)[3] == s.subrange(pos + 4, pos + 6)[0],
        s.subrange(pos, n).subrange(1, 6)[4] == s.subrange(pos + 4, pos + 6)[1],
    {
    assert(s.subrange(pos, n).subrange(1, 6) =~= s.subrange(pos + 1, n));
    assert(s.subrange(pos + 1, n).subrange(0, 2) =~= s.subrange(pos + 1, pos + 3));
    assert(s.subrange(pos + 1, n).subrange(3, 5) =~= s.subrange(pos + 4, pos + 6));
    assert(s.subrange(pos, n).subrange(1, 3) =~= s.subrange(pos + 1, pos + 3));
    assert(s.subrange(pos, n).subrange(4, 6) =~= s.subrange(pos + 4, pos + 6));
    assert(s.subrange(pos, n).subrange(1, 6).subrange(0, 2) =~= s.subrange(pos + 1, pos + 3));
    assert(s.subrange(pos, n).subrange(1, 6).subrange(3, 5) =~= s.subrange(pos + 4, pos + 6));
}

/// Whether a date given as text lies at or before the given moment.
/// Rejects text that is not a well-formed timestamp.
pub fn is_expired_at(date: &str, now_seconds: i64) -> (r: Result<bool, DateError>)
    ensures
        match parsed_timestamp(date@) {
            Some(t) => r == Result::<bool, DateError>::Ok(t <= now_seconds),
            None => r == Result::<bool, DateError>::Err(DateError::InvalidDate),
        },
{
    match parse_timestamp(date) {
        Ok(t) => Ok(t <= now_seconds),
        Err(e) => Err(e),
    }
}

/// Relies on `std::time::SystemTime::now`: the clock's seconds since the
/// epoch.  Nothing is promised of the value; it is the moment the clock
/// showed.
#[verifier::external_body]
pub(crate) fn unix_now_seconds() -> i64 {
    match std::time::SystemTime::now().duration_since(std::time::UNIX_EPOCH) {
        Ok(d) => d.as_secs() as i64,
        Err(_) => 0,
    }
}

/// Whether a date given as text lies in the past.  Rejects text that is
/// not a well-formed timestamp; the verdict itself depends on the clock.
pub fn is_expired(date: &str) -> (r: Result<bool, DateError>)
    ensures
        parsed_timestamp(date@) is Some <==> r is Ok,
        parsed_timestamp(date@) is None ==> r == Result::<bool, DateError>::Err(DateError::InvalidDate),
{
    let now = unix_now_seconds();
    is_expired_at(date, now)
}

} // verus!
