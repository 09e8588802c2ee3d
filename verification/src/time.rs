//! Calendar timestamps: the moment a log entry was written, parsed from the
//! log's text form and ordered field by field.
//!
//! The accepted text form is the universal-time profile the node's log uses:
//! `YYYY-MM-DDThh:mm:ss`, an optional fraction of up to nine digits, and a
//! final `Z`.

use vstd::prelude::*;
use vstd::string::StrSliceExecFns;

verus! {

/// A moment in universal time, split into calendar fields. Ordering two
/// moments compares the fields from the year down.
#[derive(Debug, Clone, Copy, PartialEq, Eq, Structural)]
pub struct Timestamp {
    pub year: u32,
    pub month: u8,
    pub day: u8,
    pub hour: u8,
    pub minute: u8,
    pub second: u8,
    pub nanos: u32,
}

/// Moment `a` is no earlier than moment `b`.
pub open spec fn ts_ge(a: Timestamp, b: Timestamp) -> bool {
    if a.year != b.year {
        a.year > b.year
    } else if a.month != b.month {
        a.month > b.month
    } else if a.day != b.day {
        a.day > b.day
    } else if a.hour != b.hour {
        a.hour > b.hour
    } else if a.minute != b.minute {
        a.minute > b.minute
    } else if a.second != b.second {
        a.second > b.second
    } else {
        a.nanos >= b.nanos
    }
}

impl Timestamp {
    /// Whether this moment is no earlier than `other`.
    pub fn is_not_before(&self, other: &Timestamp) -> (r: bool)
        ensures
            r == ts_ge(*self, *other),
    {
        if self.year != other.year {
            self.year > other.year
        } else if self.month != other.month {
            self.month > other.month
        } else if self.day != other.day {
            self.day > other.day
        } else if self.hour != other.hour {
            self.hour > other.hour
        } else if self.minute != other.minute {
            self.minute > other.minute
        } else if self.second != other.second {
            self.second > other.second
        } else {
            self.nanos >= other.nanos
        }
    }
}

/// The character is a decimal digit.
pub open spec fn is_digit(c: char) -> bool {
    '0' <= c && c <= '9'
}

/// The value of a decimal digit character.
pub open spec fn digit_val(c: char) -> int {
    c as int - '0' as int
}

/// The value of the digits of `s` from position `i` up to position `j`.
pub open spec fn digits_val(s: Seq<char>, i: int, j: int) -> int
    decreases j - i,
{
    if j <= i {
        0
    } else {
        digits_val(s, i, j - 1) * 10 + digit_val(s[j - 1])
    }
}

/// Ten to the `k`th power.
pub open spec fn pow10(k: nat) -> int
    decreases k,
{
    if k == 0 {
        1
    } else {
        10 * pow10((k - 1) as nat)
    }
}

/// The date-and-time head of the text is well-formed: `YYYY-MM-DDThh:mm:ss`
/// with the calendar fields in range.
pub open spec fn ts_head_valid(s: Seq<char>) -> bool {
    &&& s.len() >= 19
    &&& is_digit(s[0]) && is_digit(s[1]) && is_digit(s[2]) && is_digit(s[3])
    &&& s[4] == '-' && is_digit(s[5]) && is_digit(s[6])
    &&& s[7] == '-' && is_digit(s[8]) && is_digit(s[9])
    &&& s[10] == 'T' && is_digit(s[11]) && is_digit(s[12])
    &&& s[13] == ':' && is_digit(s[14]) && is_digit(s[15])
    &&& s[16] == ':' && is_digit(s[17]) && is_digit(s[18])
    &&& 1 <= digits_val(s, 5, 7) <= 12
    &&& 1 <= digits_val(s, 8, 10) <= 31
    &&& digits_val(s, 11, 13) <= 23
    &&& digits_val(s, 14, 16) <= 59
    &&& digits_val(s, 17, 19) <= 60
}

/// The fraction part is well-formed: a point, one to nine digits, and the
/// final `Z`.
pub open spec fn ts_frac_valid(s: Seq<char>) -> bool {
    &&& s.len() >= 22
    &&& s.len() <= 30
    &&& s[19] == '.'
    &&& s[s.len() - 1] == 'Z'
    &&& forall|k: int| 20 <= k < s.len() - 1 ==> is_digit(#[trigger] s[k])
}

/// The nanosecond count the fraction names: its digits, padded to nine
/// places.
pub open spec fn ts_frac_nanos(s: Seq<char>) -> int {
    digits_val(s, 20, s.len() - 1) * pow10((9 - (s.len() - 21)) as nat)
}

/// The moment the head of the text names, with the given nanosecond count.
pub open spec fn ts_of_head(s: Seq<char>, nanos: int) -> Timestamp {
    Timestamp {
        year: digits_val(s, 0, 4) as u32,
        month: digits_val(s, 5, 7) as u8,
        day: digits_val(s, 8, 10) as u8,
        hour: digits_val(s, 11, 13) as u8,
        minute: digits_val(s, 14, 16) as u8,
        second: digits_val(s, 17, 19) as u8,
        nanos: nanos as u32,
    }
}

/// The moment the text names, if it is well-formed: the date-and-time head,
/// then either a bare `Z` or a fraction and the `Z`.
pub open spec fn parse_ts(s: Seq<char>) -> Option<Timestamp> {
    if !ts_head_valid(s) {
        None
    } else if s.len() == 20 && s[19] == 'Z' {
        Some(ts_of_head(s, 0))
    } else if ts_frac_valid(s) {
        Some(ts_of_head(s, ts_frac_nanos(s)))
    } else {
        None
    }
}

/// Reads one digit character.
fn read_digit(s: &str, i: usize) -> (r: Option<u32>)
    requires
        i < s@.len(),
    ensures
        (r is Some) == is_digit(s@[i as int]),
        r matches Some(d) ==> d == digit_val(s@[i as int]) && d <= 9,
{
    let c = s.get_char(i);
    if '0' <= c && c <= '9' {
        Some(c as u32 - '0' as u32)
    } else {
        None
    }
}

/// Checks one expected punctuation character.
fn expect_char(s: &str, i: usize, expected: char) -> (r: bool)
    requires
        i < s@.len(),
    ensures
        r == (s@[i as int] == expected),
{
    s.get_char(i) == expected
}

/// Reads the two-digit field at positions `i` and `i + 1`.
fn read_two_digits(s: &str, i: usize) -> (r: Option<u32>)
    requires
        i + 1 < s@.len(),
        s@.len() <= usize::MAX,
    ensures
        (r is Some) == (is_digit(s@[i as int]) && is_digit(s@[i + 1])),
        r matches Some(v) ==> v == digits_val(s@, i as int, i + 2) && v <= 99,
{
    let hi = read_digit(s, i);
    let lo = read_digit(s, i + 1);
    match (hi, lo) {
        (Some(hi), Some(lo)) => {
            proof {
                assert(digits_val(s@, i as int, i + 2) == digits_val(s@, i as int, i + 1) * 10
                    + digit_val(s@[i + 1]));
                assert(digits_val(s@, i as int, i + 1) == digits_val(s@, i as int, i as int) * 10
                    + digit_val(s@[i as int]));
            }
            Some(hi * 10 + lo)
        },
        _ => None,
    }
}

/// Ten to the `k`th power, for small `k`.
fn pow10_exec(k: usize) -> (r: u32)
    requires
        k <= 9,
    ensures
        r == pow10(k as nat),
{
    let mut r: u32 = 1;
    let mut j: usize = 0;
    while j < k
        invariant
            0 <= j <= k <= 9,
            r == pow10(j as nat),
            r <= 1000000000,
        decreases k - j,
    {
        proof {
            assert(pow10((j + 1) as nat) == 10 * pow10(j as nat));
            assert(pow10(j as nat) <= pow10(8) ==> 10 * pow10(j as nat) <= 1000000000) by {
                if pow10(j as nat) <= pow10(8) {
                    reveal_with_fuel(pow10, 10);
                    assert(pow10(8) == 100000000);
                }
            }
            lemma_pow10_le(j as nat, 8);
        }
        r = r * 10;
        j = j + 1;
    }
    r
}

/// Ten-to-the-power grows with the exponent.
proof fn lemma_pow10_le(a: nat, b: nat)
    requires
        a <= b,
    ensures
        pow10(a) <= pow10(b),
        pow10(a) >= 1,
    decreases b,
{
    if a < b {
        lemma_pow10_le(a, (b - 1) as nat);
        assert(pow10(b) == 10 * pow10((b - 1) as nat));
    } else if a > 0 {
        lemma_pow10_le((a - 1) as nat, (a - 1) as nat);
        assert(pow10(a) == 10 * pow10((a - 1) as nat));
    }
}

/// The value of up to nine digits stays below ten to the ninth.
proof fn lemma_digits_val_bound(s: Seq<char>, i: int, j: int)
    requires
        0 <= i <= j <= s.len(),
        forall|k: int| i <= k < j ==> is_digit(#[trigger] s[k]),
    ensures
        0 <= digits_val(s, i, j) < pow10((j - i) as nat),
    decreases j - i,
{
    if j <= i {
        assert(pow10(0) == 1);
    } else {
        lemma_digits_val_bound(s, i, j - 1);
        assert(pow10((j - i) as nat) == 10 * pow10((j - i - 1) as nat));
        assert(0 <= digit_val(s[j - 1]) <= 9);
    }
}

/// Parses the log's text form of a moment in universal time.
pub fn parse_timestamp(s: &str) -> (r: Option<Timestamp>)
    ensures
        r == parse_ts(s@),
{
    let len = s.unicode_len();
    if len < 20 {
        return None;
    }
    let year_hi = read_two_digits(s, 0);
    let year_lo = read_two_digits(s, 2);
    let (year_hi, year_lo) = match (year_hi, year_lo) {
        (Some(hi), Some(lo)) => (hi, lo),
        _ => {
            return None;
        },
    };
    proof {
        assert(digits_val(s@, 0, 4) == digits_val(s@, 0, 2) * 100 + digits_val(s@, 2, 4)) by {
            assert(digits_val(s@, 0, 4) == digits_val(s@, 0, 3) * 10 + digit_val(s@[3]));
            assert(digits_val(s@, 0, 3) == digits_val(s@, 0, 2) * 10 + digit_val(s@[2]));
            assert(digits_val(s@, 2, 4) == digits_val(s@, 2, 3) * 10 + digit_val(s@[3]));
            assert(digits_val(s@, 2, 3) == digits_val(s@, 2, 2) * 10 + digit_val(s@[2]));
        }
    }
    let year: u32 = year_hi * 100 + year_lo;
    if !expect_char(s, 4, '-') {
        return None;
    }
    let month = match read_two_digits(s, 5) {
        Some(v) => v,
        None => {
            return None;
        },
    };
    if !expect_char(s, 7, '-') {
        return None;
    }
    let day = match read_two_digits(s, 8) {
        Some(v) => v,
        None => {
            return None;
        },
    };
    if !expect_char(s, 10, 'T') {
        return None;
    }
    let hour = match read_two_digits(s, 11) {
        Some(v) => v,
        None => {
            return None;
        },
    };
    if !expect_char(s, 13, ':') {
        return None;
    }
    let minute = match read_two_digits(s, 14) {
        Some(v) => v,
        None => {
            return None;
        },
    };
    if !expect_char(s, 16, ':') {
        return None;
    }
    let second = match read_two_digits(s, 17) {
        Some(v) => v,
        None => {
            return None;
        },
    };
    if !(1 <= month && month <= 12 && 1 <= day && day <= 31 && hour <= 23 && minute <= 59
        && second <= 60) {
        return None;
    }
    proof {
        assert(ts_head_valid(s@));
    }

    let nanos: u32;
    if len == 20 {
        if !expect_char(s, 19, 'Z') {
            return None;
        }
        nanos = 0;
        proof {
            assert(!ts_frac_valid(s@));
        }
    } else {
        if !expect_char(s, 19, '.') {
            proof {
                assert(!(s@.len() == 20 && s@[19] == 'Z'));
                assert(!ts_frac_valid(s@));
            }
            return None;
        }
        if !expect_char(s, len - 1, 'Z') {
            return None;
        }
        if len < 22 || len > 30 {
            return None;
        }
        let frac_len = len - 21;
        let mut value: u32 = 0;
        let mut j: usize = 20;
        while j < len - 1
            invariant
                20 <= j <= s@.len() - 1,
                len == s@.len(),
                22 <= len <= 30,
                forall|k: int| 20 <= k < j ==> is_digit(#[trigger] s@[k]),
                value == digits_val(s@, 20, j as int),
                value < 1000000000,
            decreases len - j,
        {
            let d = match read_digit(s, j) {
                Some(d) => d,
                None => {
                    proof {
                        assert(!ts_frac_valid(s@));
                    }
                    return None;
                },
            };
            proof {
                lemma_digits_val_bound(s@, 20, j as int);
                lemma_pow10_le((j - 20) as nat, 8);
                reveal_with_fuel(pow10, 10);
            assert(pow10(8) == 100000000);
            }
            value = value * 10 + d;
            j = j + 1;
        }
        proof {
            assert(ts_frac_valid(s@));
            lemma_digits_val_bound(s@, 20, len - 1);
            lemma_pow10_le((frac_len) as nat, 9);
            reveal_with_fuel(pow10, 10);
            assert(pow10(9) == 1000000000);
        }
        let scale = pow10_exec(9 - frac_len);
        proof {
            lemma_pow10_le((9 - frac_len) as nat, 9);
            assert(digits_val(s@, 20, len - 1) * pow10((9 - frac_len) as nat) < pow10(
                frac_len as nat,
            ) * pow10((9 - frac_len) as nat)) by {
                lemma_mul_strict_right(
                    digits_val(s@, 20, len - 1),
                    pow10(frac_len as nat),
                    pow10((9 - frac_len) as nat),
                );
            }
            lemma_pow10_mul(frac_len as nat, (9 - frac_len) as nat);
        }
        nanos = value * scale;
    }
    proof {
        if len == 20 {
            assert(parse_ts(s@) == Some(ts_of_head(s@, 0)));
        } else {
            assert(parse_ts(s@) == Some(ts_of_head(s@, ts_frac_nanos(s@))));
        }
    }
    Some(
        Timestamp {
            year,
            month: month as u8,
            day: day as u8,
            hour: hour as u8,
            minute: minute as u8,
            second: second as u8,
            nanos,
        },
    )
}

/// Multiplying on the right by a positive number keeps a strict bound.
proof fn lemma_mul_strict_right(a: int, b: int, c: int)
    requires
        0 <= a < b,
        c >= 1,
    ensures
        a * c < b * c,
{
    assert(a * c < b * c) by (nonlinear_arith)
        requires
            0 <= a < b,
            c >= 1,
    ;
}

/// Powers of ten multiply by adding exponents.
proof fn lemma_pow10_mul(a: nat, b: nat)
    ensures
        pow10(a) * pow10(b) == pow10(a + b),
    decreases a,
{
    if a == 0 {
        assert(pow10(0) == 1);
    } else {
        lemma_pow10_mul((a - 1) as nat, b);
        assert(pow10(a) == 10 * pow10((a - 1) as nat));
        assert(pow10(a + b) == 10 * pow10((a + b - 1) as nat));
        assert(pow10(a) * pow10(b) == 10 * (pow10((a - 1) as nat) * pow10(b)))
            by (nonlinear_arith)
            requires
                pow10(a) == 10 * pow10((a - 1) as nat),
        ;
    }
}

} // verus!
