//! Parsing a line into a log record: `YYYY-MM-DDTHH:MM:SS LEVEL MESSAGE`.

use vstd::prelude::*;
use crate::level::{Line, LogLevel, Timestamp, token};
use crate::text::{chars_of, string_of};

verus! {

pub open spec fn is_digit(c: char) -> bool {
    '0' <= c <= '9'
}

/// The value of the `n` decimal digits of `s` that start at `i`.
pub open spec fn number(s: Seq<char>, i: int, n: nat) -> nat
    decreases n,
{
    if n == 0 {
        0
    } else {
        number(s, i, (n - 1) as nat) * 10 + (s[i + n - 1] as nat - '0' as nat) as nat
    }
}

/// `s` holds `n` decimal digits from `i` on.
pub open spec fn digits_at(s: Seq<char>, i: int, n: nat) -> bool {
    0 <= i && i + n <= s.len() && forall|j: int| i <= j < i + n ==> #[trigger] is_digit(s[j])
}

/// `s` holds the char `c` at `i`.
pub open spec fn char_at(s: Seq<char>, i: int, c: char) -> bool {
    0 <= i < s.len() && s[i] == c
}

/// The timestamp field: `YYYY-MM-DDTHH:MM:SS` at the start of the line, with a
/// month from 1 to 12, a day from 1 to 31, an hour under 24 and minutes and
/// seconds under 60.
pub open spec fn timestamp_ok(s: Seq<char>) -> bool {
    &&& digits_at(s, 0, 4) && char_at(s, 4, '-') && digits_at(s, 5, 2) && char_at(s, 7, '-')
    &&& digits_at(s, 8, 2) && char_at(s, 10, 'T') && digits_at(s, 11, 2) && char_at(s, 13, ':')
    &&& digits_at(s, 14, 2) && char_at(s, 16, ':') && digits_at(s, 17, 2) && char_at(s, 19, ' ')
    &&& 1 <= number(s, 5, 2) <= 12 && 1 <= number(s, 8, 2) <= 31
    &&& number(s, 11, 2) < 24 && number(s, 14, 2) < 60 && number(s, 17, 2) < 60
}

/// The level field starts at the twentieth char and is followed by a space.
pub open spec fn level_field_is(s: Seq<char>, level: LogLevel) -> bool {
    let n = token(level).len() as int;
    20 + n < s.len() && s.subrange(20, 20 + n) == token(level) && s[20 + n] == ' '
}

/// The level named by the level field, if it names one.
pub open spec fn level_field(s: Seq<char>) -> Option<LogLevel> {
    if level_field_is(s, LogLevel::Error) {
        Some(LogLevel::Error)
    } else if level_field_is(s, LogLevel::Warning) {
        Some(LogLevel::Warning)
    } else if level_field_is(s, LogLevel::Info) {
        Some(LogLevel::Info)
    } else if level_field_is(s, LogLevel::Debug) {
        Some(LogLevel::Debug)
    } else {
        None
    }
}

/// The record that `r` holds is the one the line spells out.
pub open spec fn is_record_of(r: Line, s: Seq<char>) -> bool {
    &&& r.timestamp.year == number(s, 0, 4)
    &&& r.timestamp.month == number(s, 5, 2)
    &&& r.timestamp.day == number(s, 8, 2)
    &&& r.timestamp.hour == number(s, 11, 2)
    &&& r.timestamp.minute == number(s, 14, 2)
    &&& r.timestamp.second == number(s, 17, 2)
    &&& level_field(s) == Some(r.log_level)
    &&& r.message@ == s.subrange(21 + token(r.log_level).len() as int, s.len() as int)
}

/// The value of `n` digits of `s` from `i` on.
fn read_number(s: &Vec<char>, i: usize, n: usize) -> (r: Option<u16>)
    requires
        n <= 4,
        i + n <= s@.len(),
    ensures
        r is Some <==> digits_at(s@, i as int, n as nat),
        r matches Some(v) ==> v == number(s@, i as int, n as nat),
{
    let len = s.len();
    let mut v: u16 = 0;
    let mut j: usize = 0;
    while j < n
        invariant
            len == s@.len(),
            j <= n <= 4,
            i + n <= s@.len(),
            digits_at(s@, i as int, j as nat),
            v == number(s@, i as int, j as nat),
            number(s@, i as int, j as nat) < pow10(j as nat),
        decreases n - j,
    {
        assert(i + j < s@.len());
        let c = s[i + j];
        if !('0' <= c && c <= '9') {
            assert(!is_digit(s@[i + j]));
            return None;
        }
        let d = (c as u32 - '0' as u32) as u16;
        proof {
            reveal_with_fuel(pow10, 5);
            assert(pow10(j as nat) <= 1000) by {
                if j == 0 {
                } else if j == 1 {
                } else if j == 2 {
                } else {
                }
            }
            assert(v <= 999);
            assert(v * 10 + d < pow10((j + 1) as nat));
        }
        v = v * 10 + d;
        j = j + 1;
        assert(digits_at(s@, i as int, j as nat));
    }
    Some(v)
}

pub open spec fn pow10(n: nat) -> nat
    decreases n,
{
    if n == 0 {
        1
    } else {
        pow10((n - 1) as nat) * 10
    }
}

/// Whether `s` holds `tok` from `i` on.
fn matches_at(s: &Vec<char>, i: usize, tok: &Vec<char>) -> (r: bool)
    ensures
        r == (i + tok@.len() <= s@.len() && s@.subrange(i as int, i + tok@.len()) == tok@),
{
    let len = s.len();
    if i > len || tok.len() > len - i {
        return false;
    }
    let mut j: usize = 0;
    while j < tok.len()
        invariant
            len == s@.len(),
            i + tok@.len() <= len,
            j <= tok@.len(),
            forall|q: int| 0 <= q < j ==> s@[i + q] == tok@[q],
        decreases tok@.len() - j,
    {
        if s[i + j] != tok[j] {
            assert(s@.subrange(i as int, i + tok@.len())[j as int] != tok@[j as int]);
            return false;
        }
        j = j + 1;
    }
    assert(s@.subrange(i as int, i + tok@.len()) =~= tok@);
    true
}

/// Whether the level field of `s` is `level`.
fn level_field_matches(s: &Vec<char>, level: LogLevel) -> (r: bool)
    ensures
        r == level_field_is(s@, level),
{
    let tok = level.token_chars();
    let n = tok.len();
    if !matches_at(s, 20, &tok) {
        return false;
    }
    20 + n < s.len() && s[20 + n] == ' '
}

/// Parses one line as a log record `YYYY-MM-DDTHH:MM:SS LEVEL MESSAGE`, where
/// LEVEL is one of the four level names and MESSAGE is the rest of the line.
/// Returns `None` where the line does not have that shape or a timestamp field
/// is out of range.
pub fn parse_line(line: &str) -> (r: Option<Line>)
    ensures
        r is Some <==> timestamp_ok(line@) && level_field(line@) is Some,
        r matches Some(rec) ==> is_record_of(rec, line@),
{
    let s = chars_of(line);
    let len = s.len();
    if len < 20 || s[4] != '-' || s[7] != '-' || s[10] != 'T' || s[13] != ':' || s[16] != ':'
        || s[19] != ' ' {
        return None;
    }
    let year = match read_number(&s, 0, 4) {
        Some(v) => v,
        None => return None,
    };
    let month = match read_number(&s, 5, 2) {
        Some(v) => v,
        None => return None,
    };
    let day = match read_number(&s, 8, 2) {
        Some(v) => v,
        None => return None,
    };
    let hour = match read_number(&s, 11, 2) {
        Some(v) => v,
        None => return None,
    };
    let minute = match read_number(&s, 14, 2) {
        Some(v) => v,
        None => return None,
    };
    let second = match read_number(&s, 17, 2) {
        Some(v) => v,
        None => return None,
    };
    if month < 1 || month > 12 || day < 1 || day > 31 || hour >= 24 || minute >= 60 || second
        >= 60 {
        return None;
    }
    let level = if level_field_matches(&s, LogLevel::Error) {
        LogLevel::Error
    } else if level_field_matches(&s, LogLevel::Warning) {
        LogLevel::Warning
    } else if level_field_matches(&s, LogLevel::Info) {
        LogLevel::Info
    } else if level_field_matches(&s, LogLevel::Debug) {
        LogLevel::Debug
    } else {
        return None;
    };
    let n = level.token_chars().len();
    let message = string_of(&s, 21 + n, len);
    let timestamp = Timestamp {
        year,
        month: month as u8,
        day: day as u8,
        hour: hour as u8,
        minute: minute as u8,
        second: second as u8,
    };
    Some(Line { timestamp, log_level: level, message })
}

} // verus!
