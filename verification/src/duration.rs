//! The sync-interval configuration grammar: a decimal number followed by a
//! unit — `ms`, `s` or `m`, no unit meaning milliseconds — and the 1-second
//! minimum that backends enforce on it. Reading the configured string from
//! the environment is the caller's business; this module decides what it
//! means.

use vstd::prelude::*;
use vstd::string::StrSliceExecFns;

verus! {

/// Minimum sync interval, in milliseconds.
pub const MIN_SYNC_MILLIS: u64 = 1000;

/// A sync interval, with millisecond resolution.
#[derive(Clone, Copy, Debug, PartialEq, Eq, Structural)]
pub struct SyncDuration {
    millis: u64,
}

impl View for SyncDuration {
    type V = u64;

    closed spec fn view(&self) -> u64 {
        self.millis
    }
}

impl SyncDuration {
    pub fn from_millis(millis: u64) -> (duration: Self)
        ensures
            duration@ == millis,
    {
        SyncDuration { millis }
    }

    pub fn from_secs(secs: u64) -> (duration: Self)
        requires
            secs * 1000 <= u64::MAX,
        ensures
            duration@ == secs * 1000,
    {
        SyncDuration { millis: secs * 1000 }
    }

    pub fn as_millis(&self) -> (millis: u64)
        ensures
            millis == self@,
    {
        self.millis
    }
}

/// An ASCII decimal digit.
pub open spec fn is_ascii_digit(c: char) -> bool {
    '0' <= c && c <= '9'
}

/// The number of leading digits of a string.
pub open spec fn digit_prefix_len(s: Seq<char>) -> nat
    decreases s.len(),
{
    if s.len() == 0 || !is_ascii_digit(s[0]) {
        0
    } else {
        1 + digit_prefix_len(s.drop_first())
    }
}

/// The value of a string of decimal digits.
pub open spec fn decimal_value(s: Seq<char>) -> int
    decreases s.len(),
{
    if s.len() == 0 {
        0
    } else {
        decimal_value(s.drop_last()) * 10 + (s.last() as int - '0' as int)
    }
}

/// The factor, in milliseconds, of a duration unit: no unit or `ms` is
/// milliseconds, `s` seconds, `m` minutes; anything else is unknown.
pub open spec fn unit_factor(unit: Seq<char>) -> Option<int> {
    if unit.len() == 0 {
        Some(1)
    } else if unit.len() == 1 && unit[0] == 's' {
        Some(1000)
    } else if unit.len() == 1 && unit[0] == 'm' {
        Some(60000)
    } else if unit.len() == 2 && unit[0] == 'm' && unit[1] == 's' {
        Some(1)
    } else {
        None
    }
}

/// What the duration grammar accepts, in milliseconds: at most 7
/// characters — a run of digits (possibly empty, valued at most 65535)
/// followed by a unit.
pub open spec fn duration_millis(s: Seq<char>) -> Option<int> {
    let digits = digit_prefix_len(s) as int;
    let num = decimal_value(s.subrange(0, digits));
    if s.len() > 7 {
        None
    } else if num > 65535 {
        None
    } else {
        match unit_factor(s.subrange(digits, s.len() as int)) {
            Some(factor) => Some(num * factor),
            None => None,
        }
    }
}

/// `digit_prefix_len` is the unique scan boundary: every character before
/// it is a digit, and the character at it (if any) is not.
proof fn lemma_digit_prefix_len_is(s: Seq<char>, i: int)
    requires
        0 <= i <= s.len(),
        forall|j: int| 0 <= j < i ==> is_ascii_digit(s[j]),
        i < s.len() ==> !is_ascii_digit(s[i]),
    ensures
        digit_prefix_len(s) == i,
    decreases s.len(),
{
    if i == 0 {
    } else {
        let rest = s.drop_first();
        assert(forall|j: int| 0 <= j < i - 1 ==> is_ascii_digit(rest[j]));
        lemma_digit_prefix_len_is(rest, i - 1);
    }
}

/// Ten to the `k`-th power; bounds the value of a `k`-digit number.
spec fn pow10(k: nat) -> int
    decreases k,
{
    if k == 0 {
        1
    } else {
        10 * pow10((k - 1) as nat)
    }
}

proof fn lemma_pow10_positive(k: nat)
    ensures
        pow10(k) >= 1,
    decreases k,
{
    if k > 0 {
        lemma_pow10_positive((k - 1) as nat);
    }
}

proof fn lemma_pow10_monotonic(a: nat, b: nat)
    requires
        a <= b,
    ensures
        pow10(a) <= pow10(b),
    decreases b,
{
    if a < b {
        lemma_pow10_monotonic(a, (b - 1) as nat);
        lemma_pow10_positive((b - 1) as nat);
    }
}

/// Parses a sync-interval duration string: a decimal number of at most
/// 65535 followed by `ms`, `s` or `m` (no unit means milliseconds).
/// Returns the duration, or a message for the operator on any malformed
/// input.
pub fn parse_duration(s: &str) -> (result: Result<SyncDuration, String>)
    ensures
        result is Ok <==> duration_millis(s@) is Some,
        result matches Ok(d) ==> duration_millis(s@) == Some(d@ as int),
{
    let len = s.unicode_len();
    if len > 7 {
        return Err(
            "Invalid duration string. Expected a number followed by 'ms', 's', or 'm'".to_string(),
        );
    }
    let mut i: usize = 0;
    let mut num: u32 = 0;
    while i < len
        invariant_except_break
            len == s@.len(),
            len <= 7,
            0 <= i <= len,
            forall|j: int| 0 <= j < i ==> is_ascii_digit(s@[j]),
            num == decimal_value(s@.subrange(0, i as int)),
            num < pow10(i as nat),
            num <= 9999999,
        ensures
            len == s@.len(),
            len <= 7,
            0 <= i <= len,
            forall|j: int| 0 <= j < i ==> is_ascii_digit(s@[j]),
            i < len ==> !is_ascii_digit(s@[i as int]),
            num == decimal_value(s@.subrange(0, i as int)),
            num <= 9999999,
        decreases len - i,
    {
        let c = s.get_char(i);
        if !(c >= '0' && c <= '9') {
            proof {
                lemma_pow10_monotonic(i as nat, 7);
                reveal_with_fuel(pow10, 8);
                assert(pow10(7) == 10000000);
            }
            break;
        }
        proof {
            assert(s@.subrange(0, i + 1).drop_last() =~= s@.subrange(0, i as int));
            assert(s@.subrange(0, i + 1).last() == s@[i as int]);
            lemma_pow10_monotonic(i as nat, 6);
            reveal_with_fuel(pow10, 8);
            assert(pow10(6) == 1000000);
        }
        num = num * 10 + (c as u32 - 48);
        i = i + 1;
        proof {
            if i == len {
                lemma_pow10_monotonic(i as nat, 7);
                reveal_with_fuel(pow10, 8);
                assert(pow10(7) == 10000000);
            }
        }
    }
    proof {
        lemma_digit_prefix_len_is(s@, i as int);
    }
    if num > 65535 {
        return Err("Provided duration is too large. Expected a number <= 65535".to_string());
    }
    let ghost unit = s@.subrange(i as int, len as int);
    let unit_len = len - i;
    if unit_len == 0 {
        proof {
            assert(duration_millis(s@) == Some((num as int) * 1));
        }
        Ok(SyncDuration::from_millis(num as u64))
    } else if unit_len == 1 {
        let c = s.get_char(i);
        proof {
            assert(unit[0] == s@[i as int]);
        }
        if c == 's' {
            Ok(SyncDuration::from_millis((num as u64) * 1000))
        } else if c == 'm' {
            Ok(SyncDuration::from_millis((num as u64) * 60000))
        } else {
            Err("Unknown duration unit. Expected 'ms', 's', or 'm'".to_string())
        }
    } else if unit_len == 2 {
        let c0 = s.get_char(i);
        let c1 = s.get_char(i + 1);
        proof {
            assert(unit[0] == s@[i as int]);
            assert(unit[1] == s@[i + 1]);
        }
        if c0 == 'm' && c1 == 's' {
            Ok(SyncDuration::from_millis(num as u64))
        } else {
            Err("Unknown duration unit. Expected 'ms', 's', or 'm'".to_string())
        }
    } else {
        Err("Unknown duration unit. Expected 'ms', 's', or 'm'".to_string())
    }
}

/// The sync interval a configured duration string yields: the parsed
/// duration, raised to the 1-second minimum. A malformed string is a
/// configuration error, fatal at startup.
pub fn parse_sync_frequency(s: &str) -> (result: Result<SyncDuration, String>)
    ensures
        result is Ok <==> duration_millis(s@) is Some,
        result matches Ok(d) ==> duration_millis(s@) matches Some(m) && d@ == if m
            < MIN_SYNC_MILLIS as int {
            MIN_SYNC_MILLIS as int
        } else {
            m
        },
{
    match parse_duration(s) {
        Ok(d) => {
            if d.as_millis() < MIN_SYNC_MILLIS {
                Ok(SyncDuration::from_millis(MIN_SYNC_MILLIS))
            } else {
                Ok(d)
            }
        },
        Err(e) => Err(e),
    }
}

} // verus!
