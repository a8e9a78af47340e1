use vstd::prelude::*;
use vstd::string::StringSliceAdditionalSpecFns;

verus! {

use crate::text::is_digit;

// ---------------------------------------------------------------------------
// Time-of-day extraction.
//
// The runtime timestamps samples with an RFC-3339 style string such as
// `2024-01-01T12:34:56.123456789Z`.  Retention spans a single day, so a
// plot's x coordinate only needs the time of day: the milliseconds since
// midnight encoded after the `T`.
// ---------------------------------------------------------------------------

/// First position of byte `c` in `s`, if any.
pub open spec fn spec_find_byte(s: Seq<u8>, c: u8) -> Option<int>
    decreases s.len(),
{
    if s.len() == 0 {
        None
    } else if s[0] == c {
        Some(0)
    } else {
        match spec_find_byte(s.drop_first(), c) {
            Some(i) => Some(i + 1),
            None => None,
        }
    }
}

proof fn lemma_find_byte_skip(s: Seq<u8>, c: u8, i: int)
    requires
        0 <= i <= s.len(),
        forall|j: int| 0 <= j < i ==> s[j] != c,
    ensures
        spec_find_byte(s, c) == match spec_find_byte(s.skip(i), c) {
            Some(w) => Some(w + i),
            None => None::<int>,
        },
    decreases i,
{
    if i == 0 {
        assert(s.skip(0) =~= s);
        match spec_find_byte(s, c) {
            Some(w) => {},
            None => {},
        }
    } else {
        assert(s.len() > 0);
        assert(s[0] != c);
        assert forall|j: int| 0 <= j < i - 1 implies s.drop_first()[j] != c by {
            assert(s.drop_first()[j] == s[j + 1]);
        }
        lemma_find_byte_skip(s.drop_first(), c, i - 1);
        assert(s.drop_first().skip(i - 1) =~= s.skip(i));
    }
}

/// Finds the first occurrence of `c` in `bytes`.
pub fn find_byte(bytes: &[u8], c: u8) -> (r: Option<usize>)
    ensures
        match r {
            Some(i) => spec_find_byte(bytes@, c) == Some(i as int) && i < bytes@.len(),
            None => spec_find_byte(bytes@, c) is None,
        },
{
    let n = bytes.len();
    let mut i: usize = 0;
    loop
        invariant
            0 <= i <= n,
            n == bytes@.len(),
            forall|j: int| 0 <= j < i ==> bytes@[j] != c,
        decreases n - i,
    {
        proof {
            lemma_find_byte_skip(bytes@, c, i as int);
        }
        if i == n {
            proof {
                assert(bytes@.skip(i as int).len() == 0);
            }
            return None;
        }
        proof {
            assert(bytes@.skip(i as int)[0] == bytes@[i as int]);
        }
        if bytes[i] == c {
            return Some(i);
        }
        i = i + 1;
    }
}

/// The value of the two-digit field at `p`, or nothing if the bytes there
/// are not digits.
pub open spec fn spec_two_digits(s: Seq<u8>, p: int) -> Option<int> {
    if 0 <= p && p + 2 <= s.len() && is_digit(s[p]) && is_digit(s[p + 1]) {
        Some((s[p] - 48) * 10 + (s[p + 1] - 48))
    } else {
        None
    }
}

/// The milliseconds encoded by up to three fraction digits after a `.` at
/// position `p`; zero when there is no fraction.
pub open spec fn spec_frac_millis(s: Seq<u8>, p: int) -> int {
    if p + 1 < s.len() && s[p] == 46 && is_digit(s[p + 1]) {
        let d1 = (s[p + 1] - 48) * 100;
        if p + 2 < s.len() && is_digit(s[p + 2]) {
            let d2 = (s[p + 2] - 48) * 10;
            if p + 3 < s.len() && is_digit(s[p + 3]) {
                d1 + d2 + (s[p + 3] - 48)
            } else {
                d1 + d2
            }
        } else {
            d1
        }
    } else {
        0
    }
}

/// The time of day a timestamp string denotes, in milliseconds since
/// midnight: the `HH:MM:SS` (with optional fraction) that follows the
/// first `T`.  Absent when there is no `T` or the clock fields after it
/// are malformed.
pub open spec fn spec_time_of_day_ms(s: Seq<u8>) -> Option<u64> {
    match spec_find_byte(s, 84) {
        None => None,
        Some(t) => {
            let p = t + 1;
            let h = spec_two_digits(s, p);
            let m = spec_two_digits(s, p + 3);
            let sec = spec_two_digits(s, p + 6);
            if h is Some && m is Some && sec is Some && p + 2 < s.len() && s[p + 2] == 58 && p + 5
                < s.len() && s[p + 5] == 58 {
                Some(
                    (((h.unwrap() * 3600 + m.unwrap() * 60 + sec.unwrap()) * 1000
                        + spec_frac_millis(s, p + 8)) as u64),
                )
            } else {
                None
            }
        },
    }
}

/// Parses the time of day out of a timestamp string, in milliseconds
/// since midnight.
pub fn time_of_day_ms(s: &str) -> (r: Option<u64>)
    ensures
        r == spec_time_of_day_ms(s.spec_bytes()),
{
    let bytes = s.as_bytes();
    let n = bytes.len();
    let t = match find_byte(bytes, 84) {
        Some(t) => t,
        None => {
            return None;
        },
    };
    let p = t + 1;
    if n - p < 8 {
        return None;
    }
    let rem = n - p;
    let h = match two_digits(bytes, p) {
        Some(v) => v,
        None => {
            return None;
        },
    };
    let m = match two_digits(bytes, p + 3) {
        Some(v) => v,
        None => {
            return None;
        },
    };
    let sec = match two_digits(bytes, p + 6) {
        Some(v) => v,
        None => {
            return None;
        },
    };
    if bytes[p + 2] != 58 || bytes[p + 5] != 58 {
        return None;
    }
    let mut frac: u64 = 0;
    if rem > 9 && bytes[p + 8] == 46 && bytes[p + 9] >= 48 && bytes[p + 9] <= 57 {
        frac = ((bytes[p + 9] - 48) as u64) * 100;
        if rem > 10 && bytes[p + 10] >= 48 && bytes[p + 10] <= 57 {
            frac = frac + ((bytes[p + 10] - 48) as u64) * 10;
            if rem > 11 && bytes[p + 11] >= 48 && bytes[p + 11] <= 57 {
                frac = frac + ((bytes[p + 11] - 48) as u64);
            }
        }
    }
    Some((h * 3600 + m * 60 + sec) * 1000 + frac)
}

/// Reads the two-digit field at `p`.
fn two_digits(bytes: &[u8], p: usize) -> (r: Option<u64>)
    ensures
        r is Some <==> spec_two_digits(bytes@, p as int) is Some,
        r is Some ==> r.unwrap() == spec_two_digits(bytes@, p as int).unwrap(),
{
    if bytes.len() < 2 || p > bytes.len() - 2 {
        return None;
    }
    let a = bytes[p];
    let b = bytes[p + 1];
    if a >= 48 && a <= 57 && b >= 48 && b <= 57 {
        Some(((a - 48) as u64) * 10 + ((b - 48) as u64))
    } else {
        None
    }
}

} // verus!
