//! The expiration and view-limit policy: pure functions from the
//! user's free-form input to stored constraints. Malformed input is
//! never an error; it degrades to the most permissive behavior.

use vstd::prelude::*;
use vstd::string::StrSliceExecFns;
use crate::models::opt_int;

verus! {

/// The number of seconds a recognized expiration token stands for.
/// Only "10m", "1h", "1d" and "1w" are recognized; any other token
/// (the empty string included) means "no expiration".
pub open spec fn expiration_seconds(token: Seq<char>) -> Option<int> {
    if token == "10m"@ {
        Some(600int)
    } else if token == "1h"@ {
        Some(3600int)
    } else if token == "1d"@ {
        Some(86400int)
    } else if token == "1w"@ {
        Some(604800int)
    } else {
        None
    }
}

/// Is `c` a decimal digit?
pub open spec fn is_digit(c: char) -> bool {
    48 <= c as u32 <= 57
}

/// The value of the decimal digit `c`.
pub open spec fn digit_val(c: char) -> int {
    c as u32 - 48
}

/// Does every character of `s` stand for a decimal digit?
pub open spec fn is_digit_seq(s: Seq<char>) -> bool {
    forall|i: int| 0 <= i < s.len() ==> is_digit(#[trigger] s[i])
}

/// The non-negative integer that the digit string `s` spells.
pub open spec fn digits_val(s: Seq<char>) -> int
    decreases s.len(),
{
    if s.len() == 0 {
        0
    } else {
        digits_val(s.drop_last()) * 10 + digit_val(s.last())
    }
}

/// The submission with one optional leading plus sign stripped; what
/// remains must spell the digits of the cap.
pub open spec fn cap_digits(raw: Seq<char>) -> Seq<char> {
    if raw.len() > 0 && raw[0] == '+' {
        raw.skip(1)
    } else {
        raw
    }
}

/// The view cap that a raw submission resolves to: an optional
/// leading plus sign, then one or more decimal digits whose value
/// fits a signed 64-bit integer, becomes that value, the exact
/// number of successful views to permit; anything else (empty, a
/// minus sign, other characters, an overflowing value) resolves to
/// "no limit".
pub open spec fn view_cap(raw: Seq<char>) -> Option<int> {
    let digits = cap_digits(raw);
    if digits.len() > 0 && is_digit_seq(digits) && digits_val(digits) <= i64::MAX {
        Some(digits_val(digits))
    } else {
        None
    }
}

/// A digit prefix never spells more than the whole digit string.
proof fn lemma_digits_prefix_le(s: Seq<char>, i: int)
    requires
        0 <= i <= s.len(),
        is_digit_seq(s),
    ensures
        0 <= digits_val(s.take(i)) <= digits_val(s),
    decreases s.len() - i,
{
    if i == s.len() {
        assert(s.take(i) =~= s);
        lemma_digits_nonneg(s);
    } else {
        lemma_digits_prefix_le(s, i + 1);
        assert(s.take(i + 1).drop_last() =~= s.take(i));
        assert(s.take(i + 1).last() == s[i]);
        lemma_digits_nonneg(s.take(i));
    }
}

/// A digit string spells a non-negative value.
proof fn lemma_digits_nonneg(s: Seq<char>)
    requires
        is_digit_seq(s),
    ensures
        digits_val(s) >= 0,
    decreases s.len(),
{
    if s.len() > 0 {
        assert(is_digit_seq(s.drop_last())) by {
            assert(forall|i: int|
                0 <= i < s.len() - 1 ==> is_digit(#[trigger] s.drop_last()[i]) == is_digit(s[i]));
        }
        lemma_digits_nonneg(s.drop_last());
    }
}

/// A resolved view cap is never negative and always fits the
/// counter's machine type.
pub proof fn lemma_view_cap_bounds(raw: Seq<char>)
    ensures
        view_cap(raw) is Some ==> 0 <= view_cap(raw)->0 <= i64::MAX,
{
    let digits = cap_digits(raw);
    if digits.len() > 0 && is_digit_seq(digits) && digits_val(digits) <= i64::MAX {
        lemma_digits_nonneg(digits);
    }
}

/// Character-for-character string equality, specified over the views.
pub fn str_eq(a: &str, b: &str) -> (r: bool)
    ensures
        r == (a@ == b@),
{
    let an = a.unicode_len();
    let bn = b.unicode_len();
    if an != bn {
        return false;
    }
    let mut i: usize = 0;
    while i < an
        invariant
            0 <= i <= an,
            an == a@.len(),
            bn == b@.len(),
            an == bn,
            forall|j: int| 0 <= j < i ==> a@[j] == b@[j],
        decreases an - i,
    {
        if a.get_char(i) != b.get_char(i) {
            return false;
        }
        i += 1;
    }
    proof {
        assert(a@ =~= b@);
    }
    true
}

/// Maps the user's expiration token to a duration in seconds, or to
/// "no expiration" for any unrecognized token.
pub fn resolve_expiration(token: &str) -> (r: Option<i64>)
    ensures
        opt_int(r) == expiration_seconds(token@),
{
    if str_eq(token, "10m") {
        Some(600)
    } else if str_eq(token, "1h") {
        Some(3600)
    } else if str_eq(token, "1d") {
        Some(86400)
    } else if str_eq(token, "1w") {
        Some(604800)
    } else {
        None
    }
}

/// Parses the user's view cap as a non-negative decimal integer,
/// with one optional leading plus sign; on any parse failure (empty
/// input included) the limit is absent, the most permissive
/// behavior.
pub fn resolve_max_views(raw: &str) -> (r: Option<i64>)
    ensures
        opt_int(r) == view_cap(raw@),
        r is Some ==> r->0 >= 0,
{
    let n = raw.unicode_len();
    let mut start: usize = 0;
    if n > 0 && raw.get_char(0) == '+' {
        start = 1;
    }
    proof {
        assert(cap_digits(raw@) =~= raw@.skip(start as int));
    }
    if n == start {
        return None;
    }
    let ghost digits = raw@.skip(start as int);
    let mut acc: i64 = 0;
    let mut i: usize = start;
    while i < n
        invariant
            n == raw@.len(),
            start <= i <= n,
            start < n,
            digits == raw@.skip(start as int),
            cap_digits(raw@) == digits,
            digits.len() == n - start,
            forall|j: int| 0 <= j < i - start ==> is_digit(#[trigger] digits[j]),
            acc == digits_val(digits.take(i - start)),
            0 <= acc <= i64::MAX,
        decreases n - i,
    {
        let c = raw.get_char(i);
        let u = c as u32;
        proof {
            assert(digits[i - start] == raw@[i as int]);
        }
        if u < 48 || u > 57 {
            return None;
        }
        let d = (u - 48) as i64;
        proof {
            assert(digits.take(i - start + 1).drop_last() =~= digits.take(i - start));
            assert(digits.take(i - start + 1).last() == digits[i - start]);
        }
        if acc > (i64::MAX - d) / 10 {
            proof {
                if is_digit_seq(digits) {
                    let q = (i64::MAX - d) / 10;
                    assert(i64::MAX - d == q * 10 + (i64::MAX - d) % 10);
                    assert(acc * 10 >= (q + 1) * 10);
                    lemma_digits_prefix_le(digits, i - start + 1);
                }
            }
            return None;
        }
        proof {
            let q = (i64::MAX - d) / 10;
            assert(i64::MAX - d == q * 10 + (i64::MAX - d) % 10);
            assert(acc * 10 <= q * 10);
        }
        acc = acc * 10 + d;
        i += 1;
    }
    proof {
        assert(digits.take(n - start) =~= digits);
    }
    Some(acc)
}

} // verus!
