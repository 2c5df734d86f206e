use vstd::prelude::*;

use crate::conf::{RESPONSE_POWER, TERMINATOR_LINE, TERMINATOR_POWER};
use crate::setting::decimal;
use crate::Error;

verus! {

/// An ASCII decimal digit.
pub open spec fn is_digit(b: u8) -> bool {
    48 <= b && b <= 57
}

/// Number of ASCII digits at the start of `s`.
pub open spec fn digit_run(s: Seq<u8>) -> nat
    decreases s.len(),
{
    if s.len() > 0 && is_digit(s[0]) {
        1 + digit_run(s.drop_first())
    } else {
        0
    }
}

/// Base-10 value of a run of ASCII digits, most significant digit first.
pub open spec fn digits_value(s: Seq<u8>) -> int
    decreases s.len(),
{
    if s.len() == 0 {
        0
    } else {
        digits_value(s.drop_last()) * 10 + (s.last() - 48)
    }
}

/// Whether `pat` occurs in `v` at position `pos`.
pub open spec fn occurs_at(v: Seq<u8>, pos: int, pat: Seq<u8>) -> bool {
    0 <= pos && pos + pat.len() <= v.len() && v.subrange(pos, pos + pat.len()) == pat
}

/// The number carried by a reply `prefix digits terminator ...`: the reply
/// starts with `prefix`, a non-empty run of digits follows it immediately,
/// the terminator follows the digits immediately, and the value fits an `i32`.
/// Bytes after the terminator are not looked at.
pub open spec fn parse_field(v: Seq<u8>, prefix: Seq<u8>, term: Seq<u8>) -> Option<int> {
    let p = prefix.len() as int;
    if occurs_at(v, 0, prefix) {
        let k = digit_run(v.subrange(p, v.len() as int)) as int;
        let n = digits_value(v.subrange(p, p + k));
        if k > 0 && occurs_at(v, p + k, term) && n <= i32::MAX {
            Some(n)
        } else {
            None
        }
    } else {
        None
    }
}

/// The terminator that follows the number in a reply with this prefix.
pub open spec fn terminator_for(prefix: Seq<u8>) -> Seq<u8> {
    if prefix == RESPONSE_POWER@ {
        TERMINATOR_POWER@
    } else {
        TERMINATOR_LINE@
    }
}

/// Whether two byte sequences are equal.
pub fn bytes_equal(a: &[u8], b: &[u8]) -> (r: bool)
    ensures
        r == (a@ == b@),
{
    if a.len() != b.len() {
        return false;
    }
    let mut i: usize = 0;
    while i < a.len()
        invariant
            a@.len() == b@.len(),
            i <= a@.len(),
            forall|j: int| 0 <= j < i ==> a@[j] == b@[j],
        decreases a@.len() - i,
    {
        if a[i] != b[i] {
            return false;
        }
        i += 1;
    }
    assert(a@ =~= b@);
    true
}

/// Whether `pat` occurs in `v` at position `pos`.
pub fn matches_at(v: &[u8], pos: usize, pat: &[u8]) -> (r: bool)
    requires
        pos <= v@.len(),
    ensures
        r == occurs_at(v@, pos as int, pat@),
{
    if v.len() - pos < pat.len() {
        return false;
    }
    let mut i: usize = 0;
    while i < pat.len()
        invariant
            pos + pat@.len() <= v.len(),
            i <= pat@.len(),
            forall|j: int| 0 <= j < i ==> v@[pos + j] == pat@[j],
        decreases pat@.len() - i,
    {
        if v[pos + i] != pat[i] {
            assert(v@.subrange(pos as int, pos + pat@.len())[i as int] != pat@[i as int]);
            return false;
        }
        i += 1;
    }
    assert(v@.subrange(pos as int, pos + pat@.len()) =~= pat@);
    true
}

proof fn lemma_digit_run(s: Seq<u8>, n: int)
    requires
        0 <= n <= s.len(),
        forall|j: int| 0 <= j < n ==> is_digit(#[trigger] s[j]),
        n == s.len() || !is_digit(s[n]),
    ensures
        digit_run(s) == n,
    decreases n,
{
    if n > 0 {
        let t = s.drop_first();
        assert forall|j: int| 0 <= j < n - 1 implies is_digit(#[trigger] t[j]) by {
            assert(t[j] == s[j + 1]);
        }
        if n < s.len() {
            assert(t[n - 1] == s[n]);
        }
        lemma_digit_run(t, n - 1);
    }
}

/// Parses a reply of the shape `prefix digits term`, as `parse_field` states.
pub fn parse_number_field(value: &[u8], prefix: &[u8], term: &[u8]) -> (r: Result<i32, Error>)
    ensures
        match r {
            Ok(n) => parse_field(value@, prefix@, term@) == Some(n as int),
            Err(e) => e == Error::Parse && parse_field(value@, prefix@, term@) is None,
        },
{
    if !matches_at(value, 0, prefix) {
        return Err(Error::Parse);
    }
    let p = prefix.len();
    let ghost v = value@;
    let ghost rest = v.subrange(p as int, v.len() as int);
    // `acc` is the value of the digits seen so far, or `i32::MAX + 1` once it no longer fits.
    let cap: i64 = 2147483648;
    let mut acc: i64 = 0;
    let mut i: usize = p;
    while i < value.len() && value[i] >= 48 && value[i] <= 57
        invariant
            p == prefix@.len(),
            p <= i <= v.len(),
            v == value@,
            rest == v.subrange(p as int, v.len() as int),
            cap == 2147483648,
            0 <= acc <= cap,
            forall|j: int| p <= j < i ==> is_digit(#[trigger] v[j]),
            digits_value(v.subrange(p as int, i as int)) <= i32::MAX ==> acc == digits_value(
                v.subrange(p as int, i as int),
            ),
            digits_value(v.subrange(p as int, i as int)) > i32::MAX ==> acc == cap,
        decreases v.len() - i,
    {
        let d = (value[i] - 48) as i64;
        proof {
            let s = v.subrange(p as int, i + 1);
            assert(s.drop_last() =~= v.subrange(p as int, i as int));
            assert(s.last() == v[i as int]);
        }
        if acc < cap {
            let next = acc * 10 + d;
            if next > 2147483647 {
                acc = cap;
            } else {
                acc = next;
            }
        }
        i += 1;
    }
    proof {
        assert forall|j: int| 0 <= j < i - p implies is_digit(#[trigger] rest[j]) by {
            assert(rest[j] == v[p + j]);
        }
        if i < v.len() {
            assert(rest[i - p] == v[i as int]);
        }
        lemma_digit_run(rest, i - p);
    }
    if i == p || acc == cap || !matches_at(value, i, term) {
        return Err(Error::Parse);
    }
    Ok(acc as i32)
}

/// Parses the number carried by a module reply with the given prefix. The
/// power reply (`OK+P:+`) ends with `dBm\r\n`, every other reply with `\r\n`.
pub fn format_converter(value: &[u8], response: &[u8]) -> (r: Result<i32, Error>)
    ensures
        match r {
            Ok(n) => parse_field(value@, response@, terminator_for(response@)) == Some(n as int),
            Err(e) => e == Error::Parse && parse_field(
                value@,
                response@,
                terminator_for(response@),
            ) is None,
        },
{
    if bytes_equal(response, &RESPONSE_POWER) {
        parse_number_field(value, response, &TERMINATOR_POWER)
    } else {
        parse_number_field(value, response, &TERMINATOR_LINE)
    }
}

proof fn lemma_decimal_digits(n: nat)
    ensures
        decimal(n).len() > 0,
        forall|j: int| 0 <= j < decimal(n).len() ==> is_digit(#[trigger] decimal(n)[j]),
        digits_value(decimal(n)) == n,
    decreases n,
{
    if n >= 10 {
        lemma_decimal_digits(n / 10);
        let d = decimal(n);
        assert(d.drop_last() =~= decimal(n / 10));
        assert(d.last() == (48 + n % 10) as u8);
        assert(digits_value(d) == digits_value(decimal(n / 10)) * 10 + (d.last() - 48));
        assert((n / 10) * 10 + n % 10 == n);
        assert forall|j: int| 0 <= j < d.len() implies is_digit(#[trigger] d[j]) by {
            if j < d.len() - 1 {
                assert(d[j] == decimal(n / 10)[j]);
            }
        }
    } else {
        assert(decimal(n).drop_last() =~= Seq::<u8>::empty());
        assert(digits_value(Seq::<u8>::empty()) == 0);
        assert(decimal(n).last() == (48 + n) as u8);
    }
}

/// A reply written as `prefix`, the number in base 10, `term` and any further
/// bytes reads back as that number, provided the terminator does not start
/// with a digit and the number fits an `i32`.
pub proof fn lemma_reply_round_trip(prefix: Seq<u8>, n: nat, term: Seq<u8>, rest: Seq<u8>)
    requires
        n <= i32::MAX,
        term.len() > 0,
        !is_digit(term[0]),
    ensures
        parse_field(prefix + decimal(n) + term + rest, prefix, term) == Some(n as int),
{
    let d = decimal(n);
    let v = prefix + d + term + rest;
    let p = prefix.len() as int;
    lemma_decimal_digits(n);
    assert(v.subrange(0, p) =~= prefix);
    let after = v.subrange(p, v.len() as int);
    assert forall|j: int| 0 <= j < d.len() implies is_digit(#[trigger] after[j]) by {
        assert(after[j] == d[j]);
    }
    assert(after[d.len() as int] == term[0]);
    lemma_digit_run(after, d.len() as int);
    assert(v.subrange(p, p + d.len()) =~= d);
    assert(v.subrange(p + d.len(), p + d.len() + term.len()) =~= term);
}

} // verus!
