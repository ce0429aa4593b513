//! Reading the texts of a request: field labels, decimal numbers and group
//! labels.
use vstd::prelude::*;

use crate::UserGroup;

verus! {

pub open spec fn is_digit(c: char) -> bool {
    '0' <= c && c <= '9'
}

pub open spec fn all_digits(d: Seq<char>) -> bool {
    forall|i: int| 0 <= i < d.len() ==> is_digit(#[trigger] d[i])
}

/// The number that a sequence of decimal digits denotes.
pub open spec fn digits_value(d: Seq<char>) -> nat
    decreases d.len(),
{
    if d.len() == 0 {
        0
    } else {
        digits_value(d.drop_last()) * 10 + ((d.last() as int - '0' as int) as nat)
    }
}

/// `t` is the decimal notation of `n`: digits only, no leading zero.
pub open spec fn is_decimal_of(t: Seq<char>, n: nat) -> bool {
    &&& t.len() > 0
    &&& all_digits(t)
    &&& (t[0] == '0' ==> t.len() == 1)
    &&& digits_value(t) == n
}

/// The digits of an unsigned number: the text without one leading `+`.
pub open spec fn unsigned_digits(s: Seq<char>) -> Seq<char> {
    if s.len() > 0 && s[0] == '+' {
        s.drop_first()
    } else {
        s
    }
}

/// The value of `s` read as an unsigned decimal number no larger than
/// `max`: an optional `+` then at least one digit, and nothing else; `None`
/// where that fails or the value is too large.
pub open spec fn decimal_value(s: Seq<char>, max: nat) -> Option<nat> {
    let d = unsigned_digits(s);
    if d.len() > 0 && all_digits(d) && digits_value(d) <= max {
        Some(digits_value(d))
    } else {
        None
    }
}

/// `s` read as a 16-bit unsigned number.
pub open spec fn parse_u16_spec(s: Seq<char>) -> Option<u16> {
    match decimal_value(s, u16::MAX as nat) {
        Some(v) => Some(v as u16),
        None => None,
    }
}

/// `s` read as a 32-bit unsigned number.
pub open spec fn parse_u32_spec(s: Seq<char>) -> Option<u32> {
    match decimal_value(s, u32::MAX as nat) {
        Some(v) => Some(v as u32),
        None => None,
    }
}

/// The group that a label names, if it names one.
pub open spec fn group_of(label: Seq<char>) -> Option<UserGroup> {
    if label == "user"@ {
        Some(UserGroup::User)
    } else if label == "premium"@ {
        Some(UserGroup::Premium)
    } else if label == "admin"@ {
        Some(UserGroup::Admin)
    } else {
        None
    }
}

/// Whether two texts hold the same characters.
pub fn same_text(a: &str, b: &str) -> (r: bool)
    ensures
        r == (a@ == b@),
{
    let n = a.unicode_len();
    if n != b.unicode_len() {
        return false;
    }
    let mut i: usize = 0;
    while i < n
        invariant
            n == a@.len(),
            n == b@.len(),
            i <= n,
            forall|j: int| 0 <= j < i ==> a@[j] == b@[j],
        decreases n - i,
    {
        if a.get_char(i) != b.get_char(i) {
            return false;
        }
        i = i + 1;
    }
    assert(a@ =~= b@);
    true
}

proof fn lemma_digits_value_step(s: Seq<char>, start: int, i: int)
    requires
        0 <= start <= i < s.len(),
    ensures
        digits_value(s.subrange(start, i + 1)) == digits_value(s.subrange(start, i)) * 10 + (
        (s[i] as int - '0' as int) as nat),
{
    assert(s.subrange(start, i + 1).drop_last() =~= s.subrange(start, i));
}

/// Reads an unsigned decimal number no larger than `max`.
fn parse_bounded(s: &str, max: u32) -> (r: Option<u32>)
    ensures
        match r {
            Some(v) => decimal_value(s@, max as nat) == Some(v as nat),
            None => decimal_value(s@, max as nat) is None,
        },
{
    let n = s.unicode_len();
    let mut start: usize = 0;
    if n > 0 && s.get_char(0) == '+' {
        start = 1;
    }
    let ghost d = unsigned_digits(s@);
    assert(d =~= s@.subrange(start as int, n as int));
    if start >= n {
        return None;
    }
    let mut acc: u64 = 0;
    let mut too_large = false;
    let mut i: usize = start;
    while i < n
        invariant
            n == s@.len(),
            start <= i <= n,
            d == unsigned_digits(s@),
            d == s@.subrange(start as int, n as int),
            forall|j: int| start <= j < i ==> is_digit(#[trigger] s@[j]),
            !too_large ==> acc == digits_value(s@.subrange(start as int, i as int)) && acc
                <= max,
            too_large ==> digits_value(s@.subrange(start as int, i as int)) > max,
        decreases n - i,
    {
        let c = s.get_char(i);
        if !('0' <= c && c <= '9') {
            assert(!is_digit(d[i - start]));
            assert(!all_digits(d));
            return None;
        }
        proof {
            lemma_digits_value_step(s@, start as int, i as int);
        }
        if !too_large {
            let v = acc * 10 + (c as u32 - '0' as u32) as u64;
            if v > max as u64 {
                too_large = true;
            } else {
                acc = v;
            }
        }
        i = i + 1;
    }
    assert(all_digits(d)) by {
        assert forall|j: int| 0 <= j < d.len() implies is_digit(#[trigger] d[j]) by {
            assert(d[j] == s@[j + start]);
        }
    }
    assert(s@.subrange(start as int, n as int) == d);
    if too_large {
        None
    } else {
        Some(acc as u32)
    }
}

/// Reads a 16-bit unsigned decimal number.
pub fn parse_u16(s: &str) -> (r: Option<u16>)
    ensures
        r == parse_u16_spec(s@),
{
    match parse_bounded(s, 65535) {
        Some(v) => Some(v as u16),
        None => None,
    }
}

/// Reads a 32-bit unsigned decimal number.
pub fn parse_u32(s: &str) -> (r: Option<u32>)
    ensures
        r == parse_u32_spec(s@),
{
    parse_bounded(s, 4294967295)
}

/// Reads a group label: `user`, `premium` or `admin`.
pub fn parse_group(label: &str) -> (r: Option<UserGroup>)
    ensures
        r == group_of(label@),
{
    if same_text(label, "user") {
        Some(UserGroup::User)
    } else if same_text(label, "premium") {
        Some(UserGroup::Premium)
    } else if same_text(label, "admin") {
        Some(UserGroup::Admin)
    } else {
        None
    }
}

/// Relies on `u32::to_string` (its `Display`): the decimal digits of the
/// number, without sign or leading zeros.
#[verifier::external_body]
pub(crate) fn decimal_text(n: u32) -> (r: String)
    ensures
        is_decimal_of(r@, n as nat),
{
    n.to_string()
}

} // verus!
