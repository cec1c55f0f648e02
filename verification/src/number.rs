//! Reading a small unsigned number from its decimal text.
//!
//! The text is an optional `+` followed by one or more of the digits `0`
//! to `9`. Leading zeros are allowed. The number must fit in a `u8`.

use vstd::prelude::*;

verus! {

/// Whether `c` is one of the digits `0` to `9`.
pub open spec fn is_digit(c: char) -> bool {
    '0' <= c <= '9'
}

/// The value of the digit `c`.
pub open spec fn digit_value(c: char) -> nat
    recommends
        is_digit(c),
{
    (c as u32 - '0' as u32) as nat
}

/// Whether `s` holds digits only.
pub open spec fn all_digits(s: Seq<char>) -> bool {
    forall|i: int| 0 <= i < s.len() ==> is_digit(#[trigger] s[i])
}

/// The number that the digits of `s` write in base ten; zero for the
/// empty sequence.
pub open spec fn decimal_value(s: Seq<char>) -> nat
    recommends
        all_digits(s),
    decreases s.len(),
{
    if s.len() == 0 {
        0
    } else {
        decimal_value(s.drop_last()) * 10 + digit_value(s.last())
    }
}

/// The digits of `s`: what follows a leading `+`, or all of `s` where it
/// has none.
pub open spec fn unsigned_part(s: Seq<char>) -> Seq<char> {
    if s.len() > 0 && s[0] == '+' {
        s.skip(1)
    } else {
        s
    }
}

/// The `u8` that `s` writes, where it writes one.
pub open spec fn number(s: Seq<char>) -> Option<u8> {
    let d = unsigned_part(s);
    if d.len() > 0 && all_digits(d) && decimal_value(d) <= u8::MAX {
        Some(decimal_value(d) as u8)
    } else {
        None
    }
}

/// A number written with more digits is no smaller than the number that
/// its first `k` digits write.
pub proof fn lemma_decimal_value_grows(s: Seq<char>, k: int)
    requires
        0 <= k <= s.len(),
    ensures
        decimal_value(s.take(k)) <= decimal_value(s),
    decreases s.len(),
{
    if k == s.len() {
        assert(s.take(k) =~= s);
    } else {
        lemma_decimal_value_grows(s.drop_last(), k);
        assert(s.drop_last().take(k) =~= s.take(k));
    }
}

/// Reads a `u8` from its decimal text.
///
/// Returns `None` where `text` is empty or a lone `+`, holds anything but
/// digits after an optional leading `+`, or writes a number above 255.
pub fn parse_number(text: &Vec<char>) -> (r: Option<u8>)
    ensures
        r == number(text@),
{
    let n = text.len();
    let start: usize = if n > 0 && text[0] == '+' {
        1
    } else {
        0
    };
    if start == n {
        return None;
    }
    let ghost d = unsigned_part(text@);
    let mut acc: u32 = 0;
    let mut i: usize = start;
    while i < n
        invariant
            start <= i <= n,
            n == text.len(),
            d == text@.subrange(start as int, n as int),
            d == unsigned_part(text@),
            all_digits(d.take(i - start)),
            acc == decimal_value(d.take(i - start)),
            acc <= u8::MAX,
        decreases n - i,
    {
        let c = text[i];
        let ghost k = i - start;
        if !(c >= '0' && c <= '9') {
            assert(!is_digit(d[k]));
            return None;
        }
        let v: u32 = c as u32 - '0' as u32;
        let next: u32 = acc * 10 + v;
        assert(d.take(k + 1).drop_last() =~= d.take(k));
        if next > 255 {
            proof {
                lemma_decimal_value_grows(d, k + 1);
            }
            return None;
        }
        acc = next;
        i += 1;
    }
    assert(d.take(n - start) =~= d);
    Some(acc as u8)
}

} // verus!
