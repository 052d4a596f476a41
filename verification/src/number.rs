//! Decimal numerals: what a run of digits denotes, and whether it fits a
//! 32-bit signed integer.

use vstd::prelude::*;
use crate::chars::is_ascii_digit;

verus! {

/// Every character of `s` is a decimal digit of ASCII.
pub open spec fn all_ascii_digits(s: Seq<char>) -> bool {
    forall|i: int| 0 <= i < s.len() ==> is_ascii_digit(#[trigger] s[i])
}

/// The number that a decimal digit stands for.
pub open spec fn digit_value(c: char) -> int {
    c as u32 - 48
}

/// The number that a decimal numeral denotes, its first digit weighing most.
pub open spec fn decimal_value(s: Seq<char>) -> int
    decreases s.len(),
{
    if s.len() == 0 {
        0
    } else {
        decimal_value(s.drop_last()) * 10 + digit_value(s.last())
    }
}

/// `s` is a decimal numeral of at least one digit whose value a 32-bit signed
/// integer can hold.
pub open spec fn denotes_i32(s: Seq<char>) -> bool {
    s.len() > 0 && all_ascii_digits(s) && decimal_value(s) <= i32::MAX
}

/// A numeral's value is never below that of one of its prefixes.
pub proof fn lemma_prefix_value(s: Seq<char>, k: int)
    requires
        all_ascii_digits(s),
        0 <= k <= s.len(),
    ensures
        0 <= decimal_value(s.take(k)) <= decimal_value(s),
    decreases s.len() - k,
{
    if k == s.len() {
        assert(s.take(k) == s);
        lemma_value_not_negative(s);
    } else {
        let t = s.drop_last();
        assert(t.take(k) == s.take(k));
        assert(all_ascii_digits(t)) by {
            assert forall|i: int| 0 <= i < t.len() implies is_ascii_digit(#[trigger] t[i]) by {
                assert(t[i] == s[i]);
            }
        }
        lemma_prefix_value(t, k);
        assert(is_ascii_digit(s[s.len() - 1]));
    }
}

/// A numeral's value is not negative.
pub proof fn lemma_value_not_negative(s: Seq<char>)
    requires
        all_ascii_digits(s),
    ensures
        0 <= decimal_value(s),
    decreases s.len(),
{
    if s.len() > 0 {
        let t = s.drop_last();
        assert forall|i: int| 0 <= i < t.len() implies is_ascii_digit(#[trigger] t[i]) by {
            assert(t[i] == s[i]);
        }
        lemma_value_not_negative(t);
        assert(is_ascii_digit(s[s.len() - 1]));
    }
}

/// Reads a decimal numeral. `Some` exactly for a numeral that fits 32 signed
/// bits, with its value.
pub fn parse_decimal(text: &String) -> (r: Option<i32>)
    ensures
        r is Some <==> denotes_i32(text@),
        r matches Some(v) ==> v == decimal_value(text@),
{
    let s = text.as_str();
    let n: usize = s.unicode_len();
    if n == 0 {
        return None;
    }
    let mut v: i32 = 0;
    let mut i: usize = 0;
    while i < n
        invariant
            i <= n,
            n == text@.len(),
            s@ == text@,
            all_ascii_digits(text@.take(i as int)),
            v == decimal_value(text@.take(i as int)),
            0 <= v,
        decreases n - i,
    {
        let c: char = s.get_char(i);
        let u: u32 = c as u32;
        if u < 48 || u > 57 {
            proof {
                assert(!is_ascii_digit(text@[i as int]));
            }
            return None;
        }
        let d: i32 = (u - 48) as i32;
        proof {
            let p = text@.take(i as int + 1);
            assert(p.drop_last() == text@.take(i as int));
            assert(p.last() == c);
            assert(decimal_value(p) == v * 10 + d);
            assert forall|j: int| 0 <= j < p.len() implies is_ascii_digit(#[trigger] p[j]) by {
                if j < i {
                    assert(text@.take(i as int)[j] == p[j]);
                }
            }
        }
        if v > (i32::MAX - d) / 10 {
            proof {
                if all_ascii_digits(text@) {
                    lemma_prefix_value(text@, i as int + 1);
                }
            }
            return None;
        }
        v = v * 10 + d;
        i += 1;
    }
    proof {
        assert(text@.take(n as int) == text@);
    }
    Some(v)
}

} // verus!
