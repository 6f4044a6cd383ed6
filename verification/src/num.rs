//! Decimal integers as Rust's `str::parse` reads them: an optional sign,
//! then one or more ASCII digits, with no room for anything else and no
//! value outside the type's range.

use vstd::prelude::*;

verus! {

pub open spec fn is_digit(c: char) -> bool {
    '0' <= c && c <= '9'
}

/// The value of one digit.
pub open spec fn digit_value(c: char) -> int {
    (c as int) - ('0' as int)
}

/// The value of a run of digits, most significant first.
pub open spec fn digits_value(d: Seq<char>) -> int
    decreases d.len(),
{
    if d.len() == 0 {
        0
    } else {
        digits_value(d.drop_last()) * 10 + digit_value(d.last())
    }
}

/// A non-empty run of digits.
pub open spec fn all_digits(d: Seq<char>) -> bool {
    d.len() > 0 && forall|i: int| 0 <= i < d.len() ==> is_digit(#[trigger] d[i])
}

/// `s` read as an unsigned 64-bit integer (`u64::from_str`).
pub open spec fn parsed_u64(s: Seq<char>) -> Option<u64> {
    let d = if s.len() > 0 && s[0] == '+' {
        s.drop_first()
    } else {
        s
    };
    if all_digits(d) && digits_value(d) <= u64::MAX {
        Some(digits_value(d) as u64)
    } else {
        None
    }
}

/// `s` read as a signed 32-bit integer (`i32::from_str`).
pub open spec fn parsed_i32(s: Seq<char>) -> Option<i32> {
    let neg = s.len() > 0 && s[0] == '-';
    let d = if s.len() > 0 && (s[0] == '+' || s[0] == '-') {
        s.drop_first()
    } else {
        s
    };
    let v = if neg {
        -digits_value(d)
    } else {
        digits_value(d)
    };
    if all_digits(d) && i32::MIN <= v <= i32::MAX {
        Some(v as i32)
    } else {
        None
    }
}

proof fn lemma_digits_nonneg(d: Seq<char>)
    requires
        forall|i: int| 0 <= i < d.len() ==> is_digit(#[trigger] d[i]),
    ensures
        digits_value(d) >= 0,
    decreases d.len(),
{
    if d.len() > 0 {
        assert(is_digit(d[d.len() - 1]));
        lemma_digits_nonneg(d.drop_last());
    }
}

/// A longer prefix of digits is worth at least as much.
proof fn lemma_digits_grow(d: Seq<char>, k: int)
    requires
        0 <= k <= d.len(),
        forall|i: int| 0 <= i < d.len() ==> is_digit(#[trigger] d[i]),
    ensures
        digits_value(d.take(k)) <= digits_value(d),
    decreases d.len() - k,
{
    if k < d.len() {
        lemma_digits_grow(d, k + 1);
        assert(d.take(k + 1).drop_last() =~= d.take(k));
        assert(is_digit(d[k]));
        lemma_digits_nonneg(d.take(k));
    } else {
        assert(d.take(k) =~= d);
    }
}

/// The value of the digits `v[from..]` when they are all digits and the value
/// is at most `limit`.
fn digits_upto(v: &Vec<char>, from: usize, limit: u64) -> (r: Option<u64>)
    requires
        from <= v@.len(),
    ensures
        r matches Some(x) ==> all_digits(v@.skip(from as int)) && x == digits_value(v@.skip(from as int))
            && x <= limit,
        r is None ==> !(all_digits(v@.skip(from as int)) && digits_value(v@.skip(from as int)) <= limit),
{
    let ghost d = v@.skip(from as int);
    if from == v.len() {
        return None;
    }
    let mut acc: u64 = 0;
    let mut i = from;
    while i < v.len()
        invariant
            from <= i <= v@.len(),
            d == v@.skip(from as int),
            acc <= limit,
            forall|j: int| 0 <= j < i - from ==> is_digit(#[trigger] d[j]),
            acc == digits_value(d.take(i - from)),
        decreases v.len() - i,
    {
        let c = v[i];
        if !('0' <= c && c <= '9') {
            assert(d[i - from] == c);
            return None;
        }
        let dv = (c as u32 - '0' as u32) as u64;
        assert(d.take(i - from + 1).drop_last() =~= d.take(i - from));
        assert(d.take(i - from + 1).last() == c);
        let next = match acc.checked_mul(10) {
            Some(t) => t.checked_add(dv),
            None => None,
        };
        match next {
            Some(x) if x <= limit => {
                acc = x;
            },
            _ => {
                proof {
                    if all_digits(d) {
                        lemma_digits_grow(d, i - from + 1);
                    }
                }
                return None;
            },
        }
        i = i + 1;
    }
    assert(d.take(i - from) =~= d);
    Some(acc)
}

/// `s` read as a `u64`, as `s.parse::<u64>()` does.
pub fn parse_u64(v: &Vec<char>) -> (r: Option<u64>)
    ensures
        r == parsed_u64(v@),
{
    let from: usize = if v.len() > 0 && v[0] == '+' {
        1
    } else {
        0
    };
    assert(v@.skip(1) =~= v@.drop_first());
    assert(v@.skip(0) =~= v@);
    digits_upto(v, from, u64::MAX)
}

/// `s` read as an `i32`, as `s.parse::<i32>()` does.
pub fn parse_i32(v: &Vec<char>) -> (r: Option<i32>)
    ensures
        r == parsed_i32(v@),
{
    let neg = v.len() > 0 && v[0] == '-';
    let from: usize = if v.len() > 0 && (v[0] == '+' || v[0] == '-') {
        1
    } else {
        0
    };
    assert(v@.skip(1) =~= v@.drop_first());
    assert(v@.skip(0) =~= v@);
    let limit: u64 = if neg {
        2147483648
    } else {
        2147483647
    };
    match digits_upto(v, from, limit) {
        Some(x) => {
            if neg {
                if x == 2147483648 {
                    Some(-2147483647i32 - 1)
                } else {
                    Some(-(x as i32))
                }
            } else {
                Some(x as i32)
            }
        },
        None => None,
    }
}

} // verus!
