//! Parsing the numeric payload of the `activate_group` command: an unsigned
//! byte written in decimal, with an optional leading `+`, as Rust's standard
//! unsigned-integer parsing reads it.

use vstd::prelude::*;

verus! {

/// `c` is a decimal digit.
pub open spec fn is_digit_char(c: char) -> bool {
    48 <= c as u32 <= 57
}

/// Every character of `s` is a decimal digit.
pub open spec fn all_digits(s: Seq<char>) -> bool {
    forall|i: int| 0 <= i < s.len() ==> is_digit_char(#[trigger] s[i])
}

/// The number a digit string denotes in decimal.
pub open spec fn digits_value(s: Seq<char>) -> int
    decreases s.len(),
{
    if s.len() == 0 {
        0
    } else {
        digits_value(s.drop_last()) * 10 + (s.last() as u32 - 48)
    }
}

/// What parsing an unsigned byte yields: after an optional leading `+`, at
/// least one digit and nothing else, denoting a value of at most 255;
/// any other string fails.
pub open spec fn spec_parse_u8(s: Seq<char>) -> Option<u8> {
    let ds = if s.len() > 0 && s[0] == '+' {
        s.drop_first()
    } else {
        s
    };
    if ds.len() > 0 && all_digits(ds) && digits_value(ds) <= 255 {
        Some(digits_value(ds) as u8)
    } else {
        None
    }
}

/// Once a prefix of a digit string already denotes more than 255, the whole
/// string does too.
proof fn lemma_digits_extend(ds: Seq<char>, j: int)
    requires
        0 <= j <= ds.len(),
        all_digits(ds),
        digits_value(ds.subrange(0, j)) > 255,
    ensures
        digits_value(ds) > 255,
    decreases ds.len() - j,
{
    if j == ds.len() {
        assert(ds.subrange(0, j) =~= ds);
    } else {
        assert(ds.subrange(0, j + 1).drop_last() =~= ds.subrange(0, j));
        assert(ds.subrange(0, j + 1).last() == ds[j]);
        assert(is_digit_char(ds[j]));
        lemma_digits_extend(ds, j + 1);
    }
}

/// Parses an unsigned byte from a string, as `spec_parse_u8` says.
pub fn parse_u8(s: &str) -> (r: Option<u8>)
    ensures
        r == spec_parse_u8(s@),
{
    let len = s.unicode_len();
    if len == 0 {
        return None;
    }
    let first = s.get_char(0);
    let start: usize = if first == '+' {
        1
    } else {
        0
    };
    let ghost ds = if s@.len() > 0 && s@[0] == '+' {
        s@.drop_first()
    } else {
        s@
    };
    if start >= len {
        return None;
    }
    let mut acc: u32 = 0;
    let mut i: usize = start;
    while i < len
        invariant
            start <= i <= len,
            start <= 1,
            len == s@.len(),
            ds == (if s@.len() > 0 && s@[0] == '+' {
                s@.drop_first()
            } else {
                s@
            }),
            ds.len() == len - start,
            forall|k: int| 0 <= k < ds.len() ==> #[trigger] ds[k] == s@[k + start],
            acc <= 255,
            all_digits(ds.subrange(0, i - start)),
            acc == digits_value(ds.subrange(0, i - start)),
        decreases len - i,
    {
        let c = s.get_char(i);
        let d = c as u32;
        proof {
            assert(ds[i - start] == s@[i as int]);
        }
        if d < 48 || d > 57 {
            assert(!is_digit_char(ds[i - start]));
            return None;
        }
        proof {
            assert(ds.subrange(0, i - start + 1).drop_last() =~= ds.subrange(0, i - start));
            assert(ds.subrange(0, i - start + 1).last() == ds[i - start]);
        }
        let v = acc * 10 + (d - 48);
        if v > 255 {
            proof {
                if all_digits(ds) {
                    lemma_digits_extend(ds, i - start + 1);
                }
            }
            return None;
        }
        acc = v;
        i += 1;
    }
    proof {
        assert(ds.subrange(0, ds.len() as int) =~= ds);
    }
    Some(acc as u8)
}

} // verus!
