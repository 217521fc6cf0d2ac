//! Version numbers: decimal numbers parted by dots.

use vstd::prelude::*;
use vstd::string::StringSliceAdditionalSpecFns;

verus! {

/// The number that the decimal digits `s` write.
pub open spec fn digits_value(s: Seq<u8>) -> nat
    decreases s.len(),
{
    if s.len() == 0 {
        0
    } else {
        (digits_value(s.drop_last()) * 10 + (s.last() - 48)) as nat
    }
}

/// Every byte of `s` is a decimal digit.
pub open spec fn all_digits(s: Seq<u8>) -> bool {
    forall|i: int| 0 <= i < s.len() ==> 48 <= #[trigger] s[i] <= 57
}

/// `s` without a plus sign at its start.
pub open spec fn unsigned_part(s: Seq<u8>) -> Seq<u8> {
    if s.len() > 0 && s[0] == 43 {
        s.drop_first()
    } else {
        s
    }
}

/// The number that `s` writes: decimal digits, at least one, after at most
/// one plus sign, that come to no more than the greatest `u32`.
pub open spec fn parse_u32_spec(s: Seq<u8>) -> Option<u32> {
    let digits = unsigned_part(s);
    if digits.len() > 0 && all_digits(digits) && digits_value(digits) <= u32::MAX {
        Some(digits_value(digits) as u32)
    } else {
        None
    }
}

/// More digits do not write a smaller number.
pub proof fn lemma_digits_value_grows(s: Seq<u8>, k: int)
    requires
        0 <= k <= s.len(),
        all_digits(s),
    ensures
        digits_value(s.subrange(0, k)) <= digits_value(s),
    decreases s.len() - k,
{
    if k == s.len() {
        assert(s.subrange(0, k) =~= s);
    } else {
        let next = s.subrange(0, k + 1);
        assert(next.drop_last() =~= s.subrange(0, k));
        assert(next.last() == s[k]);
        lemma_digits_value_grows(s, k + 1);
    }
}

/// Reads the decimal number that `s` writes.
pub fn parse_u32(s: &[u8]) -> (number: Option<u32>)
    ensures
        number == parse_u32_spec(s@),
{
    proof {
        assert(s@.subrange(0, s.len() as int) =~= s@);
    }
    parse_u32_in(s, 0, s.len())
}

/// Reads the decimal number that `s[from..to]` writes.
fn parse_u32_in(s: &[u8], from: usize, to: usize) -> (number: Option<u32>)
    requires
        from <= to <= s.len(),
    ensures
        number == parse_u32_spec(s@.subrange(from as int, to as int)),
{
    let ghost field = s@.subrange(from as int, to as int);
    let start: usize = if from < to && s[from] == 43 {
        from + 1
    } else {
        from
    };
    let ghost digits = unsigned_part(field);
    proof {
        if from < to {
            assert(field[0] == s[from as int]);
        }
        assert(digits =~= s@.subrange(start as int, to as int));
    }
    if start == to {
        return None;
    }
    let mut value: u32 = 0;
    let mut k: usize = start;
    proof {
        assert(digits.subrange(0, 0) =~= Seq::<u8>::empty());
    }
    while k < to
        invariant
            from <= start <= k <= to <= s.len(),
            digits == s@.subrange(start as int, to as int),
            digits == unsigned_part(s@.subrange(from as int, to as int)),
            all_digits(digits.subrange(0, k - start)),
            value == digits_value(digits.subrange(0, k - start)),
        decreases to - k,
    {
        let b: u8 = s[k];
        let ghost head = digits.subrange(0, k - start);
        let ghost next = digits.subrange(0, k - start + 1);
        proof {
            assert(next.drop_last() =~= head);
            assert(next.last() == b);
            assert(digits[k - start] == b);
        }
        if b < 48 || b > 57 {
            return None;
        }
        proof {
            assert forall|i: int| 0 <= i < next.len() implies 48 <= #[trigger] next[i] <= 57 by {
                if i < head.len() {
                    assert(head[i] == next[i]);
                }
            }
        }
        let digit: u32 = (b - 48) as u32;
        if value > (u32::MAX - digit) / 10 {
            proof {
                assert(digits_value(next) > u32::MAX) by {
                    assert(digits_value(next) == value * 10 + digit);
                }
                if all_digits(digits) {
                    lemma_digits_value_grows(digits, k - start + 1);
                }
            }
            return None;
        }
        value = value * 10 + digit;
        k += 1;
    }
    proof {
        assert(digits.subrange(0, to - start) =~= digits);
    }
    Some(value)
}

/// The length of `s` up to its first dot: the length of `s` where it holds
/// none.
pub open spec fn field_len(s: Seq<u8>) -> int
    decreases s.len(),
{
    if s.len() == 0 || s[0] == 46 {
        0
    } else {
        1 + field_len(s.drop_first())
    }
}

/// `field_len` is the one offset before which no dot stands and at which
/// the text ends or a dot stands.
pub proof fn lemma_field_len(s: Seq<u8>, n: int)
    requires
        0 <= n <= s.len(),
        forall|j: int| 0 <= j < n ==> s[j] != 46,
        n == s.len() || s[n] == 46,
    ensures
        field_len(s) == n,
    decreases s.len(),
{
    if s.len() == 0 || s[0] == 46 {
    } else {
        let rest = s.drop_first();
        assert forall|j: int| 0 <= j < n - 1 implies rest[j] != 46 by {
            assert(rest[j] == s[j + 1]);
        }
        lemma_field_len(rest, n - 1);
    }
}

/// The first field of a version: what stands before its first dot.
pub open spec fn major_field(version: Seq<u8>) -> Seq<u8> {
    version.subrange(0, field_len(version))
}

/// The second field of a version: what stands between its first dot and
/// its second; empty where it has no dot.
pub open spec fn minor_field(version: Seq<u8>) -> Seq<u8> {
    let first = field_len(version);
    if 0 <= first < version.len() {
        let rest = version.subrange(first + 1, version.len() as int);
        rest.subrange(0, field_len(rest))
    } else {
        Seq::empty()
    }
}

/// The number that a field writes, or zero where it writes none.
pub open spec fn number_or_zero(field: Seq<u8>) -> u32 {
    match parse_u32_spec(field) {
        Some(n) => n,
        None => 0,
    }
}

/// Finds the end of the field that starts at `from`: the offset of the next
/// dot, or the end of the text.
fn field_stop(s: &[u8], from: usize) -> (end: usize)
    requires
        from <= s.len(),
    ensures
        from <= end <= s.len(),
        end == from + field_len(s@.subrange(from as int, s.len() as int)),
{
    let ghost rest = s@.subrange(from as int, s.len() as int);
    let mut end: usize = from;
    while end < s.len() && s[end] != 46
        invariant
            from <= end <= s.len(),
            forall|j: int| from <= j < end ==> s[j] != 46,
        decreases s.len() - end,
    {
        end += 1;
    }
    proof {
        assert forall|j: int| 0 <= j < end - from implies rest[j] != 46 by {
            assert(rest[j] == s[from + j]);
        }
        if end < s.len() {
            assert(rest[end - from] == s[end as int]);
        }
        lemma_field_len(rest, end - from);
    }
    end
}

/// Reads the first two numbers of `version`, its fields being parted by
/// dots. A field that is missing or writes no number counts as zero.
pub fn version_numbers(version: &str) -> (numbers: (u32, u32))
    ensures
        numbers.0 == number_or_zero(major_field(version.spec_bytes())),
        numbers.1 == number_or_zero(minor_field(version.spec_bytes())),
{
    let bytes = version.as_bytes();
    proof {
        assert(bytes@.subrange(0, bytes.len() as int) =~= bytes@);
    }
    let first = field_stop(bytes, 0);
    let major: u32 = match parse_u32_in(bytes, 0, first) {
        Some(n) => n,
        None => 0,
    };
    if first == bytes.len() {
        proof {
            assert(parse_u32_spec(Seq::<u8>::empty()).is_none());
        }
        return (major, 0);
    }
    let second = field_stop(bytes, first + 1);
    proof {
        let rest = bytes@.subrange(first + 1, bytes.len() as int);
        assert(rest.subrange(0, second - first - 1) =~= bytes@.subrange(
            first + 1,
            second as int,
        ));
    }
    let minor: u32 = match parse_u32_in(bytes, first + 1, second) {
        Some(n) => n,
        None => 0,
    };
    (major, minor)
}

} // verus!
