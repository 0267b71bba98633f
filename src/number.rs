//! Decimal integers, as `FromStr` reads them for `i64` and `usize`.

use vstd::prelude::*;

verus! {

#[verifier::external_type_specification]
#[verifier::external_body]
pub struct ExParseIntError(core::num::ParseIntError);

pub open spec fn is_digit(c: char) -> bool {
    '0' as u32 <= c as u32 <= '9' as u32
}

/// A non-empty run of ASCII digits.
pub open spec fn all_digits(s: Seq<char>) -> bool {
    s.len() > 0 && forall|i: int| 0 <= i < s.len() ==> is_digit(#[trigger] s[i])
}

/// The value of a run of ASCII digits, read in base ten.
pub open spec fn digits_value(s: Seq<char>) -> int
    decreases s.len(),
{
    if s.len() == 0 {
        0
    } else {
        digits_value(s.drop_last()) * 10 + (s.last() as u32 - '0' as u32)
    }
}

pub proof fn lemma_digits_value_nonneg(s: Seq<char>)
    requires
        forall|i: int| 0 <= i < s.len() ==> is_digit(#[trigger] s[i]),
    ensures
        digits_value(s) >= 0,
    decreases s.len(),
{
    if s.len() > 0 {
        lemma_digits_value_nonneg(s.drop_last());
    }
}

/// A signed decimal that does not read as a `usize` is below one (it has a `-`), or
/// past the range of `usize`.
pub proof fn lemma_signed_only(s: Seq<char>)
    requires
        usize_of_text(s) is None,
        signed_decimal(s) is Some,
    ensures
        signed_decimal(s)->Some_0 < 1 || signed_decimal(s)->Some_0 > usize::MAX,
        signed_decimal(s)->Some_0 < 1 <==> s[0] == '-',
{
    if s.len() > 0 && s[0] == '-' && all_digits(s.drop_first()) {
        lemma_digits_value_nonneg(s.drop_first());
    } else if s.len() > 0 && s[0] == '+' && all_digits(s.drop_first()) {
        lemma_digits_value_nonneg(s.drop_first());
    } else {
        lemma_digits_value_nonneg(s);
    }
}

/// A text that reads as a `usize` is a signed decimal of the same value.
pub proof fn lemma_unsigned_is_signed(s: Seq<char>)
    requires
        usize_of_text(s) is Some,
    ensures
        signed_decimal(s) == usize_of_text(s),
{
    if s.len() > 0 && s[0] == '-' {
        assert(!is_digit(s[0]));
    }
}

/// The value of an optional `+` or `-` followed by digits, if `s` has that form.
pub open spec fn signed_decimal(s: Seq<char>) -> Option<int> {
    if s.len() > 0 && s[0] == '-' && all_digits(s.drop_first()) {
        Some(-digits_value(s.drop_first()))
    } else if s.len() > 0 && s[0] == '+' && all_digits(s.drop_first()) {
        Some(digits_value(s.drop_first()))
    } else if all_digits(s) {
        Some(digits_value(s))
    } else {
        None
    }
}

/// The value of an optional `+` followed by digits, if `s` has that form.
pub open spec fn unsigned_decimal(s: Seq<char>) -> Option<int> {
    if s.len() > 0 && s[0] == '+' && all_digits(s.drop_first()) {
        Some(digits_value(s.drop_first()))
    } else if all_digits(s) {
        Some(digits_value(s))
    } else {
        None
    }
}

/// The `i64` that `s` denotes, if `s` is a signed decimal within range.
pub open spec fn i64_of_text(s: Seq<char>) -> Option<int> {
    match signed_decimal(s) {
        Some(v) => if i64::MIN <= v <= i64::MAX { Some(v) } else { None },
        None => None,
    }
}

/// The `usize` that `s` denotes, if `s` is an unsigned decimal within range.
pub open spec fn usize_of_text(s: Seq<char>) -> Option<int> {
    match unsigned_decimal(s) {
        Some(v) => if v <= usize::MAX { Some(v) } else { None },
        None => None,
    }
}

proof fn lemma_signs_are_not_digits()
    ensures
        !is_digit('-'),
        !is_digit('+'),
{
    assert(('-' as u32) == 45u32);
    assert(('+' as u32) == 43u32);
    assert(('0' as u32) == 48u32);
}

fn is_ascii_digit(c: char) -> (r: bool)
    ensures
        r == is_digit(c),
{
    '0' as u32 <= c as u32 && c as u32 <= '9' as u32
}

/// Whether `s` is an optional `+` or `-` followed by ASCII digits.
pub fn is_signed_decimal(s: &[char]) -> (r: bool)
    ensures
        r == (signed_decimal(s@) is Some),
{
    proof {
        lemma_signs_are_not_digits();
    }
    let signed = s.len() > 0 && (s[0] == '-' || s[0] == '+');
    let start: usize = if signed { 1 } else { 0 };
    if start >= s.len() {
        return false;
    }
    let mut i: usize = start;
    while i < s.len()
        invariant
            start <= i <= s@.len(),
            start < s@.len(),
            signed == (s@[0] == '-' || s@[0] == '+'),
            start == if signed { 1usize } else { 0 },
            forall|j: int| start <= j < i ==> is_digit(#[trigger] s@[j]),
        decreases s.len() - i,
    {
        if !is_ascii_digit(s[i]) {
            proof {
                if signed {
                    assert(s@.drop_first()[i - 1] == s@[i as int]);
                }
            }
            return false;
        }
        i += 1;
    }
    proof {
        if signed {
            assert forall|j: int| 0 <= j < s@.drop_first().len() implies is_digit(
                #[trigger] s@.drop_first()[j],
            ) by {
                assert(s@.drop_first()[j] == s@[j + 1]);
            }
        }
    }
    true
}

/// Relies on `<i64 as FromStr>::from_str`: an optional sign and base-ten digits, nothing
/// else, within the range of `i64`.
#[verifier::external_body]
pub(crate) fn parse_i64(s: &str) -> (r: Result<i64, core::num::ParseIntError>)
    ensures
        r is Ok <==> i64_of_text(s@) is Some,
        r is Ok ==> r->Ok_0 as int == i64_of_text(s@)->Some_0,
{
    s.parse::<i64>()
}

/// Relies on `<usize as FromStr>::from_str`: an optional `+` and base-ten digits, nothing
/// else, within the range of `usize`.
#[verifier::external_body]
pub(crate) fn parse_usize(s: &str) -> (r: Result<usize, core::num::ParseIntError>)
    ensures
        r is Ok <==> usize_of_text(s@) is Some,
        r is Ok ==> r->Ok_0 as int == usize_of_text(s@)->Some_0,
{
    s.parse::<usize>()
}

} // verus!
