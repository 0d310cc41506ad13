//! The numeric field decoder: from a padded span of digits to an integer.

use vstd::prelude::*;
use vstd::slice::slice_subrange;
use crate::error::{DecodeError, ErrorKind};
use crate::field::{is_digit, read, spec_read, width_error, Class, SPACE};

verus! {

/// The span without the spaces that pad it on the right.
pub open spec fn trim_end(s: Seq<u8>) -> Seq<u8>
    decreases s.len(),
{
    if s.len() > 0 && s.last() == SPACE {
        trim_end(s.drop_last())
    } else {
        s
    }
}

/// Whether every character of `s` is a decimal digit.
pub open spec fn all_digits(s: Seq<u8>) -> bool {
    forall|i: int| 0 <= i < s.len() ==> is_digit(#[trigger] s[i])
}

/// The value of one digit character, and zero for any other character.
pub open spec fn digit_value(b: u8) -> nat {
    if is_digit(b) {
        (b - 0x30) as nat
    } else {
        0
    }
}

/// The number that a string of digits writes in base ten, most significant
/// digit first. Leading zeros add nothing.
pub open spec fn decimal_value(s: Seq<u8>) -> nat
    decreases s.len(),
{
    if s.len() == 0 {
        0
    } else {
        decimal_value(s.drop_last()) * 10 + digit_value(s.last())
    }
}

/// What `to_number` gives: the value of the digits that are left when the
/// padding on the right is taken off, provided that something is left, that
/// all of it is digits, and that the value is at most `limit`.
pub open spec fn spec_to_number(span: Seq<u8>, limit: u64) -> Option<u64> {
    let digits = trim_end(span);
    if digits.len() > 0 && all_digits(digits) && decimal_value(digits) <= limit {
        Some(decimal_value(digits) as u64)
    } else {
        None
    }
}

/// The trimmed span is the prefix of the span that ends behind its last
/// character other than a space.
pub proof fn lemma_trim_end(s: Seq<u8>)
    ensures
        trim_end(s).len() <= s.len(),
        trim_end(s) == s.subrange(0, trim_end(s).len() as int),
        trim_end(s).len() > 0 ==> trim_end(s).last() != SPACE,
        forall|i: int| trim_end(s).len() <= i < s.len() ==> #[trigger] s[i] == SPACE,
    decreases s.len(),
{
    if s.len() > 0 && s.last() == SPACE {
        let t = s.drop_last();
        lemma_trim_end(t);
        let k = trim_end(t).len() as int;
        assert(t.subrange(0, k) =~= s.subrange(0, k));
        assert forall|i: int| trim_end(s).len() <= i < s.len() implies #[trigger] s[i] == SPACE by {
            if i < t.len() {
                assert(s[i] == t[i]);
            }
        }
    } else {
        assert(s.subrange(0, s.len() as int) =~= s);
    }
}

/// The value of a prefix is at most the value of the whole.
pub proof fn lemma_decimal_value_prefix(s: Seq<u8>, i: int)
    requires
        0 <= i <= s.len(),
    ensures
        decimal_value(s.subrange(0, i)) <= decimal_value(s),
    decreases s.len() - i,
{
    if i == s.len() {
        assert(s.subrange(0, i) =~= s);
    } else {
        lemma_decimal_value_prefix(s.drop_last(), i);
        assert(s.drop_last().subrange(0, i) =~= s.subrange(0, i));
    }
}

/// A span of digits alone decodes to the number that the digits write,
/// unless that number is above the limit.
pub proof fn lemma_digits_decode(span: Seq<u8>, limit: u64)
    requires
        span.len() > 0,
        all_digits(span),
    ensures
        decimal_value(span) <= limit ==> spec_to_number(span, limit) == Some(
            decimal_value(span) as u64,
        ),
        decimal_value(span) > limit ==> spec_to_number(span, limit) is None,
{
    assert(is_digit(span[span.len() - 1]));
}

/// Padding on the right does not change what a span decodes to.
pub proof fn lemma_padding_is_ignored(span: Seq<u8>, limit: u64)
    ensures
        spec_to_number(span.push(SPACE), limit) == spec_to_number(span, limit),
{
    assert(span.push(SPACE).drop_last() =~= span);
}

/// With a zero in front, a span trims to the same digits with the zero in
/// front, and writes the same value.
pub proof fn lemma_zero_in_front(span: Seq<u8>)
    ensures
        trim_end(seq![0x30u8] + span) == seq![0x30u8] + trim_end(span),
        decimal_value(seq![0x30u8] + span) == decimal_value(span),
    decreases span.len(),
{
    let zero = seq![0x30u8];
    if span.len() == 0 {
        assert(zero + span =~= zero);
        assert(zero.drop_last() =~= Seq::<u8>::empty());
        assert(decimal_value(zero.drop_last()) == 0);
    } else {
        lemma_zero_in_front(span.drop_last());
        assert((zero + span).drop_last() =~= zero + span.drop_last());
        assert((zero + span).last() == span.last());
    }
}

/// A zero in front does not change what a span decodes to, as long as the
/// span holds more than padding.
pub proof fn lemma_leading_zero_is_value(span: Seq<u8>, limit: u64)
    requires
        trim_end(span).len() > 0,
    ensures
        spec_to_number(seq![0x30u8] + span, limit) == spec_to_number(span, limit),
{
    let zero = seq![0x30u8];
    let digits = trim_end(span);
    lemma_zero_in_front(span);
    lemma_zero_in_front(digits);
    if all_digits(digits) {
        assert forall|i: int| 0 <= i < (zero + digits).len() implies is_digit(
            #[trigger] (zero + digits)[i],
        ) by {
            if i > 0 {
                assert((zero + digits)[i] == digits[i - 1]);
            }
        }
    }
    if all_digits(zero + digits) {
        assert forall|i: int| 0 <= i < digits.len() implies is_digit(#[trigger] digits[i]) by {
            assert((zero + digits)[i + 1] == digits[i]);
        }
    }
}

/// A span with a space in front of some other character decodes to nothing:
/// padding is on the right only.
pub proof fn lemma_space_inside_is_malformed(span: Seq<u8>, i: int, j: int, limit: u64)
    requires
        0 <= i < j < span.len(),
        span[i] == SPACE,
        span[j] != SPACE,
    ensures
        spec_to_number(span, limit) is None,
{
    lemma_trim_end(span);
    let digits = trim_end(span);
    assert(j < digits.len());
    assert(digits[i] == span[i]);
    assert(!is_digit(digits[i]));
}

/// Decodes a padded number: takes the spaces off the right end and reads
/// what is left as a decimal number of at most `limit`. `None` when nothing
/// is left, when a character other than a digit is left (a space in front of
/// a digit is one), or when the number is above `limit`.
pub fn to_number(span: &[u8], limit: u64) -> (r: Option<u64>)
    ensures
        r == spec_to_number(span@, limit),
{
    let mut end: usize = span.len();
    proof {
        assert(span@.subrange(0, span@.len() as int) =~= span@);
    }
    while end > 0 && span[end - 1] == SPACE
        invariant
            end <= span@.len(),
            trim_end(span@) == trim_end(span@.subrange(0, end as int)),
        decreases end,
    {
        proof {
            assert(span@.subrange(0, end as int).drop_last() =~= span@.subrange(0, end - 1));
        }
        end -= 1;
    }
    let ghost digits = span@.subrange(0, end as int);
    assert(trim_end(span@) == digits);
    if end == 0 {
        return None;
    }
    let mut value: u64 = 0;
    let mut i: usize = 0;
    while i < end
        invariant
            i <= end <= span@.len(),
            digits == span@.subrange(0, end as int),
            digits == trim_end(span@),
            forall|j: int| 0 <= j < i ==> is_digit(#[trigger] span@[j]),
            value == decimal_value(span@.subrange(0, i as int)),
            value <= limit,
        decreases end - i,
    {
        let b: u8 = span[i];
        proof {
            assert(span@.subrange(0, i + 1).drop_last() =~= span@.subrange(0, i as int));
            assert(digits.subrange(0, i + 1) =~= span@.subrange(0, i + 1));
            lemma_decimal_value_prefix(digits, i + 1);
            assert(decimal_value(span@.subrange(0, i + 1)) == value * 10 + digit_value(b));
        }
        if !(0x30 <= b && b <= 0x39) {
            assert(!is_digit(digits[i as int]));
            return None;
        }
        let d: u64 = (b - 0x30) as u64;
        if value > limit / 10 {
            return None;
        }
        let shifted: u64 = value * 10;
        if d > limit - shifted {
            return None;
        }
        value = shifted + d;
        i += 1;
    }
    proof {
        assert(all_digits(digits));
    }
    Some(value)
}

/// The failure of a span of digits and spaces at `at` that is no number.
pub open spec fn format_error(at: int) -> DecodeError {
    DecodeError { kind: ErrorKind::NumericFormatError, offset: at as usize }
}

/// What `counted_number` gives: the failure of the read, if it fails; else
/// the number in the span and the cursor behind it, or the format failure
/// at the start of the span.
pub open spec fn spec_counted_number(line: Seq<u8>, at: int, n: int, limit: u64) -> Result<
    (u64, int),
    DecodeError,
> {
    match spec_read(line, at, n, Class::NumericOrSpace) {
        Err(e) => Err(e),
        Ok(next) => match spec_to_number(line.subrange(at, next), limit) {
            Some(value) => Ok((value, next)),
            None => Err(format_error(at)),
        },
    }
}

/// A numeric field that the line has no room for fails on its width,
/// whatever the line holds.
pub proof fn lemma_counted_number_width(line: Seq<u8>, at: int, n: int, limit: u64)
    requires
        !(0 <= at <= line.len()) || line.len() - at < n,
    ensures
        spec_counted_number(line, at, n, limit) == Err::<(u64, int), DecodeError>(
            width_error(line, at, n),
        ),
{
}

/// Reads a numeric field of `n` columns at `at`: digits, padded with spaces
/// on the right, with a value of at most `limit`.
pub fn counted_number(line: &[u8], at: usize, n: usize, limit: u64) -> (r: Result<
    (u64, usize),
    DecodeError,
>)
    ensures
        spec_counted_number(line@, at as int, n as int, limit) == match r {
            Ok((value, next)) => Ok::<(u64, int), DecodeError>((value, next as int)),
            Err(e) => Err(e),
        },
        r matches Ok((value, next)) ==> value <= limit && next == at + n && next <= line@.len(),
        r matches Err(e) ==> e.offset <= at + n && (e.offset <= line@.len() || e.offset == at),
{
    match read(line, at, n, Class::NumericOrSpace) {
        Err(e) => Err(e),
        Ok(next) => match to_number(slice_subrange(line, at, next), limit) {
            Some(value) => Ok((value, next)),
            None => Err(DecodeError { kind: ErrorKind::NumericFormatError, offset: at }),
        },
    }
}

} // verus!
