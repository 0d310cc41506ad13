//! The field cursor: a stateless reader of fixed-width spans of one line.
//!
//! A cursor is a column of the line. A read takes the line, the cursor and a
//! width, and gives the cursor behind the span, or the failure. Nothing is
//! changed in place, so a caller that meets a failure still holds the cursor
//! it started from.

use vstd::prelude::*;
use vstd::slice::{slice_subrange, slice_to_vec};
use crate::error::{DecodeError, ErrorKind};

verus! {

/// The space character, which pads fields.
pub const SPACE: u8 = 0x20;

/// A class of characters that a field accepts.
#[derive(Clone, Copy, Debug, PartialEq, Eq, Structural)]
pub enum Class {
    /// Any ASCII character: identifiers and codes.
    Alphanumeric,
    /// A decimal digit or a space: fields that hold a number.
    NumericOrSpace,
    /// Any character at all: filler that is skipped.
    Any,
    /// A space only: filler that has to be blank.
    Blank,
}

/// Whether `b` is one of the ten decimal digits.
pub open spec fn is_digit(b: u8) -> bool {
    0x30 <= b <= 0x39
}

impl Class {
    /// Whether the class holds the character `b`.
    pub open spec fn spec_accepts(self, b: u8) -> bool {
        match self {
            Class::Alphanumeric => b < 0x80,
            Class::NumericOrSpace => is_digit(b) || b == SPACE,
            Class::Any => true,
            Class::Blank => b == SPACE,
        }
    }

    /// Whether the class holds the character `b`.
    pub fn accepts(self, b: u8) -> (r: bool)
        ensures
            r == self.spec_accepts(b),
    {
        match self {
            Class::Alphanumeric => b < 0x80,
            Class::NumericOrSpace => (0x30 <= b && b <= 0x39) || b == SPACE,
            Class::Any => true,
            Class::Blank => b == SPACE,
        }
    }
}

/// The number of columns from `at` to the end of the line; none when the
/// cursor is beyond the line.
pub open spec fn remaining(line: Seq<u8>, at: int) -> int {
    if 0 <= at <= line.len() {
        line.len() - at
    } else {
        0
    }
}

/// The first column in `from..to` whose character `class` does not accept,
/// or `to` when it accepts them all.
pub open spec fn first_rejected(line: Seq<u8>, from: int, to: int, class: Class) -> int
    decreases to - from,
{
    if from >= to {
        to
    } else if !class.spec_accepts(line[from]) {
        from
    } else {
        first_rejected(line, from + 1, to, class)
    }
}

/// `first_rejected` is the least rejected column: every column before it is
/// accepted, and it is itself rejected unless it is `to`.
pub proof fn lemma_first_rejected(line: Seq<u8>, from: int, to: int, class: Class)
    requires
        from <= to,
    ensures
        from <= first_rejected(line, from, to, class) <= to,
        forall|i: int|
            from <= i < first_rejected(line, from, to, class) ==> class.spec_accepts(#[trigger] line[i]),
        first_rejected(line, from, to, class) < to ==> !class.spec_accepts(
            line[first_rejected(line, from, to, class)],
        ),
    decreases to - from,
{
    if from < to && class.spec_accepts(line[from]) {
        lemma_first_rejected(line, from + 1, to, class);
    }
}

/// Whether `class` accepts every character of `span`.
pub open spec fn all_accepted(span: Seq<u8>, class: Class) -> bool {
    forall|i: int| 0 <= i < span.len() ==> class.spec_accepts(#[trigger] span[i])
}

/// The failure of a read of `n` columns at `at` for want of columns.
pub open spec fn width_error(line: Seq<u8>, at: int, n: int) -> DecodeError {
    DecodeError {
        kind: ErrorKind::FieldWidthMismatch { width: n as usize, available: remaining(line, at) as usize },
        offset: at as usize,
    }
}

/// The failure of a read that met a character outside its class at `column`.
pub open spec fn character_error(line: Seq<u8>, column: int) -> DecodeError {
    DecodeError { kind: ErrorKind::UnexpectedCharacter { character: line[column] }, offset: column as usize }
}

/// What a read of `n` columns at `at` gives: the cursor behind the span when
/// the cursor is within the line, the line holds `n` more columns and `class`
/// accepts each of them; otherwise the width failure at `at`, or else the
/// character failure at the first rejected column.
pub open spec fn spec_read(line: Seq<u8>, at: int, n: int, class: Class) -> Result<int, DecodeError> {
    if !(0 <= at <= line.len()) || remaining(line, at) < n {
        Err(width_error(line, at, n))
    } else if first_rejected(line, at, at + n, class) < at + n {
        Err(character_error(line, first_rejected(line, at, at + n, class)))
    } else {
        Ok(at + n)
    }
}

/// A read succeeds exactly when the span lies within the line and `class`
/// accepts all of it.
pub proof fn lemma_read_accepts(line: Seq<u8>, at: int, n: int, class: Class)
    requires
        0 <= n,
    ensures
        spec_read(line, at, n, class) is Ok <==> 0 <= at && at + n <= line.len() && all_accepted(
            line.subrange(at, at + n),
            class,
        ),
{
    if 0 <= at && at + n <= line.len() {
        let span = line.subrange(at, at + n);
        let bad = first_rejected(line, at, at + n, class);
        lemma_first_rejected(line, at, at + n, class);
        if bad < at + n {
            assert(!class.spec_accepts(span[bad - at]));
        } else {
            assert forall|i: int| 0 <= i < span.len() implies class.spec_accepts(#[trigger] span[i]) by {
                assert(span[i] == line[at + i]);
            }
        }
    }
}

/// Reads a span of `n` columns at `at` and checks it against `class`.
pub fn read(line: &[u8], at: usize, n: usize, class: Class) -> (r: Result<usize, DecodeError>)
    ensures
        spec_read(line@, at as int, n as int, class) == match r {
            Ok(next) => Ok::<int, DecodeError>(next as int),
            Err(e) => Err(e),
        },
        r matches Ok(next) ==> next == at + n && next <= line@.len(),
        r matches Err(e) ==> e.offset <= at + n && (e.offset <= line@.len() || e.offset == at),
{
    let len: usize = line.len();
    if at > len {
        return Err(
            DecodeError { kind: ErrorKind::FieldWidthMismatch { width: n, available: 0 }, offset: at },
        );
    }
    if len - at < n {
        return Err(
            DecodeError {
                kind: ErrorKind::FieldWidthMismatch { width: n, available: len - at },
                offset: at,
            },
        );
    }
    let end: usize = at + n;
    let mut i: usize = at;
    while i < end
        invariant
            at <= i <= end <= len,
            len == line@.len(),
            end == at + n,
            first_rejected(line@, at as int, end as int, class) == first_rejected(
                line@,
                i as int,
                end as int,
                class,
            ),
        decreases end - i,
    {
        let b: u8 = line[i];
        if !class.accepts(b) {
            return Err(
                DecodeError { kind: ErrorKind::UnexpectedCharacter { character: b }, offset: i },
            );
        }
        i += 1;
    }
    Ok(end)
}

/// What `n_alphanums` gives: the span itself and the cursor behind it.
pub open spec fn spec_n_alphanums(line: Seq<u8>, at: int, n: int) -> Result<(Seq<u8>, int), DecodeError> {
    match spec_read(line, at, n, Class::Alphanumeric) {
        Ok(next) => Ok((line.subrange(at, next), next)),
        Err(e) => Err(e),
    }
}

/// Reads an identifier or code field of `n` ASCII characters.
pub fn n_alphanums(line: &[u8], at: usize, n: usize) -> (r: Result<(Vec<u8>, usize), DecodeError>)
    ensures
        spec_n_alphanums(line@, at as int, n as int) == match r {
            Ok((span, next)) => Ok::<(Seq<u8>, int), DecodeError>((span@, next as int)),
            Err(e) => Err(e),
        },
        r matches Ok((span, next)) ==> span@.len() == n && all_accepted(span@, Class::Alphanumeric)
            && next == at + n && next <= line@.len(),
        r matches Err(e) ==> e.offset <= at + n && (e.offset <= line@.len() || e.offset == at),
{
    match read(line, at, n, Class::Alphanumeric) {
        Ok(next) => {
            let span = slice_to_vec(slice_subrange(line, at, next));
            proof {
                lemma_read_accepts(line@, at as int, n as int, Class::Alphanumeric);
            }
            Ok((span, next))
        },
        Err(e) => Err(e),
    }
}

/// What `ignore_n` gives: the cursor behind `n` columns of any content.
pub open spec fn spec_ignore_n(line: Seq<u8>, at: int, n: int) -> Result<int, DecodeError> {
    spec_read(line, at, n, Class::Any)
}

/// Skips `n` columns whose content does not matter. The line still has to
/// hold them.
pub fn ignore_n(line: &[u8], at: usize, n: usize) -> (r: Result<usize, DecodeError>)
    ensures
        spec_ignore_n(line@, at as int, n as int) == match r {
            Ok(next) => Ok::<int, DecodeError>(next as int),
            Err(e) => Err(e),
        },
        r matches Ok(next) ==> next == at + n && next <= line@.len(),
        r matches Err(e) ==> e.offset <= at + n && (e.offset <= line@.len() || e.offset == at),
{
    read(line, at, n, Class::Any)
}

/// What `trailing` gives: success when exactly `n` columns are left and
/// `class` accepts each; the width failure when fewer or more are left.
pub open spec fn spec_trailing(line: Seq<u8>, at: int, n: int, class: Class) -> Result<(), DecodeError> {
    if remaining(line, at) != n {
        Err(width_error(line, at, n))
    } else {
        match spec_read(line, at, n, class) {
            Ok(_) => Ok(()),
            Err(e) => Err(e),
        }
    }
}

/// Reads the filler that closes a line: `n` columns of `class`, after which
/// the line has to end. A line that is too short or too long fails here with
/// the width failure.
pub fn trailing(line: &[u8], at: usize, n: usize, class: Class) -> (r: Result<(), DecodeError>)
    ensures
        spec_trailing(line@, at as int, n as int, class) == r,
        r is Ok ==> line@.len() == at + n,
        r matches Err(e) ==> e.offset <= at + n && (e.offset <= line@.len() || e.offset == at),
{
    let len: usize = line.len();
    let available: usize = if at > len {
        0
    } else {
        len - at
    };
    if available != n {
        return Err(
            DecodeError { kind: ErrorKind::FieldWidthMismatch { width: n, available }, offset: at },
        );
    }
    match read(line, at, n, class) {
        Ok(_) => Ok(()),
        Err(e) => Err(e),
    }
}

} // verus!
