//! What a failed decode reports: the kind of failure and where it happened.

use vstd::prelude::*;
use crate::satz::Satz;

verus! {

/// The ways in which a line or a document can be malformed.
#[derive(Clone, Copy, Debug, PartialEq, Eq)]
pub enum ErrorKind {
    /// The line opens with `found` where the code of `expected` was required.
    HeaderMismatch { expected: Satz, found: [u8; 3] },
    /// A field of `width` columns was to be read where `available` columns
    /// were left in the line.
    FieldWidthMismatch { width: usize, available: usize },
    /// The character `character` is outside the class that the field accepts.
    UnexpectedCharacter { character: u8 },
    /// A span of digits and spaces is not a padded number, or the number is
    /// above the field's limit.
    NumericFormatError,
    /// A repetition of `required` items broke off after `completed` of them.
    RepeatCountMismatch { required: usize, completed: usize },
    /// The text ended where a record of type `expected` was required.
    UnexpectedEnd { expected: Satz },
}

/// A failure and the offset at which it was met. A function that works on
/// one line counts the offset from the start of the line, a function that
/// works on a text from the start of the text.
#[derive(Clone, Copy, Debug, PartialEq, Eq)]
pub struct DecodeError {
    pub kind: ErrorKind,
    pub offset: usize,
}

impl DecodeError {
    /// The same failure, seen from `base` columns further to the left.
    pub open spec fn spec_shifted(self, base: int) -> DecodeError {
        DecodeError { kind: self.kind, offset: (self.offset + base) as usize }
    }

    /// Turns an offset within a line into an offset within the text, where
    /// the line starts at `base`.
    pub fn shifted(self, base: usize) -> (e: DecodeError)
        requires
            self.offset + base <= usize::MAX,
        ensures
            e == self.spec_shifted(base as int),
    {
        DecodeError { kind: self.kind, offset: self.offset + base }
    }

    /// Whether the failure is a header that did not match: the one failure
    /// that a choice between productions may recover from.
    pub open spec fn spec_is_header_mismatch(self) -> bool {
        self.kind is HeaderMismatch
    }

    /// Whether the failure is a header that did not match.
    pub fn is_header_mismatch(&self) -> (b: bool)
        ensures
            b == self.spec_is_header_mismatch(),
    {
        match self.kind {
            ErrorKind::HeaderMismatch { .. } => true,
            _ => false,
        }
    }
}

} // verus!
