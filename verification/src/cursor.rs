//! The document cursor: an offset into the text, and the records read at it.
//!
//! The text is a run of lines, each ended by one newline character; the last
//! line may go without. A cursor is the offset at which a line starts. To
//! read a record is to decode the line at the cursor and to give the cursor
//! of the line behind it. A failure gives no cursor, so the caller goes on
//! from the one it holds: that is all there is to backtracking.

use vstd::prelude::*;
use vstd::slice::slice_subrange;
use crate::error::{DecodeError, ErrorKind};
use crate::field::Class;
use crate::record::{
    header_of, lemma_header_accepted, lemma_header_refusal, lemma_line_width, satz511, satz512,
    satz513, satz514, satz_plain, spec_satz511, spec_satz512, spec_satz513, spec_satz514,
    spec_satz_plain, Abruf, Satz511, Satz511Model, Satz512, Satz512Model,
};
use crate::satz::{lemma_code_lookup, Satz};

verus! {

/// The character that ends a line.
pub const NEWLINE: u8 = 0x0A;

/// The class of the closing filler, for each record type. Whether filler is
/// any content or has to be blank is a choice of the caller's.
#[derive(Clone, Copy, Debug, PartialEq, Eq, Structural)]
pub struct Options {
    pub satz511: Class,
    pub satz512: Class,
    pub satz513: Class,
    pub satz514: Class,
    pub satz515: Class,
    pub satz517: Class,
    pub satz518: Class,
    pub satz519: Class,
}

impl Options {
    /// The options under which the filler of every record type is `class`.
    pub open spec fn spec_uniform(class: Class) -> Options {
        Options {
            satz511: class,
            satz512: class,
            satz513: class,
            satz514: class,
            satz515: class,
            satz517: class,
            satz518: class,
            satz519: class,
        }
    }

    /// The class of the closing filler of `satz`.
    pub open spec fn spec_filler(self, satz: Satz) -> Class {
        match satz {
            Satz::S511 => self.satz511,
            Satz::S512 => self.satz512,
            Satz::S513 => self.satz513,
            Satz::S514 => self.satz514,
            Satz::S515 => self.satz515,
            Satz::S517 => self.satz517,
            Satz::S518 => self.satz518,
            Satz::S519 => self.satz519,
        }
    }

    /// The options under which the filler of every record type is `class`.
    pub fn uniform(class: Class) -> (o: Options)
        ensures
            o == Options::spec_uniform(class),
    {
        Options {
            satz511: class,
            satz512: class,
            satz513: class,
            satz514: class,
            satz515: class,
            satz517: class,
            satz518: class,
            satz519: class,
        }
    }

    /// The class of the closing filler of `satz`.
    pub fn filler(&self, satz: Satz) -> (class: Class)
        ensures
            class == self.spec_filler(satz),
    {
        match satz {
            Satz::S511 => self.satz511,
            Satz::S512 => self.satz512,
            Satz::S513 => self.satz513,
            Satz::S514 => self.satz514,
            Satz::S515 => self.satz515,
            Satz::S517 => self.satz517,
            Satz::S518 => self.satz518,
            Satz::S519 => self.satz519,
        }
    }
}

impl Default for Options {
    /// Filler of any content, for every record type.
    fn default() -> (o: Options)
        ensures
            o == Options::spec_uniform(Class::Any),
    {
        Options::uniform(Class::Any)
    }
}

/// The number of characters from `pos` up to the next newline or the end of
/// the text.
pub open spec fn line_len(text: Seq<u8>, pos: int) -> nat
    decreases text.len() - pos,
{
    if 0 <= pos < text.len() && text[pos] != NEWLINE {
        1 + line_len(text, pos + 1)
    } else {
        0
    }
}

/// The line that starts at `pos`, without the newline that ends it.
pub open spec fn line_at(text: Seq<u8>, pos: int) -> Seq<u8> {
    text.subrange(pos, pos + line_len(text, pos))
}

/// The cursor of the line behind the one that starts at `pos`: behind its
/// newline, or the end of the text where it has none.
pub open spec fn next_line(text: Seq<u8>, pos: int) -> int {
    if pos + line_len(text, pos) < text.len() {
        pos + line_len(text, pos) + 1
    } else {
        text.len() as int
    }
}

/// A line ends at the first newline behind its start, or at the end of the
/// text.
pub proof fn lemma_line_len(text: Seq<u8>, pos: int)
    requires
        0 <= pos <= text.len(),
    ensures
        pos + line_len(text, pos) <= text.len(),
        forall|i: int| pos <= i < pos + line_len(text, pos) ==> #[trigger] text[i] != NEWLINE,
        pos + line_len(text, pos) < text.len() ==> text[pos + line_len(text, pos)] == NEWLINE,
    decreases text.len() - pos,
{
    if pos < text.len() && text[pos] != NEWLINE {
        lemma_line_len(text, pos + 1);
    }
}

/// Finds the end of the line that starts at `pos`.
fn line_end(text: &[u8], pos: usize) -> (end: usize)
    requires
        pos <= text@.len(),
    ensures
        end == pos + line_len(text@, pos as int),
        end <= text@.len(),
{
    let mut i: usize = pos;
    while i < text.len() && text[i] != NEWLINE
        invariant
            pos <= i <= text@.len(),
            line_len(text@, pos as int) == (i - pos) + line_len(text@, i as int),
        decreases text@.len() - i,
    {
        i += 1;
    }
    i
}

/// The line at `pos` and the cursor of the line behind it.
fn current_line(text: &[u8], pos: usize) -> (r: (&[u8], usize))
    requires
        pos < text@.len(),
    ensures
        r.0@ == line_at(text@, pos as int),
        r.1 == next_line(text@, pos as int),
        pos < r.1 <= text@.len(),
        pos + r.0@.len() <= text@.len(),
{
    let end: usize = line_end(text, pos);
    let line = slice_subrange(text, pos, end);
    let next: usize = if end < text.len() {
        end + 1
    } else {
        end
    };
    (line, next)
}

/// The record type whose code opens the line at `pos`, if the line has
/// three characters and they are a known code.
pub open spec fn spec_peek(text: Seq<u8>, pos: int) -> Option<Satz> {
    if 0 <= pos && line_len(text, pos) >= 3 {
        Satz::spec_from_code(header_of(line_at(text, pos)))
    } else {
        None
    }
}

/// Looks at the header code of the line at `pos` without reading the line:
/// the lookahead by which the grammar picks a production.
pub fn peek(text: &[u8], pos: usize) -> (s: Option<Satz>)
    ensures
        s == spec_peek(text@, pos as int),
{
    let len: usize = text.len();
    if pos > len || len - pos < 3 {
        proof {
            if pos <= len {
                lemma_line_len(text@, pos as int);
            }
        }
        return None;
    }
    let found: [u8; 3] = [text[pos], text[pos + 1], text[pos + 2]];
    proof {
        lemma_line_len(text@, pos as int);
    }
    if found[0] == NEWLINE || found[1] == NEWLINE || found[2] == NEWLINE {
        return None;
    }
    proof {
        assert(found =~= header_of(line_at(text@, pos as int)));
    }
    Satz::from_code(found)
}

/// The failure of a read at `pos` where the text has ended.
pub open spec fn end_error(pos: int, expected: Satz) -> DecodeError {
    DecodeError { kind: ErrorKind::UnexpectedEnd { expected }, offset: pos as usize }
}

/// What reading a record of type `expected` at `pos` gives, where `decoded`
/// is what its decoder makes of the line there: the end failure when no
/// line starts at `pos`; else the record and the cursor of the next line, or
/// the decoder's failure at its offset within the text.
pub open spec fn spec_on_line<T>(
    text: Seq<u8>,
    pos: int,
    expected: Satz,
    decoded: Result<T, DecodeError>,
) -> Result<(T, int), DecodeError> {
    if !(0 <= pos < text.len()) {
        Err(end_error(pos, expected))
    } else {
        match decoded {
            Ok(record) => Ok((record, next_line(text, pos))),
            Err(e) => Err(e.spec_shifted(pos)),
        }
    }
}

/// What `parse_511` gives.
pub open spec fn spec_parse_511(text: Seq<u8>, pos: int, filler: Class) -> Result<
    (Satz511Model, int),
    DecodeError,
> {
    spec_on_line(text, pos, Satz::S511, spec_satz511(line_at(text, pos), filler))
}

/// What `parse_512` gives.
pub open spec fn spec_parse_512(text: Seq<u8>, pos: int, filler: Class) -> Result<
    (Satz512Model, int),
    DecodeError,
> {
    spec_on_line(text, pos, Satz::S512, spec_satz512(line_at(text, pos), filler))
}

/// What `parse_513` gives.
pub open spec fn spec_parse_513(text: Seq<u8>, pos: int, filler: Class) -> Result<
    (Seq<Abruf>, int),
    DecodeError,
> {
    spec_on_line(text, pos, Satz::S513, spec_satz513(line_at(text, pos), filler))
}

/// What `parse_514` gives.
pub open spec fn spec_parse_514(text: Seq<u8>, pos: int, filler: Class) -> Result<
    (Seq<Abruf>, int),
    DecodeError,
> {
    spec_on_line(text, pos, Satz::S514, spec_satz514(line_at(text, pos), filler))
}

/// What reading a record without fields of its own gives: the cursor of the
/// next line.
pub open spec fn spec_parse_plain(text: Seq<u8>, pos: int, satz: Satz, filler: Class) -> Result<
    int,
    DecodeError,
> {
    match spec_on_line(text, pos, satz, spec_satz_plain(line_at(text, pos), satz, filler)) {
        Ok((_, next)) => Ok(next),
        Err(e) => Err(e),
    }
}

/// Reads a record of type 511 at `pos`.
pub fn parse_511(text: &[u8], pos: usize, filler: Class) -> (r: Result<(Satz511, usize), DecodeError>)
    ensures
        spec_parse_511(text@, pos as int, filler) == match r {
            Ok((record, next)) => Ok::<(Satz511Model, int), DecodeError>((record@, next as int)),
            Err(e) => Err(e),
        },
        r matches Ok((record, next)) ==> pos < next <= text@.len(),
{
    if pos >= text.len() {
        return Err(DecodeError { kind: ErrorKind::UnexpectedEnd { expected: Satz::S511 }, offset: pos });
    }
    let (line, next) = current_line(text, pos);
    match satz511(line, filler) {
        Ok(record) => Ok((record, next)),
        Err(e) => Err(e.shifted(pos)),
    }
}

/// Reads a record of type 512 at `pos`.
pub fn parse_512(text: &[u8], pos: usize, filler: Class) -> (r: Result<(Satz512, usize), DecodeError>)
    ensures
        spec_parse_512(text@, pos as int, filler) == match r {
            Ok((record, next)) => Ok::<(Satz512Model, int), DecodeError>((record@, next as int)),
            Err(e) => Err(e),
        },
        r matches Ok((record, next)) ==> pos < next <= text@.len(),
{
    if pos >= text.len() {
        return Err(DecodeError { kind: ErrorKind::UnexpectedEnd { expected: Satz::S512 }, offset: pos });
    }
    let (line, next) = current_line(text, pos);
    match satz512(line, filler) {
        Ok(record) => Ok((record, next)),
        Err(e) => Err(e.shifted(pos)),
    }
}

/// Reads a record of type 513 at `pos`: always five call-offs.
pub fn parse_513(text: &[u8], pos: usize, filler: Class) -> (r: Result<(Vec<Abruf>, usize), DecodeError>)
    ensures
        spec_parse_513(text@, pos as int, filler) == match r {
            Ok((items, next)) => Ok::<(Seq<Abruf>, int), DecodeError>((items@, next as int)),
            Err(e) => Err(e),
        },
        r matches Ok((items, next)) ==> items@.len() == 5 && pos < next <= text@.len(),
{
    if pos >= text.len() {
        return Err(DecodeError { kind: ErrorKind::UnexpectedEnd { expected: Satz::S513 }, offset: pos });
    }
    let (line, next) = current_line(text, pos);
    match satz513(line, filler) {
        Ok(items) => Ok((items, next)),
        Err(e) => Err(e.shifted(pos)),
    }
}

/// Reads a record of type 514 at `pos`: always eight call-offs.
pub fn parse_514(text: &[u8], pos: usize, filler: Class) -> (r: Result<(Vec<Abruf>, usize), DecodeError>)
    ensures
        spec_parse_514(text@, pos as int, filler) == match r {
            Ok((items, next)) => Ok::<(Seq<Abruf>, int), DecodeError>((items@, next as int)),
            Err(e) => Err(e),
        },
        r matches Ok((items, next)) ==> items@.len() == 8 && pos < next <= text@.len(),
{
    if pos >= text.len() {
        return Err(DecodeError { kind: ErrorKind::UnexpectedEnd { expected: Satz::S514 }, offset: pos });
    }
    let (line, next) = current_line(text, pos);
    match satz514(line, filler) {
        Ok(items) => Ok((items, next)),
        Err(e) => Err(e.shifted(pos)),
    }
}

/// Reads a record of type `satz`, one without fields of its own, at `pos`.
pub(crate) fn parse_plain(text: &[u8], pos: usize, satz: Satz, filler: Class) -> (r: Result<
    usize,
    DecodeError,
>)
    ensures
        spec_parse_plain(text@, pos as int, satz, filler) == match r {
            Ok(next) => Ok::<int, DecodeError>(next as int),
            Err(e) => Err(e),
        },
        r matches Ok(next) ==> pos < next <= text@.len(),
{
    if pos >= text.len() {
        return Err(DecodeError { kind: ErrorKind::UnexpectedEnd { expected: satz }, offset: pos });
    }
    let (line, next) = current_line(text, pos);
    match satz_plain(line, satz, filler) {
        Ok(_) => Ok(next),
        Err(e) => Err(e.shifted(pos)),
    }
}

/// Reads a record of type 515 at `pos`.
pub fn parse_515(text: &[u8], pos: usize, filler: Class) -> (r: Result<usize, DecodeError>)
    ensures
        spec_parse_plain(text@, pos as int, Satz::S515, filler) == match r {
            Ok(next) => Ok::<int, DecodeError>(next as int),
            Err(e) => Err(e),
        },
        r matches Ok(next) ==> pos < next <= text@.len(),
{
    parse_plain(text, pos, Satz::S515, filler)
}

/// Reads a record of type 517 at `pos`.
pub fn parse_517(text: &[u8], pos: usize, filler: Class) -> (r: Result<usize, DecodeError>)
    ensures
        spec_parse_plain(text@, pos as int, Satz::S517, filler) == match r {
            Ok(next) => Ok::<int, DecodeError>(next as int),
            Err(e) => Err(e),
        },
        r matches Ok(next) ==> pos < next <= text@.len(),
{
    parse_plain(text, pos, Satz::S517, filler)
}

/// Reads a record of type 518 at `pos`.
pub fn parse_518(text: &[u8], pos: usize, filler: Class) -> (r: Result<usize, DecodeError>)
    ensures
        spec_parse_plain(text@, pos as int, Satz::S518, filler) == match r {
            Ok(next) => Ok::<int, DecodeError>(next as int),
            Err(e) => Err(e),
        },
        r matches Ok(next) ==> pos < next <= text@.len(),
{
    parse_plain(text, pos, Satz::S518, filler)
}

/// Reads a record of type 519 at `pos`.
pub fn parse_519(text: &[u8], pos: usize, filler: Class) -> (r: Result<usize, DecodeError>)
    ensures
        spec_parse_plain(text@, pos as int, Satz::S519, filler) == match r {
            Ok(next) => Ok::<int, DecodeError>(next as int),
            Err(e) => Err(e),
        },
        r matches Ok(next) ==> pos < next <= text@.len(),
{
    parse_plain(text, pos, Satz::S519, filler)
}

/// The failure with which a read of a record of type `satz` at `pos` ends,
/// if it fails.
pub open spec fn spec_parse_failure(text: Seq<u8>, pos: int, satz: Satz, filler: Class) -> Option<
    DecodeError,
> {
    match satz {
        Satz::S511 => match spec_parse_511(text, pos, filler) {
            Ok(_) => None,
            Err(e) => Some(e),
        },
        Satz::S512 => match spec_parse_512(text, pos, filler) {
            Ok(_) => None,
            Err(e) => Some(e),
        },
        Satz::S513 => match spec_parse_513(text, pos, filler) {
            Ok(_) => None,
            Err(e) => Some(e),
        },
        Satz::S514 => match spec_parse_514(text, pos, filler) {
            Ok(_) => None,
            Err(e) => Some(e),
        },
        _ => match spec_parse_plain(text, pos, satz, filler) {
            Ok(_) => None,
            Err(e) => Some(e),
        },
    }
}

/// A record that is read stands on a line of 128 columns that opens with
/// its code, and the cursor behind it is 129 further on, or at the end of
/// the text where the line has no newline.
pub proof fn lemma_record_read(text: Seq<u8>, pos: int, satz: Satz, filler: Class)
    requires
        spec_parse_failure(text, pos, satz, filler) is None,
    ensures
        0 <= pos,
        pos + 128 <= text.len(),
        line_len(text, pos) == 128,
        spec_peek(text, pos) == Some(satz),
        next_line(text, pos) == if pos + 128 < text.len() {
            pos + 129
        } else {
            text.len() as int
        },
{
    let line = line_at(text, pos);
    lemma_line_len(text, pos);
    lemma_line_width(satz, line, filler);
    lemma_code_lookup(header_of(line), satz);
}

/// The choice by lookahead: where the line at `pos` has a header and `peek`
/// does not find the code of `offered` there, the read of `offered` fails
/// with the header failure, and the failure points at `pos`, the cursor that
/// the caller still holds for the next production.
pub proof fn lemma_refusal_at_cursor(text: Seq<u8>, pos: int, offered: Satz, filler: Class)
    requires
        text.len() <= usize::MAX,
        0 <= pos,
        line_len(text, pos) >= 3,
        spec_peek(text, pos) != Some(offered),
    ensures
        spec_parse_failure(text, pos, offered, filler) == Some(
            DecodeError {
                kind: ErrorKind::HeaderMismatch {
                    expected: offered,
                    found: header_of(line_at(text, pos)),
                },
                offset: pos as usize,
            },
        ),
{
    let line = line_at(text, pos);
    lemma_line_len(text, pos);
    lemma_code_lookup(header_of(line), offered);
    lemma_header_refusal(line, offered, filler);
}

/// Header dispatch at the cursor: where the line at `pos` opens with the
/// code of one record type, the read of every other record type fails with
/// the header failure at `pos`.
pub proof fn lemma_header_dispatch_at_cursor(
    text: Seq<u8>,
    pos: int,
    opened: Satz,
    offered: Satz,
    filler: Class,
)
    requires
        text.len() <= usize::MAX,
        spec_peek(text, pos) == Some(opened),
        offered != opened,
    ensures
        spec_parse_failure(text, pos, offered, filler) == Some(
            DecodeError {
                kind: ErrorKind::HeaderMismatch { expected: offered, found: opened.spec_code() },
                offset: pos as usize,
            },
        ),
{
    lemma_code_lookup(header_of(line_at(text, pos)), opened);
    lemma_refusal_at_cursor(text, pos, offered, filler);
}

/// The other half of the choice: where `peek` finds the code of `taken`,
/// the read of `taken` may fail, but not with the header failure.
pub proof fn lemma_taken_production(text: Seq<u8>, pos: int, taken: Satz, filler: Class)
    requires
        spec_peek(text, pos) == Some(taken),
    ensures
        spec_parse_failure(text, pos, taken, filler) matches Some(e) ==> !(e.kind is HeaderMismatch),
{
    let line = line_at(text, pos);
    lemma_line_len(text, pos);
    lemma_code_lookup(header_of(line), taken);
    lemma_header_accepted(line, taken, filler);
}

} // verus!
