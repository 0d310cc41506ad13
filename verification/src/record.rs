//! The record decoders: one function from a line to a typed record for each
//! header code.
//!
//! Every line is 128 columns wide. It opens with the three characters of its
//! header code and a two-digit version, and a decoder reads the fields that
//! follow in a fixed order up to the filler that closes the line. A decoder
//! that is offered a line of another record type fails on the header, before
//! it has read anything else.

use vstd::prelude::*;
use crate::error::{DecodeError, ErrorKind};
use crate::field::{
    all_accepted, ignore_n, lemma_read_accepts, n_alphanums, read, spec_ignore_n, spec_n_alphanums,
    spec_read, spec_trailing, trailing, width_error, Class,
};
use crate::number::{counted_number, spec_counted_number, spec_to_number};
use crate::satz::{lemma_code_lookup, Satz};

verus! {

/// The width of every line.
pub const LINE_WIDTH: usize = 128;

/// The width of the header code and the version behind it.
pub const HEADER_WIDTH: usize = 5;

/// The width of one call-off: six columns of date, nine of amount.
pub const ABRUF_WIDTH: usize = 15;

/// The greatest version that two digits can write.
pub const VERSION_LIMIT: u64 = 99;

/// The limit of a field that is held in 32 bits.
pub const LIMIT_32: u64 = 0xFFFF_FFFF;

/// The limit of a field that is held in 64 bits.
pub const LIMIT_64: u64 = 0xFFFF_FFFF_FFFF_FFFF;

/// A call-off: a date and the amount to deliver on it.
#[derive(Clone, Copy, Debug, PartialEq, Eq, Structural)]
pub struct Abruf {
    pub date: u32,
    pub amount: u64,
}

/// The root header record: who calls off, and from whom.
#[derive(Clone, Debug, PartialEq, Eq)]
pub struct Satz511 {
    pub kunde: Vec<u8>,
    pub lieferant: Vec<u8>,
}

/// What a `Satz511` holds, as sequences.
pub struct Satz511Model {
    pub kunde: Seq<u8>,
    pub lieferant: Seq<u8>,
}

impl Satz511Model {
    /// Whether the fields have the widths and the characters of fields of a
    /// record of type 511: nine ASCII characters each.
    pub open spec fn well_formed(self) -> bool {
        &&& self.kunde.len() == 9
        &&& self.lieferant.len() == 9
        &&& all_accepted(self.kunde, Class::Alphanumeric)
        &&& all_accepted(self.lieferant, Class::Alphanumeric)
    }
}

impl View for Satz511 {
    type V = Satz511Model;

    open spec fn view(&self) -> Satz511Model {
        Satz511Model { kunde: self.kunde@, lieferant: self.lieferant@ }
    }
}

/// The header record of a delivery schedule.
#[derive(Clone, Debug, PartialEq, Eq)]
pub struct Satz512 {
    pub werk_kunde: Vec<u8>,
    pub lieferabruf_neu: u64,
    pub lieferabruf_alt: u64,
    pub sachnummer_kunde: Vec<u8>,
    pub abladestelle: Vec<u8>,
    pub mengeneinheit: Vec<u8>,
}

/// What a `Satz512` holds, as sequences.
pub struct Satz512Model {
    pub werk_kunde: Seq<u8>,
    pub lieferabruf_neu: u64,
    pub lieferabruf_alt: u64,
    pub sachnummer_kunde: Seq<u8>,
    pub abladestelle: Seq<u8>,
    pub mengeneinheit: Seq<u8>,
}

impl Satz512Model {
    /// Whether the fields have the widths and the characters of fields of a
    /// record of type 512: ASCII characters, three for the plant, 22 for the
    /// part number, five for the unloading point and two for the unit.
    pub open spec fn well_formed(self) -> bool {
        &&& self.werk_kunde.len() == 3
        &&& self.sachnummer_kunde.len() == 22
        &&& self.abladestelle.len() == 5
        &&& self.mengeneinheit.len() == 2
        &&& all_accepted(self.werk_kunde, Class::Alphanumeric)
        &&& all_accepted(self.sachnummer_kunde, Class::Alphanumeric)
        &&& all_accepted(self.abladestelle, Class::Alphanumeric)
        &&& all_accepted(self.mengeneinheit, Class::Alphanumeric)
    }
}

impl View for Satz512 {
    type V = Satz512Model;

    open spec fn view(&self) -> Satz512Model {
        Satz512Model {
            werk_kunde: self.werk_kunde@,
            lieferabruf_neu: self.lieferabruf_neu,
            lieferabruf_alt: self.lieferabruf_alt,
            sachnummer_kunde: self.sachnummer_kunde@,
            abladestelle: self.abladestelle@,
            mengeneinheit: self.mengeneinheit@,
        }
    }
}

/// The first three characters of a line of at least that length.
pub open spec fn header_of(line: Seq<u8>) -> [u8; 3] {
    [line[0], line[1], line[2]]
}

/// The failure of a decoder for `expected` on a line that opens otherwise.
pub open spec fn header_error(line: Seq<u8>, expected: Satz) -> DecodeError {
    DecodeError { kind: ErrorKind::HeaderMismatch { expected, found: header_of(line) }, offset: 0 }
}

/// What `header` gives: the width failure on a line of fewer than three
/// columns; the header failure where the three columns are not the code of
/// `satz`; else what reading the two-digit version gives.
pub open spec fn spec_header(line: Seq<u8>, satz: Satz) -> Result<int, DecodeError> {
    if line.len() < 3 {
        Err(width_error(line, 0, 3))
    } else if header_of(line) != satz.spec_code() {
        Err(header_error(line, satz))
    } else {
        match spec_counted_number(line, 3, 2, VERSION_LIMIT) {
            Ok((_, next)) => Ok(next),
            Err(e) => Err(e),
        }
    }
}

/// Reads the header of a line of record type `satz`: the code, which has to
/// be that of `satz`, and the version, which is read as a number and not
/// looked at further.
pub fn header(line: &[u8], satz: Satz) -> (r: Result<usize, DecodeError>)
    ensures
        spec_header(line@, satz) == match r {
            Ok(next) => Ok::<int, DecodeError>(next as int),
            Err(e) => Err(e),
        },
        r matches Ok(next) ==> next == HEADER_WIDTH && next <= line@.len(),
        r matches Err(e) ==> e.offset <= line@.len(),
{
    if line.len() < 3 {
        return Err(
            DecodeError {
                kind: ErrorKind::FieldWidthMismatch { width: 3, available: line.len() },
                offset: 0,
            },
        );
    }
    let found: [u8; 3] = [line[0], line[1], line[2]];
    let code: [u8; 3] = satz.code();
    if found[0] != code[0] || found[1] != code[1] || found[2] != code[2] {
        return Err(DecodeError { kind: ErrorKind::HeaderMismatch { expected: satz, found }, offset: 0 });
    }
    proof {
        assert(found =~= code);
    }
    match counted_number(line, 3, 2, VERSION_LIMIT) {
        Ok((_, next)) => Ok(next),
        Err(e) => Err(e),
    }
}

/// What `abruf` gives: a date of six columns, then an amount of nine.
pub open spec fn spec_abruf(line: Seq<u8>, at: int) -> Result<(Abruf, int), DecodeError> {
    match spec_counted_number(line, at, 6, LIMIT_32) {
        Err(e) => Err(e),
        Ok((date, amount_at)) => match spec_counted_number(line, amount_at, 9, LIMIT_64) {
            Err(e) => Err(e),
            Ok((amount, next)) => Ok((Abruf { date: date as u32, amount }, next)),
        },
    }
}

/// Reads one call-off at `at`.
pub fn abruf(line: &[u8], at: usize) -> (r: Result<(Abruf, usize), DecodeError>)
    ensures
        spec_abruf(line@, at as int) == match r {
            Ok((item, next)) => Ok::<(Abruf, int), DecodeError>((item, next as int)),
            Err(e) => Err(e),
        },
        r matches Ok((item, next)) ==> next == at + ABRUF_WIDTH && next <= line@.len(),
{
    let (date, amount_at) = counted_number(line, at, 6, LIMIT_32)?;
    let (amount, next) = counted_number(line, amount_at, 9, LIMIT_64)?;
    Ok((Abruf { date: date as u32, amount }, next))
}

/// The number of call-offs that can be read one behind the other from `at`,
/// up to `count` of them.
pub open spec fn leading_abrufe(line: Seq<u8>, at: int, count: nat) -> nat
    decreases count,
{
    if count > 0 && spec_abruf(line, at) is Ok {
        1 + leading_abrufe(line, at + 15, (count - 1) as nat)
    } else {
        0
    }
}

/// The call-off in slot `k` of a repetition that starts at `at`.
pub open spec fn abruf_in_slot(line: Seq<u8>, at: int, k: int) -> Abruf {
    spec_abruf(line, at + 15 * k)->Ok_0.0
}

/// The failure of a repetition of `count` items from `at` that broke off
/// after `completed` of them.
pub open spec fn repeat_error(at: int, count: nat, completed: nat) -> DecodeError {
    DecodeError {
        kind: ErrorKind::RepeatCountMismatch { required: count as usize, completed: completed as usize },
        offset: (at + 15 * completed) as usize,
    }
}

/// What `abrufe` gives: exactly `count` call-offs, slot by slot, and the
/// cursor behind them, when every slot holds one; else the repeat failure
/// with the number of slots that did, at the slot that did not.
pub open spec fn spec_abrufe(line: Seq<u8>, at: int, count: nat) -> Result<(Seq<Abruf>, int), DecodeError> {
    let completed = leading_abrufe(line, at, count);
    if completed == count {
        Ok((Seq::new(count, |k: int| abruf_in_slot(line, at, k)), at + 15 * count))
    } else {
        Err(repeat_error(at, count, completed))
    }
}

/// `leading_abrufe` is `k` when the first `k` slots hold a call-off and the
/// next slot does not, or `k` is all there are.
pub proof fn lemma_leading_abrufe(line: Seq<u8>, at: int, count: nat, k: nat)
    requires
        k <= count,
        forall|j: int| 0 <= j < k ==> (#[trigger] spec_abruf(line, at + 15 * j)) is Ok,
        k == count || spec_abruf(line, at + 15 * k) is Err,
    ensures
        leading_abrufe(line, at, count) == k,
    decreases count,
{
    if k > 0 {
        assert(spec_abruf(line, at + 15 * 0) is Ok);
        assert forall|j: int| 0 <= j < k - 1 implies (#[trigger] spec_abruf(
            line,
            at + 15 + 15 * j,
        )) is Ok by {
            assert(spec_abruf(line, at + 15 * (j + 1)) is Ok);
        }
        lemma_leading_abrufe(line, at + 15, (count - 1) as nat, (k - 1) as nat);
    }
}

/// Reads a repetition of exactly `count` call-offs from `at`. A slot that
/// does not hold a call-off, for whatever reason, breaks the repetition.
pub fn abrufe(line: &[u8], at: usize, count: usize) -> (r: Result<(Vec<Abruf>, usize), DecodeError>)
    ensures
        spec_abrufe(line@, at as int, count as nat) == match r {
            Ok((items, next)) => Ok::<(Seq<Abruf>, int), DecodeError>((items@, next as int)),
            Err(e) => Err(e),
        },
        r matches Ok((items, next)) ==> items@.len() == count && next == at + ABRUF_WIDTH * count && (
        count > 0 ==> next <= line@.len()),
        r matches Err(e) ==> e.kind is RepeatCountMismatch && (e.offset <= line@.len() || e.offset
            == at),
{
    let mut items: Vec<Abruf> = Vec::new();
    let mut p: usize = at;
    let mut k: usize = 0;
    while k < count
        invariant
            k <= count,
            p == at + 15 * k,
            k > 0 ==> p <= line@.len(),
            items@.len() == k,
            forall|j: int|
                0 <= j < k ==> (#[trigger] spec_abruf(line@, at + 15 * j)) is Ok && items@[j]
                    == abruf_in_slot(line@, at as int, j),
        decreases count - k,
    {
        match abruf(line, p) {
            Ok((item, next)) => {
                items.push(item);
                p = next;
                k += 1;
            },
            Err(_) => {
                proof {
                    lemma_leading_abrufe(line@, at as int, count as nat, k as nat);
                }
                return Err(
                    DecodeError {
                        kind: ErrorKind::RepeatCountMismatch { required: count, completed: k },
                        offset: p,
                    },
                );
            },
        }
    }
    proof {
        lemma_leading_abrufe(line@, at as int, count as nat, k as nat);
        assert(items@ =~= Seq::new(count as nat, |k: int| abruf_in_slot(line@, at as int, k)));
    }
    Ok((items, p))
}

/// What the decoder of the root header record gives: header, customer,
/// supplier, filler.
pub open spec fn spec_satz511(line: Seq<u8>, filler: Class) -> Result<Satz511Model, DecodeError> {
    match spec_header(line, Satz::S511) {
        Err(e) => Err(e),
        Ok(c0) => match spec_n_alphanums(line, c0, 9) {
            Err(e) => Err(e),
            Ok((kunde, c1)) => match spec_n_alphanums(line, c1, 9) {
                Err(e) => Err(e),
                Ok((lieferant, c2)) => match spec_trailing(line, c2, 105, filler) {
                    Err(e) => Err(e),
                    Ok(_) => Ok(Satz511Model { kunde, lieferant }),
                },
            },
        },
    }
}

/// Decodes a line of record type 511. The filler that closes the line has
/// to be of class `filler`.
pub fn satz511(line: &[u8], filler: Class) -> (r: Result<Satz511, DecodeError>)
    ensures
        spec_satz511(line@, filler) == match r {
            Ok(record) => Ok::<Satz511Model, DecodeError>(record@),
            Err(e) => Err(e),
        },
        r matches Ok(record) ==> record@.well_formed() && line@.len() == LINE_WIDTH,
        r matches Err(e) ==> e.offset <= line@.len(),
{
    let c0 = header(line, Satz::S511)?;
    let (kunde, c1) = n_alphanums(line, c0, 9)?;
    let (lieferant, c2) = n_alphanums(line, c1, 9)?;
    trailing(line, c2, 105, filler)?;
    Ok(Satz511 { kunde, lieferant })
}

/// What the decoder of the schedule header record gives. The fields, in
/// their order: header; plant (3); new call-off number (9) and its date (6);
/// old call-off number (9) and its date (6); the customer's part number
/// (22); the supplier's part number (22); order number (10 digits) and two
/// reserved columns; unloading point (5); the customer's sign (4); unit of
/// measure (2); filler (23). The dates, the supplier's part number, the
/// order number and the sign are checked against their class and dropped.
pub open spec fn spec_satz512(line: Seq<u8>, filler: Class) -> Result<Satz512Model, DecodeError> {
    match spec_header(line, Satz::S512) {
        Err(e) => Err(e),
        Ok(c0) => match spec_n_alphanums(line, c0, 3) {
            Err(e) => Err(e),
            Ok((werk_kunde, c1)) => match spec_counted_number(line, c1, 9, LIMIT_64) {
                Err(e) => Err(e),
                Ok((lieferabruf_neu, c2)) => match spec_read(line, c2, 6, Class::NumericOrSpace) {
                    Err(e) => Err(e),
                    Ok(c3) => match spec_counted_number(line, c3, 9, LIMIT_64) {
                        Err(e) => Err(e),
                        Ok((lieferabruf_alt, c4)) => match spec_read(line, c4, 6, Class::NumericOrSpace) {
                            Err(e) => Err(e),
                            Ok(c5) => match spec_n_alphanums(line, c5, 22) {
                                Err(e) => Err(e),
                                Ok((sachnummer_kunde, c6)) => match spec_satz512_tail(line, c6, filler) {
                                    Err(e) => Err(e),
                                    Ok((abladestelle, mengeneinheit)) => Ok(
                                        Satz512Model {
                                            werk_kunde,
                                            lieferabruf_neu,
                                            lieferabruf_alt,
                                            sachnummer_kunde,
                                            abladestelle,
                                            mengeneinheit,
                                        },
                                    ),
                                },
                            },
                        },
                    },
                },
            },
        },
    }
}

/// The second half of a schedule header record, from the supplier's part
/// number on: the unloading point and the unit of measure.
pub open spec fn spec_satz512_tail(line: Seq<u8>, at: int, filler: Class) -> Result<
    (Seq<u8>, Seq<u8>),
    DecodeError,
> {
    match spec_read(line, at, 22, Class::Alphanumeric) {
        Err(e) => Err(e),
        Ok(c7) => match spec_read(line, c7, 10, Class::NumericOrSpace) {
            Err(e) => Err(e),
            Ok(c8) => match spec_ignore_n(line, c8, 2) {
                Err(e) => Err(e),
                Ok(c9) => match spec_n_alphanums(line, c9, 5) {
                    Err(e) => Err(e),
                    Ok((abladestelle, c10)) => match spec_read(line, c10, 4, Class::Alphanumeric) {
                        Err(e) => Err(e),
                        Ok(c11) => match spec_n_alphanums(line, c11, 2) {
                            Err(e) => Err(e),
                            Ok((mengeneinheit, c12)) => match spec_trailing(line, c12, 23, filler) {
                                Err(e) => Err(e),
                                Ok(_) => Ok((abladestelle, mengeneinheit)),
                            },
                        },
                    },
                },
            },
        },
    }
}

/// Decodes a line of record type 512.
pub fn satz512(line: &[u8], filler: Class) -> (r: Result<Satz512, DecodeError>)
    ensures
        spec_satz512(line@, filler) == match r {
            Ok(record) => Ok::<Satz512Model, DecodeError>(record@),
            Err(e) => Err(e),
        },
        r matches Ok(record) ==> record@.well_formed() && line@.len() == LINE_WIDTH,
        r matches Err(e) ==> e.offset <= line@.len(),
{
    let c0 = header(line, Satz::S512)?;
    let (werk_kunde, c1) = n_alphanums(line, c0, 3)?;
    let (lieferabruf_neu, c2) = counted_number(line, c1, 9, LIMIT_64)?;
    let c3 = read(line, c2, 6, Class::NumericOrSpace)?;
    let (lieferabruf_alt, c4) = counted_number(line, c3, 9, LIMIT_64)?;
    let c5 = read(line, c4, 6, Class::NumericOrSpace)?;
    let (sachnummer_kunde, c6) = n_alphanums(line, c5, 22)?;
    let c7 = read(line, c6, 22, Class::Alphanumeric)?;
    let c8 = read(line, c7, 10, Class::NumericOrSpace)?;
    let c9 = ignore_n(line, c8, 2)?;
    let (abladestelle, c10) = n_alphanums(line, c9, 5)?;
    let c11 = read(line, c10, 4, Class::Alphanumeric)?;
    let (mengeneinheit, c12) = n_alphanums(line, c11, 2)?;
    trailing(line, c12, 23, filler)?;
    Ok(
        Satz512 {
            werk_kunde,
            lieferabruf_neu,
            lieferabruf_alt,
            sachnummer_kunde,
            abladestelle,
            mengeneinheit,
        },
    )
}

/// What the decoder of the first call-off record gives: header, 43 columns
/// that are skipped, exactly five call-offs, filler (5).
pub open spec fn spec_satz513(line: Seq<u8>, filler: Class) -> Result<Seq<Abruf>, DecodeError> {
    match spec_header(line, Satz::S513) {
        Err(e) => Err(e),
        Ok(c0) => match spec_ignore_n(line, c0, 43) {
            Err(e) => Err(e),
            Ok(c1) => match spec_abrufe(line, c1, 5) {
                Err(e) => Err(e),
                Ok((items, c2)) => match spec_trailing(line, c2, 5, filler) {
                    Err(e) => Err(e),
                    Ok(_) => Ok(items),
                },
            },
        },
    }
}

/// Decodes a line of record type 513 into its five call-offs.
pub fn satz513(line: &[u8], filler: Class) -> (r: Result<Vec<Abruf>, DecodeError>)
    ensures
        spec_satz513(line@, filler) == match r {
            Ok(items) => Ok::<Seq<Abruf>, DecodeError>(items@),
            Err(e) => Err(e),
        },
        r matches Ok(items) ==> items@.len() == 5 && line@.len() == LINE_WIDTH,
        r matches Err(e) ==> e.offset <= line@.len(),
{
    let c0 = header(line, Satz::S513)?;
    let c1 = ignore_n(line, c0, 43)?;
    let (items, c2) = abrufe(line, c1, 5)?;
    trailing(line, c2, 5, filler)?;
    Ok(items)
}

/// What the decoder of the further call-off record gives: header, exactly
/// eight call-offs, filler (3).
pub open spec fn spec_satz514(line: Seq<u8>, filler: Class) -> Result<Seq<Abruf>, DecodeError> {
    match spec_header(line, Satz::S514) {
        Err(e) => Err(e),
        Ok(c0) => match spec_abrufe(line, c0, 8) {
            Err(e) => Err(e),
            Ok((items, c1)) => match spec_trailing(line, c1, 3, filler) {
                Err(e) => Err(e),
                Ok(_) => Ok(items),
            },
        },
    }
}

/// Decodes a line of record type 514 into its eight call-offs.
pub fn satz514(line: &[u8], filler: Class) -> (r: Result<Vec<Abruf>, DecodeError>)
    ensures
        spec_satz514(line@, filler) == match r {
            Ok(items) => Ok::<Seq<Abruf>, DecodeError>(items@),
            Err(e) => Err(e),
        },
        r matches Ok(items) ==> items@.len() == 8 && line@.len() == LINE_WIDTH,
        r matches Err(e) ==> e.offset <= line@.len(),
{
    let c0 = header(line, Satz::S514)?;
    let (items, c1) = abrufe(line, c0, 8)?;
    trailing(line, c1, 3, filler)?;
    Ok(items)
}

/// What the decoder of a record without fields of its own gives: header,
/// then filler up to the end of the line (123).
pub open spec fn spec_satz_plain(line: Seq<u8>, satz: Satz, filler: Class) -> Result<(), DecodeError> {
    match spec_header(line, satz) {
        Err(e) => Err(e),
        Ok(c0) => spec_trailing(line, c0, 123, filler),
    }
}

/// Decodes the header and the filler of a line of record type `satz`.
pub(crate) fn satz_plain(line: &[u8], satz: Satz, filler: Class) -> (r: Result<(), DecodeError>)
    ensures
        spec_satz_plain(line@, satz, filler) == r,
        r is Ok ==> line@.len() == LINE_WIDTH,
        r matches Err(e) ==> e.offset <= line@.len(),
{
    let c0 = header(line, satz)?;
    trailing(line, c0, 123, filler)
}

/// Decodes a line of record type 515, which carries nothing into the
/// document.
pub fn satz515(line: &[u8], filler: Class) -> (r: Result<(), DecodeError>)
    ensures
        spec_satz_plain(line@, Satz::S515, filler) == r,
        r is Ok ==> line@.len() == LINE_WIDTH,
        r matches Err(e) ==> e.offset <= line@.len(),
{
    satz_plain(line, Satz::S515, filler)
}

/// Decodes a line of record type 517, the wrapper of a trailer chain.
pub fn satz517(line: &[u8], filler: Class) -> (r: Result<(), DecodeError>)
    ensures
        spec_satz_plain(line@, Satz::S517, filler) == r,
        r is Ok ==> line@.len() == LINE_WIDTH,
        r matches Err(e) ==> e.offset <= line@.len(),
{
    satz_plain(line, Satz::S517, filler)
}

/// Decodes a line of record type 518, which ends a trailer chain.
pub fn satz518(line: &[u8], filler: Class) -> (r: Result<(), DecodeError>)
    ensures
        spec_satz_plain(line@, Satz::S518, filler) == r,
        r is Ok ==> line@.len() == LINE_WIDTH,
        r matches Err(e) ==> e.offset <= line@.len(),
{
    satz_plain(line, Satz::S518, filler)
}

/// Decodes a line of record type 519, which ends the document.
pub fn satz519(line: &[u8], filler: Class) -> (r: Result<(), DecodeError>)
    ensures
        spec_satz_plain(line@, Satz::S519, filler) == r,
        r is Ok ==> line@.len() == LINE_WIDTH,
        r matches Err(e) ==> e.offset <= line@.len(),
{
    satz_plain(line, Satz::S519, filler)
}

/// The failure with which the decoder of `satz` refuses a line, if it does.
pub open spec fn spec_failure(satz: Satz, line: Seq<u8>, filler: Class) -> Option<DecodeError> {
    match satz {
        Satz::S511 => match spec_satz511(line, filler) {
            Ok(_) => None,
            Err(e) => Some(e),
        },
        Satz::S512 => match spec_satz512(line, filler) {
            Ok(_) => None,
            Err(e) => Some(e),
        },
        Satz::S513 => match spec_satz513(line, filler) {
            Ok(_) => None,
            Err(e) => Some(e),
        },
        Satz::S514 => match spec_satz514(line, filler) {
            Ok(_) => None,
            Err(e) => Some(e),
        },
        _ => match spec_satz_plain(line, satz, filler) {
            Ok(_) => None,
            Err(e) => Some(e),
        },
    }
}

/// A line of three columns or more that does not open with the code of
/// `offered` is refused by the decoder of `offered` with the header failure
/// at the start of the line, whatever else the line holds.
pub proof fn lemma_header_refusal(line: Seq<u8>, offered: Satz, filler: Class)
    requires
        line.len() >= 3,
        header_of(line) != offered.spec_code(),
    ensures
        spec_header(line, offered) == Err::<int, DecodeError>(header_error(line, offered)),
        spec_failure(offered, line, filler) == Some(header_error(line, offered)),
{
}

/// Header dispatch: a line that opens with the code of one record type is
/// refused by the decoder of every other record type, with the header
/// failure at the start of the line. So at most one decoder accepts a line.
pub proof fn lemma_header_dispatch(line: Seq<u8>, opened: Satz, offered: Satz, filler: Class)
    requires
        line.len() >= 3,
        header_of(line) == opened.spec_code(),
        offered != opened,
    ensures
        spec_header(line, offered) == Err::<int, DecodeError>(header_error(line, offered)),
        spec_failure(offered, line, filler) == Some(header_error(line, offered)),
        header_error(line, offered).kind == (ErrorKind::HeaderMismatch {
            expected: offered,
            found: opened.spec_code(),
        }),
        header_error(line, offered).offset == 0,
        spec_failure(opened, line, filler) is None ==> spec_failure(offered, line, filler) is Some,
{
    lemma_code_lookup(opened.spec_code(), opened);
    lemma_code_lookup(opened.spec_code(), offered);
    lemma_header_refusal(line, offered, filler);
}

/// A line that opens with the code of `satz` may be refused by the decoder
/// of `satz`, but not with the header failure.
pub proof fn lemma_header_accepted(line: Seq<u8>, satz: Satz, filler: Class)
    requires
        line.len() >= 3,
        header_of(line) == satz.spec_code(),
    ensures
        spec_header(line, satz) matches Err(e) ==> !(e.kind is HeaderMismatch),
        spec_failure(satz, line, filler) matches Some(e) ==> !(e.kind is HeaderMismatch),
{
}

/// The header code determines the length of the line: whatever the record
/// type, a line that its decoder accepts is 128 columns wide and opens with
/// the code of that type.
pub proof fn lemma_line_width(satz: Satz, line: Seq<u8>, filler: Class)
    requires
        spec_failure(satz, line, filler) is None,
    ensures
        line.len() == 128,
        header_of(line) == satz.spec_code(),
        spec_header(line, satz) == Ok::<int, DecodeError>(5),
{
}

/// A repetition that succeeds has found a call-off in every slot.
pub proof fn lemma_leading_abrufe_complete(line: Seq<u8>, at: int, count: nat)
    ensures
        leading_abrufe(line, at, count) <= count,
        leading_abrufe(line, at, count) == count ==> forall|k: int|
            0 <= k < count ==> (#[trigger] spec_abruf(line, at + 15 * k)) is Ok,
    decreases count,
{
    if count > 0 && spec_abruf(line, at) is Ok {
        lemma_leading_abrufe_complete(line, at + 15, (count - 1) as nat);
        if leading_abrufe(line, at, count) == count {
            assert forall|k: int| 0 <= k < count implies (#[trigger] spec_abruf(line, at + 15 * k)) is Ok by {
                if k > 0 {
                    assert(spec_abruf(line, at + 15 + 15 * (k - 1)) is Ok);
                }
            }
        }
    }
}

/// Fixed counts: a record of type 513 that decodes holds exactly five
/// call-offs and one of type 514 exactly eight; and where the slots behind
/// a good header hold fewer, the record fails with the repeat failure that
/// says how many they hold. There is no short success.
pub proof fn lemma_fixed_count(line: Seq<u8>, filler: Class)
    ensures
        spec_satz513(line, filler) matches Ok(items) ==> items.len() == 5,
        spec_satz514(line, filler) matches Ok(items) ==> items.len() == 8,
        spec_header(line, Satz::S513) is Ok && spec_ignore_n(line, 5, 43) is Ok && leading_abrufe(
            line,
            48,
            5,
        ) < 5 ==> spec_satz513(line, filler) == Err::<Seq<Abruf>, DecodeError>(
            repeat_error(48, 5, leading_abrufe(line, 48, 5)),
        ),
        spec_header(line, Satz::S514) is Ok && leading_abrufe(line, 5, 8) < 8 ==> spec_satz514(
            line,
            filler,
        ) == Err::<Seq<Abruf>, DecodeError>(repeat_error(5, 8, leading_abrufe(line, 5, 8))),
{
}

/// The columns of a call-off: the date in the first six, the amount in the
/// nine behind them, each a padded number.
pub proof fn lemma_abruf_layout(line: Seq<u8>, at: int)
    ensures
        spec_abruf(line, at) matches Ok((item, next)) ==> {
            &&& 0 <= at
            &&& next == at + 15
            &&& next <= line.len()
            &&& Some(item.date as u64) == spec_to_number(line.subrange(at, at + 6), LIMIT_32)
            &&& Some(item.amount) == spec_to_number(line.subrange(at + 6, at + 15), LIMIT_64)
        },
{
}

/// The columns of a record of type 511: customer in 5..14, supplier in
/// 14..23, on a line of 128 columns.
pub proof fn lemma_satz511_layout(line: Seq<u8>, filler: Class)
    ensures
        spec_satz511(line, filler) matches Ok(record) ==> {
            &&& line.len() == 128
            &&& record.kunde == line.subrange(5, 14)
            &&& record.lieferant == line.subrange(14, 23)
            &&& record.well_formed()
        },
{
    lemma_read_accepts(line, 5, 9, Class::Alphanumeric);
    lemma_read_accepts(line, 14, 9, Class::Alphanumeric);
}

/// The columns of a record of type 512: plant in 5..8, new call-off number
/// in 8..17, old call-off number in 23..32, the customer's part number in
/// 38..60, unloading point in 94..99, unit of measure in 103..105, on a line
/// of 128 columns.
pub proof fn lemma_satz512_layout(line: Seq<u8>, filler: Class)
    ensures
        spec_satz512(line, filler) matches Ok(record) ==> {
            &&& line.len() == 128
            &&& record.werk_kunde == line.subrange(5, 8)
            &&& Some(record.lieferabruf_neu) == spec_to_number(line.subrange(8, 17), LIMIT_64)
            &&& Some(record.lieferabruf_alt) == spec_to_number(line.subrange(23, 32), LIMIT_64)
            &&& record.sachnummer_kunde == line.subrange(38, 60)
            &&& record.abladestelle == line.subrange(94, 99)
            &&& record.mengeneinheit == line.subrange(103, 105)
            &&& record.well_formed()
        },
{
    lemma_read_accepts(line, 5, 3, Class::Alphanumeric);
    lemma_read_accepts(line, 38, 22, Class::Alphanumeric);
    lemma_read_accepts(line, 94, 5, Class::Alphanumeric);
    lemma_read_accepts(line, 103, 2, Class::Alphanumeric);
}

/// The columns of the call-offs: slot `k` of a record of type 513 starts at
/// column 48 + 15 k, slot `k` of a record of type 514 at column 5 + 15 k,
/// on lines of 128 columns.
pub proof fn lemma_slots_layout(line: Seq<u8>, filler: Class)
    ensures
        spec_satz513(line, filler) matches Ok(items) ==> line.len() == 128 && forall|k: int|
            0 <= k < 5 ==> (#[trigger] spec_abruf(line, 48 + 15 * k)) is Ok && abruf_in_slot(line, 48, k)
                == items[k],
        spec_satz514(line, filler) matches Ok(items) ==> line.len() == 128 && forall|k: int|
            0 <= k < 8 ==> (#[trigger] spec_abruf(line, 5 + 15 * k)) is Ok && abruf_in_slot(line, 5, k)
                == items[k],
{
    lemma_leading_abrufe_complete(line, 48, 5);
    lemma_leading_abrufe_complete(line, 5, 8);
}

} // verus!
